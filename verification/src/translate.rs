use vstd::prelude::*;

use crate::container::Segment;
use crate::vma::VMA;

verus! {

/// Whether the segment's file-backed extent `[fileoff, fileoff + filesize)`
/// contains the file offset.
pub open spec fn seg_contains_off(s: Segment, off: u64) -> bool {
    s.fileoff <= off && off - s.fileoff < s.filesize
}

/// Whether the segment's virtual extent `[vmaddr, vmaddr + vmsize)` contains
/// the address.
pub open spec fn seg_contains_addr(s: Segment, addr: u64) -> bool {
    s.vmaddr.0 <= addr && addr - s.vmaddr.0 < s.vmsize
}

/// The address the first segment (in sequence order) whose file extent
/// contains `off` maps that offset to, plus `bias`; none when no segment's
/// file extent contains it. First match wins by deliberate tie-break.
pub open spec fn spec_off_to_addr(segs: Seq<Segment>, off: u64, bias: u64) -> Option<VMA>
    decreases segs.len(),
{
    if segs.len() == 0 {
        None
    } else if seg_contains_off(segs[0], off) {
        Some(VMA(segs[0].vmaddr.0.wrapping_add(((off - segs[0].fileoff) as u64)).wrapping_add(bias)))
    } else {
        spec_off_to_addr(segs.drop_first(), off, bias)
    }
}

/// The file offset backing `addr` (minus `bias`) in the first segment whose
/// virtual extent contains it; none when no segment contains the address, and
/// none when the address falls in the matching segment's zero-filled tail,
/// since such an address has no file offset.
pub open spec fn spec_addr_to_off(segs: Seq<Segment>, addr: u64, bias: u64) -> Option<u64>
    decreases segs.len(),
{
    if segs.len() == 0 {
        None
    } else if seg_contains_addr(segs[0], addr) {
        if addr - segs[0].vmaddr.0 < segs[0].filesize {
            Some(segs[0].fileoff.wrapping_add(((addr - segs[0].vmaddr.0) as u64)).wrapping_sub(bias))
        } else {
            None
        }
    } else {
        spec_addr_to_off(segs.drop_first(), addr, bias)
    }
}

/// The index of the first segment whose virtual extent contains `addr`.
pub open spec fn spec_first_seg_for_addr(segs: Seq<Segment>, addr: u64) -> Option<int>
    decreases segs.len(),
{
    if segs.len() == 0 {
        None
    } else if seg_contains_addr(segs[0], addr) {
        Some(0int)
    } else {
        match spec_first_seg_for_addr(segs.drop_first(), addr) {
            Some(i) => Some(i + 1),
            None => None,
        }
    }
}

/// The found index is in range, its segment contains the address, and every
/// earlier segment does not.
pub proof fn lemma_first_seg_for_addr_props(segs: Seq<Segment>, addr: u64)
    ensures
        spec_first_seg_for_addr(segs, addr) matches Some(i) ==> 0 <= i < segs.len()
            && seg_contains_addr(segs[i], addr) && (forall|j: int|
            0 <= j < i ==> !seg_contains_addr(segs[j], addr)),
        spec_first_seg_for_addr(segs, addr) is None ==> forall|j: int|
            0 <= j < segs.len() ==> !seg_contains_addr(segs[j], addr),
    decreases segs.len(),
{
    if segs.len() > 0 && !seg_contains_addr(segs[0], addr) {
        lemma_first_seg_for_addr_props(segs.drop_first(), addr);
        assert(segs.drop_first() =~= segs.subrange(1, segs.len() as int));
        assert(forall|j: int|
            1 <= j < segs.len() ==> #[trigger] segs[j] == segs.drop_first()[j - 1]);
    }
}

/// The first containing index, derived from a scan that found no match among
/// the first `i` segments.
proof fn lemma_first_seg_scan(segs: Seq<Segment>, addr: u64, i: int)
    requires
        0 <= i <= segs.len(),
        forall|j: int| 0 <= j < i ==> !seg_contains_addr(segs[j], addr),
    ensures
        i < segs.len() && seg_contains_addr(segs[i], addr) ==> spec_first_seg_for_addr(segs, addr)
            == Some(i),
        i == segs.len() ==> spec_first_seg_for_addr(segs, addr) is None,
    decreases i,
{
    if i > 0 {
        assert(!seg_contains_addr(segs[0], addr));
        assert(segs.drop_first() =~= segs.subrange(1, segs.len() as int));
        assert(forall|j: int|
            0 <= j < i - 1 ==> !seg_contains_addr(#[trigger] segs.drop_first()[j], addr));
        lemma_first_seg_scan(segs.drop_first(), addr, i - 1);
        if i < segs.len() {
            assert(segs.drop_first()[i - 1] == segs[i]);
        }
    }
}

/// Scans segments in order; for the first segment whose file extent contains
/// `off`, returns `vmaddr + (off - fileoff) + bias` (wrapping); none when no
/// segment's file extent contains the offset.
pub fn off_to_addr(segments: &Vec<Segment>, off: u64, bias: u64) -> (r: Option<VMA>)
    ensures
        r == spec_off_to_addr(segments@, off, bias),
{
    let n = segments.len();
    let mut i: usize = 0;
    proof {
        assert(segments@.skip(0) =~= segments@);
    }
    while i < n
        invariant
            n == segments@.len(),
            i <= n,
            spec_off_to_addr(segments@, off, bias) == spec_off_to_addr(
                segments@.skip(i as int),
                off,
                bias,
            ),
        decreases n - i,
    {
        let s = &segments[i];
        proof {
            assert(segments@.skip(i as int)[0] == segments@[i as int]);
            assert(segments@.skip(i as int).drop_first() =~= segments@.skip(i as int + 1));
        }
        if off >= s.fileoff && off - s.fileoff < s.filesize {
            return Some(VMA(s.vmaddr.0.wrapping_add(off - s.fileoff).wrapping_add(bias)));
        }
        i = i + 1;
    }
    None
}

/// The symmetric inverse: for the first segment whose virtual extent contains
/// `addr`, returns `fileoff + (addr - vmaddr) - bias` (wrapping); none when
/// the address is unmapped or falls in the segment's zero-filled tail.
pub fn addr_to_off(segments: &Vec<Segment>, addr: VMA, bias: u64) -> (r: Option<u64>)
    ensures
        r == spec_addr_to_off(segments@, addr.0, bias),
{
    let n = segments.len();
    let mut i: usize = 0;
    proof {
        assert(segments@.skip(0) =~= segments@);
    }
    while i < n
        invariant
            n == segments@.len(),
            i <= n,
            spec_addr_to_off(segments@, addr.0, bias) == spec_addr_to_off(
                segments@.skip(i as int),
                addr.0,
                bias,
            ),
        decreases n - i,
    {
        let s = &segments[i];
        proof {
            assert(segments@.skip(i as int)[0] == segments@[i as int]);
            assert(segments@.skip(i as int).drop_first() =~= segments@.skip(i as int + 1));
        }
        if addr.0 >= s.vmaddr.0 && addr.0 - s.vmaddr.0 < s.vmsize {
            if addr.0 - s.vmaddr.0 < s.filesize {
                return Some(s.fileoff.wrapping_add(addr.0 - s.vmaddr.0).wrapping_sub(bias));
            } else {
                return None;
            }
        }
        i = i + 1;
    }
    None
}

/// Same lookup by virtual extent, reporting the matching segment's index, the
/// offset of `addr` within the segment, and how many contiguous bytes remain
/// mapped from `addr` to the end of the segment's virtual extent.
pub fn addr_to_seg_off_range(segments: &Vec<Segment>, addr: VMA) -> (r: Option<(usize, u64, u64)>)
    ensures
        r is None <==> spec_first_seg_for_addr(segments@, addr.0) is None,
        r matches Some((i, off, avail)) ==> spec_first_seg_for_addr(segments@, addr.0) == Some(
            i as int,
        ) && i < segments@.len() && off == addr.0 - segments@[i as int].vmaddr.0 && avail
            == segments@[i as int].vmsize - off && 1 <= avail,
{
    let n = segments.len();
    let mut i: usize = 0;
    while i < n
        invariant
            n == segments@.len(),
            i <= n,
            forall|j: int| 0 <= j < i ==> !seg_contains_addr(segments@[j], addr.0),
        decreases n - i,
    {
        let s = &segments[i];
        if addr.0 >= s.vmaddr.0 && addr.0 - s.vmaddr.0 < s.vmsize {
            let off = addr.0 - s.vmaddr.0;
            proof {
                lemma_first_seg_scan(segments@, addr.0, i as int);
            }
            return Some((i, off, s.vmsize - off));
        }
        i = i + 1;
    }
    proof {
        lemma_first_seg_scan(segments@, addr.0, n as int);
    }
    None
}

} // verus!
