use vstd::prelude::*;

use crate::container::{Container, Segment};
use crate::translate::{addr_to_seg_off_range, spec_first_seg_for_addr};
use crate::translate::lemma_first_seg_for_addr_props;
use crate::vma::VMA;

verus! {

/// The value of `c` as a digit, in decimal or hexadecimal (both letter
/// cases); none when `c` is no digit of that radix.
pub open spec fn spec_digit_val(c: char, radix: u64) -> Option<u64> {
    let v = c as u32;
    if '0' as u32 <= v && v <= '9' as u32 {
        Some(((v - '0' as u32) as u64))
    } else if radix == 16 && 'a' as u32 <= v && v <= 'f' as u32 {
        Some(((v - 'a' as u32 + 10) as u64))
    } else if radix == 16 && 'A' as u32 <= v && v <= 'F' as u32 {
        Some(((v - 'A' as u32 + 10) as u64))
    } else {
        None
    }
}

/// Folds the digits of `s` onto `acc` in the given radix; none on the first
/// non-digit or when the value no longer fits in 64 bits.
pub open spec fn spec_parse_digits(s: Seq<char>, radix: u64, acc: u64) -> Option<u64>
    decreases s.len(),
{
    if s.len() == 0 {
        Some(acc)
    } else {
        match spec_digit_val(s[0], radix) {
            Some(d) => if acc * radix + d <= u64::MAX {
                spec_parse_digits(s.drop_first(), radix, ((acc * radix + d) as u64))
            } else {
                None
            },
            None => None,
        }
    }
}

/// Numeric parsing of the tool: hexadecimal after a `0x` prefix, decimal
/// otherwise; none for an empty string, a bare prefix, a stray character or
/// a value over 64 bits.
pub open spec fn spec_stoi(s: Seq<char>) -> Option<u64> {
    if s.len() >= 2 && s[0] == '0' && s[1] == 'x' {
        if s.len() == 2 {
            None
        } else {
            spec_parse_digits(s.skip(2), 16, 0)
        }
    } else if s.len() == 0 {
        None
    } else {
        spec_parse_digits(s, 10, 0)
    }
}

/// The index of the first occurrence of `c` in `s`.
pub open spec fn spec_first_idx(s: Seq<char>, c: char) -> Option<int>
    decreases s.len(),
{
    if s.len() == 0 {
        None
    } else if s[0] == c {
        Some(0int)
    } else {
        match spec_first_idx(s.drop_first(), c) {
            Some(i) => Some(i + 1),
            None => None,
        }
    }
}

/// The first occurrence, derived from a scan that found none among the first
/// `i` characters.
proof fn lemma_first_idx_scan(s: Seq<char>, c: char, i: int)
    requires
        0 <= i <= s.len(),
        forall|j: int| 0 <= j < i ==> s[j] != c,
    ensures
        i < s.len() && s[i] == c ==> spec_first_idx(s, c) == Some(i),
        i == s.len() ==> spec_first_idx(s, c) is None,
    decreases i,
{
    if i > 0 {
        assert(s.drop_first() =~= s.subrange(1, s.len() as int));
        lemma_first_idx_scan(s.drop_first(), c, i - 1);
        if i < s.len() {
            assert(s.drop_first()[i - 1] == s[i]);
        }
    }
}

/// The spec-level outcome of a dump request: the materialized bytes, or the
/// reason the request fails (a malformed specification, an end address before
/// the start, an unmapped address, or a span reaching the zero-filled tail of
/// the segment at the given index).
pub enum DumpOutcome {
    Bytes(Seq<u8>),
    Invalid,
    EndBeforeStart,
    Unmapped(u64),
    ZeroFill(u64, int),
}

/// What a dump failure reports: the offending spec string, unmapped address,
/// or first zero-filled address with the name of its segment.
#[derive(Clone, Debug, PartialEq, Eq)]
pub enum DumpError {
    InvalidSpec(String),
    EndBeforeStart(String),
    Unmapped(VMA),
    ZeroFill(VMA, Option<String>),
}

/// Materializing `size` bytes from `addr` on: resolves the current address to
/// the first segment containing it (failing with the unmapped address),
/// refuses spans that reach the segment's zero-filled tail (failing with the
/// first zero-filled address), otherwise takes the bytes available in this
/// segment and continues at the next address until `size` is exhausted.
pub open spec fn spec_dump(segs: Seq<Segment>, addr: u64, size: u64) -> DumpOutcome
    decreases size,
    when true
    via spec_dump_decreases
{
    if size == 0 {
        DumpOutcome::Bytes(Seq::empty())
    } else {
        match spec_first_seg_for_addr(segs, addr) {
            None => DumpOutcome::Unmapped(addr),
            Some(i) => {
                let seg = segs[i];
                let off = (addr - seg.vmaddr.0) as u64;
                let avail = (seg.vmsize - off) as u64;
                let osize: u64 = if avail < size {
                    avail
                } else {
                    size
                };
                if off + osize > seg.filesize {
                    DumpOutcome::ZeroFill(seg.vmaddr.0.wrapping_add(seg.filesize), i)
                } else {
                    let chunk = seg.data->Some_0@.subrange(off as int, off + osize);
                    match spec_dump(segs, addr.wrapping_add(osize), ((size - osize) as u64)) {
                        DumpOutcome::Bytes(rest) => DumpOutcome::Bytes(chunk + rest),
                        e => e,
                    }
                }
            },
        }
    }
}

#[via_fn]
proof fn spec_dump_decreases(segs: Seq<Segment>, addr: u64, size: u64) {
    lemma_first_seg_for_addr_props(segs, addr);
}

/// The whole dump operation over a textual range specification: `ADDR+LEN`
/// takes `LEN` bytes from `ADDR`; `ADDR1-ADDR2` takes the bytes from `ADDR1`
/// up to but not including `ADDR2` and requires `ADDR2 >= ADDR1`. A `+` is
/// looked for before a `-`; numbers parse per `spec_stoi`.
pub open spec fn spec_get_dump(segs: Seq<Segment>, s: Seq<char>) -> DumpOutcome {
    let sep = match spec_first_idx(s, '+') {
        Some(z) => Some((z, false)),
        None => match spec_first_idx(s, '-') {
            Some(z) => Some((z, true)),
            None => None,
        },
    };
    match sep {
        None => DumpOutcome::Invalid,
        Some((z, is_addr_end)) => match (spec_stoi(s.take(z)), spec_stoi(s.skip(z + 1))) {
            (Some(addr), Some(second)) => if is_addr_end {
                if second < addr {
                    DumpOutcome::EndBeforeStart
                } else {
                    spec_dump(segs, addr, ((second - addr) as u64))
                }
            } else {
                spec_dump(segs, addr, second)
            },
            _ => DumpOutcome::Invalid,
        },
    }
}

/// The value of `c` as a digit of the radix.
fn digit_val(c: char, radix: u64) -> (r: Option<u64>)
    ensures
        r == spec_digit_val(c, radix),
{
    let v = c as u32;
    if '0' as u32 <= v && v <= '9' as u32 {
        Some((v - '0' as u32) as u64)
    } else if radix == 16 && 'a' as u32 <= v && v <= 'f' as u32 {
        Some((v - 'a' as u32 + 10) as u64)
    } else if radix == 16 && 'A' as u32 <= v && v <= 'F' as u32 {
        Some((v - 'A' as u32 + 10) as u64)
    } else {
        None
    }
}

/// Folds the digits of `s` from position `start` on.
fn parse_digits(s: &str, start: usize, radix: u64) -> (r: Option<u64>)
    requires
        radix == 10 || radix == 16,
        start <= s@.len(),
    ensures
        r == spec_parse_digits(s@.skip(start as int), radix, 0),
{
    let n = s.unicode_len();
    let mut i: usize = start;
    let mut acc: u64 = 0;
    while i < n
        invariant
            radix == 10 || radix == 16,
            start <= i <= n,
            n == s@.len(),
            spec_parse_digits(s@.skip(start as int), radix, 0) == spec_parse_digits(
                s@.skip(i as int),
                radix,
                acc,
            ),
        decreases n - i,
    {
        let c = s.get_char(i);
        proof {
            assert(s@.skip(i as int)[0] == s@[i as int]);
            assert(s@.skip(i as int).drop_first() =~= s@.skip(i as int + 1));
        }
        match digit_val(c, radix) {
            Some(d) => {
                match acc.checked_mul(radix) {
                    Some(m) => match m.checked_add(d) {
                        Some(v) => {
                            acc = v;
                        },
                        None => {
                            return None;
                        },
                    },
                    None => {
                        return None;
                    },
                }
            },
            None => {
                return None;
            },
        }
        i = i + 1;
    }
    proof {
        assert(s@.skip(n as int) =~= Seq::<char>::empty());
    }
    Some(acc)
}

/// Parses a number the way the tool reads all numeric input: hexadecimal
/// after a `0x` prefix, decimal otherwise.
pub fn stoi(s: &str) -> (r: Option<u64>)
    ensures
        r == spec_stoi(s@),
{
    let n = s.unicode_len();
    if n >= 2 && s.get_char(0) == '0' && s.get_char(1) == 'x' {
        if n == 2 {
            None
        } else {
            parse_digits(s, 2, 16)
        }
    } else if n == 0 {
        None
    } else {
        proof {
            assert(s@.skip(0) =~= s@);
        }
        parse_digits(s, 0, 10)
    }
}

/// The position of the first occurrence of `c` in `s`.
fn find_char(s: &str, c: char) -> (r: Option<usize>)
    ensures
        r is None <==> spec_first_idx(s@, c) is None,
        r matches Some(i) ==> spec_first_idx(s@, c) == Some(i as int) && i < s@.len(),
{
    let n = s.unicode_len();
    let mut i: usize = 0;
    while i < n
        invariant
            i <= n,
            n == s@.len(),
            forall|j: int| 0 <= j < i ==> s@[j] != c,
        decreases n - i,
    {
        if s.get_char(i) == c {
            proof {
                lemma_first_idx_scan(s@, c, i as int);
            }
            return Some(i);
        }
        i = i + 1;
    }
    proof {
        lemma_first_idx_scan(s@, c, n as int);
    }
    None
}

/// Parses the range specification and materializes the requested bytes,
/// possibly across several segments in address order. Zero fill is never
/// materialized: a span reaching it is an error naming the first zero-filled
/// address and the segment, and an unmapped address is an error naming it.
pub fn get_dump_from_spec(eb: &Container, dump_spec: &str) -> (r: Result<Vec<u8>, DumpError>)
    requires
        eb.wf(),
    ensures
        ({
            let out = spec_get_dump(eb.segments@, dump_spec@);
            match r {
                Ok(bytes) => out == DumpOutcome::Bytes(bytes@),
                Err(e) => match e {
                    DumpError::InvalidSpec(txt) => out == DumpOutcome::Invalid && txt@
                        == dump_spec@,
                    DumpError::EndBeforeStart(txt) => out == DumpOutcome::EndBeforeStart && txt@
                        == dump_spec@,
                    DumpError::Unmapped(a) => out == DumpOutcome::Unmapped(a.0),
                    DumpError::ZeroFill(a, nm) => out matches DumpOutcome::ZeroFill(za, zi) && a.0
                        == za && 0 <= zi < eb.segments@.len() && nm.deep_view()
                        == eb.segments@[zi].name.deep_view(),
                },
            }
        }),
{
    let n = dump_spec.unicode_len();
    let (z, is_addr_end): (usize, bool) = match find_char(dump_spec, '+') {
        Some(z) => (z, false),
        None => match find_char(dump_spec, '-') {
            Some(z) => (z, true),
            None => {
                return Err(DumpError::InvalidSpec(dump_spec.to_owned()));
            },
        },
    };
    let first = dump_spec.substring_char(0, z);
    let second = dump_spec.substring_char(z + 1, n);
    proof {
        assert(first@ =~= dump_spec@.take(z as int));
        assert(second@ =~= dump_spec@.skip(z as int + 1));
    }
    let addr_val: u64 = match stoi(first) {
        Some(a) => a,
        None => {
            return Err(DumpError::InvalidSpec(dump_spec.to_owned()));
        },
    };
    let second_val: u64 = match stoi(second) {
        Some(v) => v,
        None => {
            return Err(DumpError::InvalidSpec(dump_spec.to_owned()));
        },
    };
    let mut size: u64 = second_val;
    if is_addr_end {
        if second_val < addr_val {
            return Err(DumpError::EndBeforeStart(dump_spec.to_owned()));
        }
        size = second_val - addr_val;
    }
    let mut addr = VMA(addr_val);
    let mut ret: Vec<u8> = Vec::new();
    let ghost addr0: u64 = addr.0;
    let ghost size0: u64 = size;
    proof {
        assert(spec_get_dump(eb.segments@, dump_spec@) == spec_dump(eb.segments@, addr0, size0));
    }
    while size > 0
        invariant
            eb.wf(),
            spec_get_dump(eb.segments@, dump_spec@) == (match spec_dump(
                eb.segments@,
                addr.0,
                size,
            ) {
                DumpOutcome::Bytes(rest) => DumpOutcome::Bytes(ret@ + rest),
                e => e,
            }),
        decreases size,
    {
        match addr_to_seg_off_range(&eb.segments, addr) {
            None => {
                proof {
                    assert(spec_dump(eb.segments@, addr.0, size) == DumpOutcome::Unmapped(addr.0));
                }
                return Err(DumpError::Unmapped(addr));
            },
            Some((idx, off, avail)) => {
                let seg = &eb.segments[idx];
                let osize: u64 = if avail < size {
                    avail
                } else {
                    size
                };
                if off + osize > seg.filesize {
                    let name_copy: Option<String> = match &seg.name {
                        Some(s) => Some(s.clone()),
                        None => None,
                    };
                    return Err(
                        DumpError::ZeroFill(VMA(seg.vmaddr.0.wrapping_add(seg.filesize)), name_copy),
                    );
                }
                let data: &Vec<u8> = match &seg.data {
                    Some(d) => d,
                    None => {
                        proof {
                            assert(false);
                        }
                        vstd::pervasive::unreached()
                    },
                };
                let dlen: usize = data.len();
                let ghost ret_snap: Seq<u8> = ret@;
                proof {
                    assert(eb.segments@[idx as int].wf());
                    assert(ret@ =~= ret_snap + data@.subrange(off as int, off as int));
                }
                let mut j: u64 = 0;
                while j < osize
                    invariant
                        j <= osize,
                        off + osize <= eb.segments@[idx as int].filesize,
                        data@ == eb.segments@[idx as int].data->Some_0@,
                        data@.len() >= eb.segments@[idx as int].filesize,
                        data@.len() == dlen,
                        ret@ == ret_snap + data@.subrange(off as int, off + j),
                    decreases osize - j,
                {
                    let b: u8 = data[(off + j) as usize];
                    ret.push(b);
                    proof {
                        assert(ret@ =~= ret_snap + data@.subrange(off as int, off + j + 1));
                    }
                    j = j + 1;
                }
                proof {
                    let chunk = data@.subrange(off as int, off + osize);
                    let rest_out = spec_dump(
                        eb.segments@,
                        addr.0.wrapping_add(osize),
                        ((size - osize) as u64),
                    );
                    assert(spec_dump(eb.segments@, addr.0, size) == (match rest_out {
                        DumpOutcome::Bytes(rb) => DumpOutcome::Bytes(chunk + rb),
                        e => e,
                    }));
                    if rest_out is Bytes {
                        assert(ret_snap + (chunk + rest_out->Bytes_0) =~= (ret_snap + chunk)
                            + rest_out->Bytes_0);
                    }
                }
                addr = addr.wrapping_add(osize);
                size = size - osize;
            },
        }
    }
    proof {
        assert(ret@ + Seq::<u8>::empty() =~= ret@);
    }
    Ok(ret)
}

} // verus!
