use vstd::prelude::*;

use crate::vma::VMA;

verus! {

/// The supported relocation kinds: an absolute pointer-sized word, an
/// absolute 32-bit word, and three ARM64 instruction encodings (of which
/// the page-offset form is declared unsupported rather than approximated).
#[allow(non_camel_case_types)]
#[derive(Debug, PartialEq, Eq, Copy, Clone, Structural)]
pub enum RelocKind {
    Pointer,
    _32Bit,
    Arm64Adrp,
    Arm64Off12,
    Arm64Br26,
}

/// One relocation-application context: the kind of reference, the container's
/// pointer size, and the address the word sits at (displacements are computed
/// relative to it). A value type with no identity beyond its fields.
#[derive(Copy, Clone, Debug)]
pub struct RelocContext {
    pub kind: RelocKind,
    pub pointer_size: u64,
    pub base_addr: VMA,
}

/// `val` treated as a `bits`-wide two's-complement field, with its sign bit
/// copied through the remaining high bits of the 64-bit word. Bits of `val`
/// at or above `bits` are kept (callers pass masked values).
pub open spec fn spec_sign_extend(val: u64, bits: u8) -> u64 {
    if (val >> ((bits - 1) as u64)) & 1 == 1 {
        val | (0xffff_ffff_ffff_ffffu64 << (bits as u64))
    } else {
        val
    }
}

/// The inverse direction: the low `bits` bits of `val`, provided `val` is
/// exactly their sign-extension (i.e. the truncation loses nothing).
pub open spec fn spec_un_sign_extend(val: u64, bits: u8) -> Option<u64> {
    let masked = val & (((1u64 << (bits as u64)) - 1) as u64);
    if spec_sign_extend(masked, bits) == val {
        Some(masked)
    } else {
        None
    }
}

/// Extends the sign of a `bits`-wide field through the high bits of the word.
pub fn sign_extend(val: u64, bits: u8) -> (r: u64)
    requires
        1 <= bits <= 63,
    ensures
        r == spec_sign_extend(val, bits),
{
    if (val >> ((bits - 1) as u64)) & 1 == 1 {
        val | (0xffff_ffff_ffff_ffffu64 << (bits as u64))
    } else {
        val
    }
}

/// Certifies that `val` is losslessly representable as a `bits`-wide signed
/// field: returns the field when `val` equals the sign-extension of its own
/// low `bits` bits, and `None` otherwise.
pub fn un_sign_extend(val: u64, bits: u8) -> (r: Option<u64>)
    requires
        1 <= bits <= 63,
    ensures
        r == spec_un_sign_extend(val, bits),
{
    proof {
        assert(1u64 << (bits as u64) >= 2) by (bit_vector)
            requires
                1 <= bits <= 63,
        ;
    }
    let mask: u64 = (1u64 << (bits as u64)) - 1;
    let masked: u64 = val & mask;
    if sign_extend(masked, bits) == val {
        Some(masked)
    } else {
        None
    }
}

/// The word size, in bytes, that a relocation of this context occupies.
pub open spec fn spec_reloc_size(ctx: RelocContext) -> u64 {
    match ctx.kind {
        RelocKind::Pointer => ctx.pointer_size,
        RelocKind::_32Bit => 4,
        RelocKind::Arm64Adrp => 4,
        RelocKind::Arm64Off12 => 4,
        RelocKind::Arm64Br26 => 4,
    }
}

/// What decoding a raw word yields: the target address for the absolute
/// kinds; for the ARM64 kinds, the base address plus the sign-extended
/// displacement field, provided the word's fixed instruction bits match;
/// nothing for the unsupported kind.
pub open spec fn spec_word_to_addr(ctx: RelocContext, word: u64) -> Option<VMA> {
    match ctx.kind {
        RelocKind::Pointer => Some(VMA(word)),
        RelocKind::_32Bit => Some(VMA(word)),
        RelocKind::Arm64Adrp => if word & 0x9f000000 == 0x90000000 {
            Some(
                VMA(
                    ctx.base_addr.0.wrapping_add(
                        spec_sign_extend(((word & 0x60000000) >> 17) | ((word & 0xffffe0) << 9), 33),
                    ),
                ),
            )
        } else {
            None
        },
        RelocKind::Arm64Br26 => if word & 0x7c000000 == 0x14000000 {
            Some(
                VMA(
                    ctx.base_addr.0.wrapping_add(
                        spec_sign_extend((((word & 0x3ffffff) * 4) as u64), 28),
                    ),
                ),
            )
        } else {
            None
        },
        RelocKind::Arm64Off12 => None,
    }
}

/// What encoding a target address into a word yields: the displacement from
/// the base address is certified losslessly representable in the kind's field
/// width (and, for branches, word-aligned), then scattered into the
/// displacement bits while every non-displacement bit of the original word is
/// preserved. The 32-bit kind rejects addresses above 0xffffffff; the
/// unsupported kind always fails.
pub open spec fn spec_addr_to_word(ctx: RelocContext, addr: VMA, old_word: u64) -> Option<u64> {
    let rel = addr.0.wrapping_sub(ctx.base_addr.0);
    match ctx.kind {
        RelocKind::Pointer => Some(addr.0),
        RelocKind::_32Bit => if addr.0 <= 0xffffffff {
            Some(addr.0)
        } else {
            None
        },
        // The ADRP displacement field is immlo (bits 29..30) and immhi
        // (bits 5..23); 0x60ffffe0 masks exactly those bits.
        RelocKind::Arm64Adrp => match spec_un_sign_extend(rel, 33) {
            Some(x) => if x & 0xfff != 0 {
                None
            } else {
                Some(((x & 0x3000) << 17) | ((x & 0x1ffffc000) >> 9) | (old_word & !0x60ffffe0))
            },
            None => None,
        },
        RelocKind::Arm64Br26 => if rel & 3 != 0 {
            None
        } else {
            match spec_un_sign_extend(rel, 28) {
                Some(x) => Some((x >> 2) | (old_word & !0x3ffffff)),
                None => None,
            }
        },
        RelocKind::Arm64Off12 => None,
    }
}

impl RelocContext {
    /// The byte width of the word this relocation reads and writes.
    pub fn size(&self) -> (r: u64)
        ensures
            r == spec_reloc_size(*self),
    {
        match self.kind {
            RelocKind::Pointer => self.pointer_size,
            RelocKind::_32Bit | RelocKind::Arm64Adrp | RelocKind::Arm64Off12
                | RelocKind::Arm64Br26 => 4,
        }
    }

    /// Decodes a raw word into the target address it refers to, validating
    /// the fixed instruction bits of the ARM64 kinds first.
    pub fn word_to_addr(&self, word: u64) -> (r: Option<VMA>)
        ensures
            r == spec_word_to_addr(*self, word),
    {
        match self.kind {
            RelocKind::Pointer | RelocKind::_32Bit => Some(VMA(word)),
            RelocKind::Arm64Adrp => {
                if word & 0x9f000000 == 0x90000000 {
                    Some(self.base_addr.wrapping_add(
                        sign_extend((word & 0x60000000) >> 17 | (word & 0xffffe0) << 9, 33),
                    ))
                } else {
                    None
                }
            },
            RelocKind::Arm64Br26 => {
                if word & 0x7c000000 == 0x14000000 {
                    proof {
                        assert((word & 0x3ffffff) * 4 <= 0xffffffc) by (bit_vector);
                    }
                    Some(self.base_addr.wrapping_add(sign_extend((word & 0x3ffffff) * 4, 28)))
                } else {
                    None
                }
            },
            RelocKind::Arm64Off12 => None,
        }
    }

    /// Encodes a target address into the displacement bits of `old_word`,
    /// preserving its non-displacement bits; fails where the displacement is
    /// out of the kind's range or misaligned, where a 32-bit word cannot hold
    /// the address, or where the kind is unsupported.
    pub fn addr_to_word(&self, addr: VMA, old_word: u64) -> (r: Option<u64>)
        ensures
            r == spec_addr_to_word(*self, addr, old_word),
    {
        let rel = addr.0.wrapping_sub(self.base_addr.0);
        match self.kind {
            RelocKind::Pointer => Some(addr.0),
            RelocKind::_32Bit => if addr.0 <= 0xffffffff {
                Some(addr.0)
            } else {
                None
            },
            RelocKind::Arm64Adrp => {
                let base = old_word & !0x60ffffe0;
                match un_sign_extend(rel, 33) {
                    Some(x) => {
                        if x & 0xfff != 0 {
                            None
                        } else {
                            Some((x & 0x3000) << 17 | (x & 0x1ffffc000) >> 9 | base)
                        }
                    },
                    None => None,
                }
            },
            RelocKind::Arm64Br26 => {
                let base = old_word & !0x3ffffff;
                if rel & 3 != 0 {
                    None
                } else {
                    match un_sign_extend(rel, 28) {
                        Some(x) => Some(x >> 2 | base),
                        None => None,
                    }
                }
            },
            RelocKind::Arm64Off12 => None,
        }
    }
}

/// Losslessness of the sign-extension pair: any `bits`-wide field value
/// round-trips unchanged through `sign_extend` then `un_sign_extend`.
pub proof fn lemma_sign_extend_lossless(v: u64, bits: u8)
    requires
        1 <= bits <= 63,
        v < (1u64 << (bits as u64)),
    ensures
        spec_un_sign_extend(spec_sign_extend(v, bits), bits) == Some(v),
{
    let e = spec_sign_extend(v, bits);
    assert(e & (((1u64 << (bits as u64)) - 1) as u64) == v && spec_sign_extend(v, bits) == e)
        by (bit_vector)
        requires
            1 <= bits <= 63,
            v < (1u64 << (bits as u64)),
            e == spec_sign_extend(v, bits),
    ;
}

/// `un_sign_extend` succeeds exactly on the words whose value, read as a
/// 64-bit two's-complement number, lies in the signed `bits`-wide range
/// `[-2^(bits-1), 2^(bits-1) - 1]`; every other word is rejected.
pub proof fn lemma_un_sign_extend_range(w: u64, bits: u8)
    requires
        1 <= bits <= 63,
    ensures
        (spec_un_sign_extend(w, bits) is Some) <==> (w < (1u64 << ((bits - 1) as u64)) || w
            + (1u64 << ((bits - 1) as u64)) > u64::MAX),
{
    assert((spec_sign_extend(w & (((1u64 << (bits as u64)) - 1) as u64), bits) == w) <==> (w < (
    1u64 << ((bits - 1) as u64)) || w + (1u64 << ((bits - 1) as u64))
        > 0xffff_ffff_ffff_ffffu64)) by (bit_vector)
        requires
            1 <= bits <= 63,
    ;
}

/// Round trip: whenever encoding a target address over a word that itself
/// decodes succeeds, decoding the encoded word yields that target back.
pub proof fn lemma_reloc_round_trip(ctx: RelocContext, target: VMA, old_word: u64, encoded: u64)
    requires
        spec_word_to_addr(ctx, old_word) is Some,
        spec_addr_to_word(ctx, target, old_word) == Some(encoded),
    ensures
        spec_word_to_addr(ctx, encoded) == Some(target),
{
    let base = ctx.base_addr.0;
    let rel = target.0.wrapping_sub(base);
    assert(base.wrapping_add(rel) == target.0);
    match ctx.kind {
        RelocKind::Pointer => {
            assert(spec_word_to_addr(ctx, encoded) == Some(target));
        },
        RelocKind::_32Bit => {
            assert(spec_word_to_addr(ctx, encoded) == Some(target));
        },
        RelocKind::Arm64Adrp => {
            let x = rel & (((1u64 << 33u64) - 1) as u64);
            assert(spec_un_sign_extend(rel, 33) == Some(x));
            assert(spec_sign_extend(x, 33) == rel);
            assert(x <= 0x1_ffff_ffffu64) by (bit_vector)
                requires
                    x == rel & (((1u64 << 33u64) - 1) as u64),
            ;
            assert(encoded & 0x9f000000 == 0x90000000 && (((encoded & 0x60000000) >> 17) | ((
            encoded & 0xffffe0) << 9)) == x) by (bit_vector)
                requires
                    old_word & 0x9f000000 == 0x90000000,
                    x & 0xfff == 0,
                    x <= 0x1_ffff_ffffu64,
                    encoded == ((x & 0x3000) << 17) | ((x & 0x1ffffc000) >> 9) | (old_word
                        & !0x60ffffe0),
            ;
        },
        RelocKind::Arm64Br26 => {
            let x = rel & (((1u64 << 28u64) - 1) as u64);
            assert(spec_un_sign_extend(rel, 28) == Some(x));
            assert(spec_sign_extend(x, 28) == rel);
            assert(x <= 0xfff_ffffu64 && x & 3 == 0) by (bit_vector)
                requires
                    x == rel & (((1u64 << 28u64) - 1) as u64),
                    rel & 3 == 0,
            ;
            assert(encoded & 0x7c000000 == 0x14000000 && (((encoded & 0x3ffffff) * 4) as u64) == x)
                by (bit_vector)
                requires
                    old_word & 0x7c000000 == 0x14000000,
                    x & 3 == 0,
                    x <= 0xfff_ffffu64,
                    encoded == (x >> 2) | (old_word & !0x3ffffff),
            ;
        },
        RelocKind::Arm64Off12 => {},
    }
}

/// Rejection: a 32-bit relocation never encodes an address above the 32-bit
/// range, and a branch relocation never encodes a displacement that is
/// misaligned or outside the signed 28-bit range.
pub proof fn lemma_reloc_encode_rejects(ctx: RelocContext, target: VMA, old_word: u64)
    ensures
        ctx.kind == RelocKind::_32Bit && target.0 > 0xffffffff ==> spec_addr_to_word(
            ctx,
            target,
            old_word,
        ) is None,
        ctx.kind == RelocKind::Arm64Br26 && target.0.wrapping_sub(ctx.base_addr.0) & 3 != 0
            ==> spec_addr_to_word(ctx, target, old_word) is None,
        ctx.kind == RelocKind::Arm64Br26 && !(target.0.wrapping_sub(ctx.base_addr.0) < 0x800_0000
            || target.0.wrapping_sub(ctx.base_addr.0) + 0x800_0000 > u64::MAX)
            ==> spec_addr_to_word(ctx, target, old_word) is None,
{
    let rel = target.0.wrapping_sub(ctx.base_addr.0);
    lemma_un_sign_extend_range(rel, 28);
    assert((1u64 << ((28 - 1) as u64)) == 0x800_0000) by (bit_vector);
}

} // verus!
