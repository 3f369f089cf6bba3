use exectool::reloc::{sign_extend, un_sign_extend, RelocContext, RelocKind};
use exectool::vma::VMA;

fn ctx(kind: RelocKind, pointer_size: u64, base: u64) -> RelocContext {
    RelocContext { kind, pointer_size, base_addr: VMA(base) }
}

#[test]
fn size_per_kind() {
    assert_eq!(ctx(RelocKind::Pointer, 8, 0).size(), 8);
    assert_eq!(ctx(RelocKind::Pointer, 4, 0).size(), 4);
    assert_eq!(ctx(RelocKind::_32Bit, 8, 0).size(), 4);
    assert_eq!(ctx(RelocKind::Arm64Adrp, 8, 0).size(), 4);
    assert_eq!(ctx(RelocKind::Arm64Off12, 8, 0).size(), 4);
    assert_eq!(ctx(RelocKind::Arm64Br26, 8, 0).size(), 4);
}

#[test]
fn pointer_round_trip() {
    let c = ctx(RelocKind::Pointer, 8, 0x5000);
    let w = c.addr_to_word(VMA(0x1234_5678_9abc_def0), 0).unwrap();
    assert_eq!(w, 0x1234_5678_9abc_def0);
    assert_eq!(c.word_to_addr(w), Some(VMA(0x1234_5678_9abc_def0)));
}

#[test]
fn bits32_round_trip_and_rejection() {
    let c = ctx(RelocKind::_32Bit, 8, 0x5000);
    let w = c.addr_to_word(VMA(0xffff_ffff), 0).unwrap();
    assert_eq!(w, 0xffff_ffff);
    assert_eq!(c.word_to_addr(w), Some(VMA(0xffff_ffff)));
    assert_eq!(c.addr_to_word(VMA(0x1_0000_0000), 0), None);
    assert_eq!(c.addr_to_word(VMA(u64::MAX), 0), None);
}

#[test]
fn branch26_round_trip_forward() {
    let c = ctx(RelocKind::Arm64Br26, 8, 0x4000);
    // An unconditional branch word; low 26 bits carry the old displacement.
    let old = 0x1400_0123;
    let w = c.addr_to_word(VMA(0x4100), old).unwrap();
    assert_eq!(w, 0x1400_0040);
    assert_eq!(c.word_to_addr(w), Some(VMA(0x4100)));
}

#[test]
fn branch26_round_trip_backward() {
    let c = ctx(RelocKind::Arm64Br26, 8, 0x4000);
    let old = 0x1400_0000;
    let w = c.addr_to_word(VMA(0x4000 - 8), old).unwrap();
    assert_eq!(w, 0x17ff_fffe);
    assert_eq!(c.word_to_addr(w), Some(VMA(0x3ff8)));
}

#[test]
fn branch26_rejects_misaligned() {
    let c = ctx(RelocKind::Arm64Br26, 8, 0x4000);
    assert_eq!(c.addr_to_word(VMA(0x4002), 0x1400_0000), None);
    assert_eq!(c.addr_to_word(VMA(0x4001), 0x1400_0000), None);
}

#[test]
fn branch26_rejects_out_of_range() {
    let c = ctx(RelocKind::Arm64Br26, 8, 0);
    // 2^27 is one past the positive end of the signed 28-bit range.
    assert_eq!(c.addr_to_word(VMA(0x800_0000), 0x1400_0000), None);
    // 2^27 - 4 is the last aligned displacement inside the range.
    let w = c.addr_to_word(VMA(0x7ff_fffc), 0x1400_0000).unwrap();
    assert_eq!(c.word_to_addr(w), Some(VMA(0x7ff_fffc)));
    // -2^27 is the negative end, still representable.
    let back = c.addr_to_word(VMA(0u64.wrapping_sub(0x800_0000)), 0x1400_0000).unwrap();
    assert_eq!(c.word_to_addr(back), Some(VMA(0u64.wrapping_sub(0x800_0000))));
}

#[test]
fn branch26_decode_rejects_wrong_opcode() {
    let c = ctx(RelocKind::Arm64Br26, 8, 0);
    assert_eq!(c.word_to_addr(0x9400_0000 ^ 0x8000_0000 ^ 0x4000_0000), None);
    assert_eq!(c.word_to_addr(0x0000_0000), None);
}

#[test]
fn adrp_round_trip_preserves_register() {
    let c = ctx(RelocKind::Arm64Adrp, 8, 0x1000);
    // ADRP with destination register 1; page-aligned displacement of 0x2000.
    let old = 0x9000_0001;
    let w = c.addr_to_word(VMA(0x3000), old).unwrap();
    assert_eq!(w, 0xd000_0001);
    assert_eq!(c.word_to_addr(w), Some(VMA(0x3000)));
    // The register field survived.
    assert_eq!(w & 0x1f, 1);
}

#[test]
fn adrp_rejects_unaligned_page_offset() {
    let c = ctx(RelocKind::Arm64Adrp, 8, 0x1000);
    assert_eq!(c.addr_to_word(VMA(0x3004), 0x9000_0001), None);
}

#[test]
fn adrp_decode_rejects_wrong_opcode() {
    let c = ctx(RelocKind::Arm64Adrp, 8, 0x1000);
    assert_eq!(c.word_to_addr(0x1000_0000), None);
}

#[test]
fn off12_always_fails() {
    let c = ctx(RelocKind::Arm64Off12, 8, 0x1000);
    assert_eq!(c.word_to_addr(0x9000_0000), None);
    assert_eq!(c.addr_to_word(VMA(0x1000), 0x9000_0000), None);
}

#[test]
fn sign_extension_round_trip() {
    assert_eq!(un_sign_extend(sign_extend(5, 8), 8), Some(5));
    assert_eq!(un_sign_extend(sign_extend(0x80, 8), 8), Some(0x80));
    assert_eq!(sign_extend(0x80, 8), 0xffff_ffff_ffff_ff80);
    assert_eq!(sign_extend(0x7f, 8), 0x7f);
    assert_eq!(un_sign_extend(0xffff_ffff_ffff_ff80, 8), Some(0x80));
    // 0x80 read back as a 64-bit value is outside the signed 8-bit range.
    assert_eq!(un_sign_extend(0x80, 8), None);
    assert_eq!(un_sign_extend(0x7f, 8), Some(0x7f));
    for bits in 1..=63u8 {
        let v = 1u64 << (bits - 1);
        assert_eq!(un_sign_extend(sign_extend(v, bits), bits), Some(v));
        let small = v - 1;
        assert_eq!(un_sign_extend(sign_extend(small, bits), bits), Some(small));
    }
}
