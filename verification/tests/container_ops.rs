use exectool::container::{Arch, Container, Endian, Prot, Segment};
use exectool::dump::{get_dump_from_spec, stoi, DumpError};
use exectool::translate::{addr_to_off, addr_to_seg_off_range, off_to_addr};
use exectool::vma::VMA;

fn seg(vmaddr: u64, vmsize: u64, fileoff: u64, filesize: u64, data: Option<Vec<u8>>) -> Segment {
    Segment {
        vmaddr: VMA(vmaddr),
        vmsize,
        fileoff,
        filesize,
        name: None,
        prot: Prot { r: true, w: false, x: false },
        data,
        seg_idx: None,
    }
}

fn container(segments: Vec<Segment>) -> Container {
    Container {
        arch: Arch::UnknownArch,
        pointer_size: 8,
        endian: Endian::Little,
        segments,
        sections: Vec::new(),
        whole_buf: None,
    }
}

fn bytes(n: usize) -> Vec<u8> {
    (0..n).map(|i| (i % 256) as u8).collect()
}

#[test]
fn vma_wrapping_arithmetic() {
    assert_eq!(VMA(u64::MAX).wrapping_add(1), VMA(0));
    assert_eq!(VMA(0).wrapping_sub(1), VMA(u64::MAX));
    assert_eq!(VMA(0x1000).wrapping_add(0x10), VMA(0x1010));
    assert!(VMA(1).lt(VMA(2)));
    assert!(VMA(2).le(VMA(2)));
}

#[test]
fn stoi_parses_hex_and_decimal() {
    assert_eq!(stoi("0x1000"), Some(0x1000));
    assert_eq!(stoi("4096"), Some(4096));
    assert_eq!(stoi("0xdeadBEEF"), Some(0xdead_beef));
    assert_eq!(stoi("0"), Some(0));
    assert_eq!(stoi("0xffffffffffffffff"), Some(u64::MAX));
    assert_eq!(stoi(""), None);
    assert_eq!(stoi("0x"), None);
    assert_eq!(stoi("12a"), None);
    assert_eq!(stoi("0x10000000000000000"), None);
    assert_eq!(stoi("18446744073709551616"), None);
}

#[test]
fn translation_inverse_on_one_segment() {
    let segs = vec![seg(0x1000, 0x100, 0x40, 0x100, None)];
    assert_eq!(off_to_addr(&segs, 0x40, 0), Some(VMA(0x1000)));
    assert_eq!(addr_to_off(&segs, VMA(0x1000), 0), Some(0x40));
    assert_eq!(off_to_addr(&segs, 0x8f, 0), Some(VMA(0x104f)));
    assert_eq!(addr_to_off(&segs, VMA(0x104f), 0), Some(0x8f));
    // Outside every segment.
    assert_eq!(off_to_addr(&segs, 0x3f, 0), None);
    assert_eq!(off_to_addr(&segs, 0x140, 0), None);
    assert_eq!(addr_to_off(&segs, VMA(0xfff), 0), None);
    assert_eq!(addr_to_off(&segs, VMA(0x1100), 0), None);
}

#[test]
fn translation_rejects_zero_fill_tail() {
    let segs = vec![seg(0x1000, 0x100, 0x40, 0x80, None)];
    assert_eq!(addr_to_off(&segs, VMA(0x1090), 0), None);
    assert_eq!(addr_to_off(&segs, VMA(0x107f), 0), Some(0xbf));
}

#[test]
fn translation_bias() {
    let segs = vec![seg(0x1000, 0x100, 0x40, 0x100, None)];
    assert_eq!(off_to_addr(&segs, 0x40, 0x10), Some(VMA(0x1010)));
    assert_eq!(addr_to_off(&segs, VMA(0x1010), 0x10), Some(0x40));
}

#[test]
fn translation_first_match_wins() {
    let segs = vec![
        seg(0x1000, 0x100, 0x40, 0x100, None),
        seg(0x1000, 0x200, 0x400, 0x200, None),
    ];
    assert_eq!(addr_to_off(&segs, VMA(0x1000), 0), Some(0x40));
    // Only the second segment covers this address.
    assert_eq!(addr_to_off(&segs, VMA(0x1150), 0), Some(0x550));
}

#[test]
fn seg_off_range_reports_remaining_extent() {
    let segs = vec![seg(0x1000, 0x100, 0x40, 0x100, None)];
    assert_eq!(addr_to_seg_off_range(&segs, VMA(0x1010)), Some((0, 0x10, 0xf0)));
    assert_eq!(addr_to_seg_off_range(&segs, VMA(0x2000)), None);
}

#[test]
fn dump_within_one_segment() {
    let data = bytes(0x100);
    let eb = container(vec![seg(0x1000, 0x100, 0x40, 0x100, Some(data.clone()))]);
    let got = get_dump_from_spec(&eb, "0x1000+0x10").unwrap();
    assert_eq!(got, data[0..0x10].to_vec());
    let got2 = get_dump_from_spec(&eb, "0x1000-0x1002").unwrap();
    assert_eq!(got2, data[0..2].to_vec());
    let got3 = get_dump_from_spec(&eb, "0x1010+0x10").unwrap();
    assert_eq!(got3, data[0x10..0x20].to_vec());
}

#[test]
fn dump_end_before_start_fails_naming_spec() {
    let eb = container(vec![seg(0x1000, 0x100, 0x40, 0x100, Some(bytes(0x100)))]);
    assert_eq!(
        get_dump_from_spec(&eb, "0x1002-0x1000"),
        Err(DumpError::EndBeforeStart("0x1002-0x1000".to_string()))
    );
}

#[test]
fn dump_malformed_spec_fails_naming_spec() {
    let eb = container(vec![seg(0x1000, 0x100, 0x40, 0x100, Some(bytes(0x100)))]);
    assert_eq!(
        get_dump_from_spec(&eb, "0x1000"),
        Err(DumpError::InvalidSpec("0x1000".to_string()))
    );
    assert_eq!(
        get_dump_from_spec(&eb, "zzz+1"),
        Err(DumpError::InvalidSpec("zzz+1".to_string()))
    );
}

#[test]
fn dump_unmapped_fails_naming_address() {
    let eb = container(vec![seg(0x1000, 0x100, 0x40, 0x100, Some(bytes(0x100)))]);
    assert_eq!(
        get_dump_from_spec(&eb, "0x9000+1"),
        Err(DumpError::Unmapped(VMA(0x9000)))
    );
    // A request running off the end of the last segment.
    assert_eq!(
        get_dump_from_spec(&eb, "0x10f0+0x20"),
        Err(DumpError::Unmapped(VMA(0x1100)))
    );
}

#[test]
fn dump_into_zero_fill_fails_naming_first_zero_address() {
    let mut s = seg(0x1000, 0x100, 0x40, 0x80, Some(bytes(0x80)));
    s.name = Some("__TEXT".to_string());
    let eb = container(vec![s]);
    assert_eq!(
        get_dump_from_spec(&eb, "0x1000+0x90"),
        Err(DumpError::ZeroFill(VMA(0x1080), Some("__TEXT".to_string())))
    );
}

#[test]
fn dump_across_adjacent_segments() {
    let eb = container(vec![
        seg(0x1000, 0x4, 0x0, 0x4, Some(vec![1, 2, 3, 4])),
        seg(0x1004, 0x4, 0x4, 0x4, Some(vec![5, 6, 7, 8])),
    ]);
    assert_eq!(get_dump_from_spec(&eb, "0x1002+0x4").unwrap(), vec![3, 4, 5, 6]);
    assert_eq!(get_dump_from_spec(&eb, "0x1000+0x8").unwrap(), vec![1, 2, 3, 4, 5, 6, 7, 8]);
}

#[test]
fn dump_of_zero_length_is_empty() {
    let eb = container(vec![seg(0x1000, 0x100, 0x40, 0x100, Some(bytes(0x100)))]);
    assert_eq!(get_dump_from_spec(&eb, "0x1000+0x0").unwrap(), Vec::<u8>::new());
}

#[test]
fn container_check_wf() {
    let ok = container(vec![seg(0x1000, 0x100, 0x40, 0x100, Some(bytes(0x100)))]);
    assert!(ok.check_wf());
    // File extent larger than the virtual extent.
    let bad = container(vec![seg(0x1000, 0x10, 0x40, 0x100, Some(bytes(0x100)))]);
    assert!(!bad.check_wf());
    // File-backed content without a buffer.
    let bad2 = container(vec![seg(0x1000, 0x100, 0x40, 0x80, None)]);
    assert!(!bad2.check_wf());
    // Buffer shorter than the file extent.
    let bad3 = container(vec![seg(0x1000, 0x100, 0x40, 0x80, Some(bytes(0x10)))]);
    assert!(!bad3.check_wf());
}
