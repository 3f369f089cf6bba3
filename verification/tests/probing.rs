use exectool::container::{Arch, ErrorKind};
use exectool::probe::{all_probers, create, probe_all, Prober};
use exectool::raw_binary::{RawBinary, RawProber};
use exectool::vma::VMA;

fn strs(v: &[&str]) -> Vec<String> {
    v.iter().map(|s| s.to_string()).collect()
}

#[test]
fn raw_binary_new_builds_whole_buffer_segment() {
    let buf = vec![0xde, 0xad, 0xbe, 0xef];
    let rb = RawBinary::new(buf.clone(), Vec::new());
    let eb = rb.get_exec_base();
    assert_eq!(eb.arch, Arch::UnknownArch);
    assert_eq!(eb.pointer_size, 0);
    assert_eq!(eb.segments.len(), 1);
    assert_eq!(eb.sections.len(), 1);
    let s = &eb.segments[0];
    assert_eq!(s.vmaddr, VMA(0));
    assert_eq!(s.vmsize, 4);
    assert_eq!(s.fileoff, 0);
    assert_eq!(s.filesize, 4);
    assert_eq!(s.name, None);
    assert!(s.prot.r && s.prot.w && s.prot.x);
    assert_eq!(s.data.as_ref().unwrap(), &buf);
    assert_eq!(eb.whole_buf.as_ref().unwrap(), &buf);
}

#[test]
fn probe_always_recognizes_raw_as_unlikely() {
    let probers = all_probers();
    let buf = vec![1, 2, 3];
    let results = probe_all(&probers, &buf);
    assert_eq!(results.len(), 1);
    assert_eq!(results[0].desc, "raw");
    assert_eq!(results[0].arch, Arch::UnknownArch);
    assert!(!results[0].likely);
    assert_eq!(results[0].cmd, strs(&["raw"]));
}

#[test]
fn probing_twice_is_identical() {
    let probers = all_probers();
    let buf = vec![7, 7, 7, 7];
    let r1 = probe_all(&probers, &buf);
    let r2 = probe_all(&probers, &buf);
    assert_eq!(r1, r2);
}

#[test]
fn prober_names() {
    assert_eq!(RawProber.name(), "raw");
    assert_eq!(Prober::Raw(RawProber).name(), "raw");
}

#[test]
fn create_by_name_returns_residual_args() {
    let probers = all_probers();
    let buf = vec![9, 8, 7];
    let (eb, residual) = create(&probers, &buf, strs(&["raw", "x", "y"])).unwrap();
    assert_eq!(eb.segments.len(), 1);
    assert_eq!(eb.segments[0].data.as_ref().unwrap(), &buf);
    assert_eq!(residual, strs(&["x", "y"]));
}

#[test]
fn create_passes_through_args_after_double_dash() {
    let probers = all_probers();
    let buf = vec![1];
    let (_eb, residual) = create(&probers, &buf, strs(&["raw", "--", "--segs"])).unwrap();
    assert_eq!(residual, strs(&["--segs"]));
}

#[test]
fn create_rejects_unknown_option() {
    let probers = all_probers();
    let buf = vec![1];
    let err = create(&probers, &buf, strs(&["raw", "--frob"])).unwrap_err();
    assert_eq!(err.kind, ErrorKind::InvalidArgs);
}

#[test]
fn create_auto_selects_a_candidate() {
    let probers = all_probers();
    let buf = vec![0x7f, b'E', b'L', b'F'];
    // No likely candidate exists, so the first candidate (raw) is taken.
    let (eb, residual) = create(&probers, &buf, strs(&["auto"])).unwrap();
    assert_eq!(eb.arch, Arch::UnknownArch);
    assert_eq!(eb.segments[0].data.as_ref().unwrap(), &buf);
    assert_eq!(residual, strs(&[]));
}

#[test]
fn create_auto_substitutes_arch_into_candidate_command() {
    let probers = all_probers();
    let buf = vec![1];
    // The raw prober's canonical command gains the caller's architecture,
    // and raw defines no options, so its own option parsing rejects it.
    let err = create(&probers, &buf, strs(&["auto", "--arch", "x86"])).unwrap_err();
    assert_eq!(err.kind, ErrorKind::InvalidArgs);
}

#[test]
fn create_with_no_args_is_invalid() {
    let probers = all_probers();
    let buf = vec![1];
    let err = create(&probers, &buf, Vec::new()).unwrap_err();
    assert_eq!(err.kind, ErrorKind::InvalidArgs);
}

#[test]
fn create_with_unknown_format_is_invalid() {
    let probers = all_probers();
    let buf = vec![1];
    let err = create(&probers, &buf, strs(&["elf"])).unwrap_err();
    assert_eq!(err.kind, ErrorKind::InvalidArgs);
}

#[test]
fn create_auto_with_empty_registry_is_invalid() {
    let probers: Vec<Prober> = Vec::new();
    let buf = vec![1];
    let err = create(&probers, &buf, strs(&["auto"])).unwrap_err();
    assert_eq!(err.kind, ErrorKind::InvalidArgs);
}
