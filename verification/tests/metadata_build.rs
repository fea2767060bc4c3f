use nperf_core::metadata::MetadataBuilder;

#[test]
fn an_archive_without_packets_is_invalid() {
    let builder = MetadataBuilder::new();
    assert!(!builder.is_valid());
}

#[test]
fn machine_and_process_packets_fill_the_summary() {
    let mut builder = MetadataBuilder::new();
    builder.apply_machine_info(b"arm".to_vec());
    builder.apply_process_info(1234, b"/usr/bin/app".to_vec());
    assert!(builder.is_valid());
    let m = &builder.metadata;
    assert_eq!(m.machine_info.as_ref().unwrap().architecture, b"arm".to_vec());
    assert_eq!(m.processes.len(), 1);
    assert_eq!(m.processes[0].pid, 1234);
    assert_eq!(m.processes[0].executable, b"/usr/bin/app".to_vec());
}

#[test]
fn debuglink_is_cut_at_the_first_nul() {
    let mut builder = MetadataBuilder::new();
    builder.apply_binary_info(1, b"/lib/libc.so".to_vec(), b"libc.dbg\0\0junk");
    let binary = &builder.metadata.binaries[0];
    assert_eq!(binary.path, b"/lib/libc.so".to_vec());
    assert_eq!(binary.debuglink.as_ref().unwrap(), &b"libc.dbg".to_vec());
    assert_eq!(binary.build_id, None);
}

#[test]
fn an_empty_debuglink_means_none() {
    let mut builder = MetadataBuilder::new();
    builder.apply_binary_info(1, b"/bin/app".to_vec(), b"\0whatever");
    assert_eq!(builder.metadata.binaries[0].debuglink, None);
    builder.apply_binary_info(2, b"/bin/other".to_vec(), b"");
    assert_eq!(builder.metadata.binaries[1].debuglink, None);
}

#[test]
fn build_ids_render_as_lowercase_hex_on_the_right_binary() {
    let mut builder = MetadataBuilder::new();
    builder.apply_binary_info(10, b"/bin/a".to_vec(), b"");
    builder.apply_binary_info(20, b"/bin/b".to_vec(), b"");
    builder.apply_build_id(20, &[0xDE, 0xAD, 0x0B, 0x01]);
    assert_eq!(builder.metadata.binaries[0].build_id, None);
    assert_eq!(
        builder.metadata.binaries[1].build_id.as_ref().unwrap(),
        &b"dead0b01".to_vec()
    );
}

#[test]
fn a_build_id_for_an_unknown_binary_is_ignored() {
    let mut builder = MetadataBuilder::new();
    builder.apply_binary_info(10, b"/bin/a".to_vec(), b"");
    builder.apply_build_id(99, &[0x12]);
    assert_eq!(builder.metadata.binaries[0].build_id, None);
}

#[test]
fn a_repeated_binary_id_gets_the_build_id_on_the_latest_entry() {
    let mut builder = MetadataBuilder::new();
    builder.apply_binary_info(10, b"/bin/old".to_vec(), b"");
    builder.apply_binary_info(10, b"/bin/new".to_vec(), b"");
    builder.apply_build_id(10, &[0xAB]);
    assert_eq!(builder.metadata.binaries[0].build_id, None);
    assert_eq!(builder.metadata.binaries[1].build_id.as_ref().unwrap(), &b"ab".to_vec());
}
