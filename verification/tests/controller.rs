use nvme::error::{classify_sys_error, ErrorKind, SysErrorClass};
use nvme::{NvmeAdminCmd, NvmeController, StubHost};

fn ctrl_buf() -> Vec<u8> {
    vec![0u8; 4096]
}

fn put(buf: &mut [u8], off: usize, bytes: &[u8]) {
    buf[off..off + bytes.len()].copy_from_slice(bytes);
}

fn stub_with_ctrl(buf: Vec<u8>) -> StubHost {
    let mut stub = StubHost::empty();
    stub.ctrl_data = Some(buf);
    stub
}

#[test]
fn open_decodes_trimmed_strings() {
    let mut buf = ctrl_buf();
    put(&mut buf, 4, b"SN123               ");
    put(&mut buf, 24, b"Model X");
    put(&mut buf, 64, b"FW1.0   ");
    put(&mut buf, 768, b"nqn.2014-08.org.example:test");
    let mut stub = stub_with_ctrl(buf);
    let c = NvmeController::from_path(&mut stub, "/dev/nvme0").unwrap();
    assert_eq!(c.sn_get(), "SN123");
    assert_eq!(c.mn_get(), "Model X");
    assert_eq!(c.fr_get(), "FW1.0");
    assert_eq!(c.subnqn_get(), "nqn.2014-08.org.example:test");
    assert_eq!(c.fguid_get(), "");
    assert_eq!(c.blk_path_get(), "/dev/nvme0");
}

#[test]
fn trimming_removes_only_trailing_padding() {
    let mut buf = ctrl_buf();
    put(&mut buf, 4, b"  AB \x00");
    let c = NvmeController::from_id_data("/dev/nvme0", buf).unwrap();
    assert_eq!(c.sn_get(), "  AB");
}

#[test]
fn text_fields_decode_as_utf8() {
    let mut buf = ctrl_buf();
    put(&mut buf, 4, b"caf\xc3\xa9");
    let c = NvmeController::from_id_data("/dev/nvme0", buf).unwrap();
    assert_eq!(c.sn_get(), "caf\u{e9}");
}

#[test]
fn invalid_utf8_is_corrupted_data() {
    let mut buf = ctrl_buf();
    buf[4] = 0xff;
    let e = NvmeController::from_id_data("/dev/nvme0", buf).unwrap_err();
    assert!(matches!(e.kind, ErrorKind::CorruptedData(_)));
    assert_eq!(e.description(), "Corrupted data from NVMe controller");
}

#[test]
fn version_string_defaults_to_one_zero_zero() {
    let buf = ctrl_buf();
    let c = NvmeController::from_id_data("/dev/nvme0", buf).unwrap();
    assert_eq!(c.ver_str_get(), "1.0.0");
    assert_eq!(c.ver_get(), 0);
}

#[test]
fn version_string_from_parts() {
    let mut buf = ctrl_buf();
    // tertiary, minor, then the two-byte little-endian major
    put(&mut buf, 80, &[3, 2, 1, 0]);
    let c = NvmeController::from_id_data("/dev/nvme0", buf).unwrap();
    assert_eq!(c.ver_str_get(), "1.2.3");
    assert_eq!(c.ver_get(), NvmeController::ver_gen(1, 2, 3));
}

#[test]
fn ver_gen_combines_parts() {
    assert_eq!(NvmeController::ver_gen(1, 1, 0), 0x10100);
    assert_eq!(NvmeController::ver_gen(1, 2, 3), 0x10203);
    assert_eq!(NvmeController::ver_gen(0, 0, 0), 0);
}

#[test]
fn numeric_getters_read_fixed_offsets() {
    let mut buf = ctrl_buf();
    put(&mut buf, 0, &[0x34, 0x12]); // vid
    put(&mut buf, 2, &[0x78, 0x56]); // ssvid
    buf[72] = 7; // rab
    put(&mut buf, 73, &[0x56, 0x34, 0x12]); // ieee
    put(&mut buf, 78, &[0x01, 0x00]); // cntlid
    put(&mut buf, 84, &[1, 0, 0, 0]); // rtd3r
    put(&mut buf, 88, &[2, 0, 0, 0]); // rtd3e
    put(&mut buf, 516, &[5, 0, 0, 0]); // nn
    buf[512] = 0x66; // sqes
    buf[513] = 0x44; // cqes
    put(&mut buf, 266, &[0x57, 0x01]); // wctemp
    let c = NvmeController::from_id_data("/dev/nvme0", buf).unwrap();
    assert_eq!(c.vid_get(), 0x1234);
    assert_eq!(c.ssvid_get(), 0x5678);
    assert_eq!(c.rab_get(), 7);
    assert_eq!(c.ieee_get(), 0x123456);
    assert_eq!(c.cntlid_get(), 1);
    assert_eq!(c.rtd3r_get(), 1);
    assert_eq!(c.rtd3e_get(), 2);
    assert_eq!(c.nn_get(), 5);
    assert_eq!(c.sqes_get(), 0x66);
    assert_eq!(c.cqes_get(), 0x44);
    assert_eq!(c.wctemp_get(), 343);
}

#[test]
fn capacity_fields_return_raw_bytes() {
    let mut buf = ctrl_buf();
    put(&mut buf, 280, &[1; 16]);
    put(&mut buf, 296, &[2; 16]);
    let c = NvmeController::from_id_data("/dev/nvme0", buf).unwrap();
    assert_eq!(c.tnvmcap_get(), vec![1; 16]);
    assert_eq!(c.unvmcap_get(), vec![2; 16]);
}

#[test]
fn get_all_lists_present_controllers() {
    let mut stub = stub_with_ctrl(ctrl_buf());
    stub.ctrl_entries = Some(vec!["nvme0".to_string(), "nvme1".to_string()]);
    stub.dev_nodes_exist = true;
    let ctrls = NvmeController::get_all(&mut stub).unwrap();
    assert_eq!(ctrls.len(), 2);
    assert_eq!(ctrls[0].blk_path_get(), "/dev/nvme0");
    assert_eq!(ctrls[1].blk_path_get(), "/dev/nvme1");
}

#[test]
fn get_all_skips_missing_device_nodes() {
    let mut stub = stub_with_ctrl(ctrl_buf());
    stub.ctrl_entries = Some(vec!["nvme0".to_string()]);
    stub.dev_nodes_exist = false;
    let ctrls = NvmeController::get_all(&mut stub).unwrap();
    assert!(ctrls.is_empty());
}

#[test]
fn get_all_with_unreadable_tree_is_empty() {
    let mut stub = StubHost::empty();
    let ctrls = NvmeController::get_all(&mut stub).unwrap();
    assert!(ctrls.is_empty());
}

#[test]
fn open_propagates_gateway_error() {
    let mut stub = StubHost::empty();
    let e = NvmeController::from_path(&mut stub, "/dev/nvme0").unwrap_err();
    assert!(matches!(e.kind, ErrorKind::LibBug(_)));
}

#[test]
fn classify_maps_system_failures() {
    let e = classify_sys_error(SysErrorClass::NotFound, "gone".to_string());
    assert!(matches!(e.kind, ErrorKind::InvalidArgument(_)));
    assert_eq!(e.message(), "gone");
    assert_eq!(e.description(), "Invalid argument");
    let e = classify_sys_error(SysErrorClass::AccessDenied, "denied".to_string());
    assert!(matches!(e.kind, ErrorKind::PermissionDenied(_)));
    assert_eq!(e.description(), "Permission denied");
    let e = classify_sys_error(SysErrorClass::Other, "odd".to_string());
    assert!(matches!(e.kind, ErrorKind::LibBug(_)));
    assert_eq!(e.description(), "Library bug");
}

#[test]
fn admin_cmd_default_is_all_zero() {
    let cmd = NvmeAdminCmd::default();
    assert_eq!(cmd.opcode, 0);
    assert_eq!(cmd.nsid, 0);
    assert_eq!(cmd.addr, 0);
    assert_eq!(cmd.data_len, 0);
    assert_eq!(cmd.cdw10, 0);
    assert_eq!(cmd.timeout_ms, 0);
    assert_eq!(cmd.result, 0);
}
