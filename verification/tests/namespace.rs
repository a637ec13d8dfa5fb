use nvme::namespace::{capacity_from_parts, NvmeNameSpace};
use nvme::resolve::{get_blk_path, is_ns_entry_name, parse_nsid_content};
use nvme::{NvmeController, StubHost};

fn buf4096() -> Vec<u8> {
    vec![0u8; 4096]
}

fn put(buf: &mut [u8], off: usize, bytes: &[u8]) {
    buf[off..off + bytes.len()].copy_from_slice(bytes);
}

/// A controller record with the given raw version field and namespace count.
fn ctrl_with(ver: [u8; 4], nn: u32) -> NvmeController {
    let mut buf = buf4096();
    put(&mut buf, 80, &ver);
    put(&mut buf, 516, &nn.to_le_bytes());
    NvmeController::from_id_data("/dev/nvme0", buf).unwrap()
}

/// An active-namespace-list page carrying the given ids.
fn ns_list_page(ids: &[u32]) -> Vec<u8> {
    let mut page = buf4096();
    for (k, id) in ids.iter().enumerate() {
        put(&mut page, 4 * k, &id.to_le_bytes());
    }
    page
}

#[test]
fn pre_1_1_ids_are_one_to_nn() {
    let ctrl = ctrl_with([0, 0, 0, 0], 4);
    let mut stub = StubHost::empty();
    let ids = NvmeNameSpace::nsid_list_get(&mut stub, "/dev/nvme0", &ctrl).unwrap();
    assert_eq!(ids, vec![1, 2, 3, 4]);
}

#[test]
fn pre_1_1_zero_count_is_empty() {
    let ctrl = ctrl_with([0, 0, 0, 0], 0);
    let mut stub = StubHost::empty();
    let ids = NvmeNameSpace::nsid_list_get(&mut stub, "/dev/nvme0", &ctrl).unwrap();
    assert!(ids.is_empty());
}

#[test]
fn listed_ids_come_from_the_device_pages() {
    let ctrl = ctrl_with([0, 1, 1, 0], 3); // version 1.1.0
    let mut stub = StubHost::empty();
    stub.ns_list_pages = vec![ns_list_page(&[1, 5, 7])];
    let ids = NvmeNameSpace::nsid_list_get(&mut stub, "/dev/nvme0", &ctrl).unwrap();
    assert_eq!(ids, vec![1, 5, 7]);
}

#[test]
fn listing_pages_until_the_declared_count() {
    let ctrl = ctrl_with([0, 1, 1, 0], 4);
    let mut stub = StubHost::empty();
    stub.ns_list_pages = vec![ns_list_page(&[1, 2]), ns_list_page(&[3, 4])];
    let ids = NvmeNameSpace::nsid_list_get(&mut stub, "/dev/nvme0", &ctrl).unwrap();
    assert_eq!(ids, vec![1, 2, 3, 4]);
    // both pages were consumed
    assert_eq!(stub.page_idx, 2);
}

#[test]
fn namespaces_get_uses_the_listed_ids() {
    let ctrl = ctrl_with([0, 1, 1, 0], 2);
    let mut stub = StubHost::empty();
    stub.ns_list_pages = vec![ns_list_page(&[2, 9])];
    stub.ns_data = Some(buf4096());
    let nss = ctrl.namespaces_get(&mut stub).unwrap();
    assert_eq!(nss.len(), 2);
    assert_eq!(nss[0].nsid_get(), 2);
    assert_eq!(nss[1].nsid_get(), 9);
}

#[test]
fn listing_stops_when_a_page_yields_nothing_new() {
    let ctrl = ctrl_with([0, 1, 1, 0], 5);
    let mut stub = StubHost::empty();
    stub.ns_list_pages = vec![ns_list_page(&[1, 2]), ns_list_page(&[])];
    let ids = NvmeNameSpace::nsid_list_get(&mut stub, "/dev/nvme0", &ctrl).unwrap();
    assert_eq!(ids, vec![1, 2]);
}

#[test]
fn listing_drops_non_advancing_ids() {
    let ctrl = ctrl_with([0, 1, 1, 0], 4);
    let mut stub = StubHost::empty();
    stub.ns_list_pages = vec![ns_list_page(&[3, 3, 4]), ns_list_page(&[4])];
    let ids = NvmeNameSpace::nsid_list_get(&mut stub, "/dev/nvme0", &ctrl).unwrap();
    assert_eq!(ids, vec![3, 4]);
}

#[test]
fn listing_propagates_gateway_error() {
    let ctrl = ctrl_with([0, 1, 1, 0], 2);
    let mut stub = StubHost::empty(); // no pages scripted
    assert!(NvmeNameSpace::nsid_list_get(&mut stub, "/dev/nvme0", &ctrl).is_err());
}

#[test]
fn capacity_out_of_range_slot_is_zero() {
    assert_eq!(capacity_from_parts(16, 1000, 9), 0);
    assert_eq!(capacity_from_parts(255, 1000, 9), 0);
}

#[test]
fn capacity_is_blocks_times_block_size() {
    assert_eq!(capacity_from_parts(0, 1000, 9), 512000);
    assert_eq!(capacity_from_parts(15, 8, 12), 32768);
    assert_eq!(capacity_from_parts(0, 0, 9), 0);
}

#[test]
fn capacity_saturates() {
    assert_eq!(capacity_from_parts(0, u64::MAX, 1), u64::MAX);
    assert_eq!(capacity_from_parts(0, 1, 64), u64::MAX);
    assert_eq!(capacity_from_parts(0, 0, 64), 0);
}

#[test]
fn namespace_size_from_record() {
    let mut ns_buf = buf4096();
    put(&mut ns_buf, 0, &1000u64.to_le_bytes()); // nsze
    ns_buf[26] = 0; // flbas: slot 0
    ns_buf[130] = 9; // lbads of slot 0: 512-byte blocks
    let ns = NvmeNameSpace::from_id_data("/dev/nvme0", 1, ns_buf, String::new());
    assert_eq!(ns.size_get(), 512000);
}

#[test]
fn namespace_size_uses_selected_slot() {
    let mut ns_buf = buf4096();
    put(&mut ns_buf, 0, &8u64.to_le_bytes());
    ns_buf[26] = 0xf2; // slot 2 in the low four bits
    ns_buf[130 + 4 * 2] = 12;
    let ns = NvmeNameSpace::from_id_data("/dev/nvme0", 1, ns_buf, String::new());
    assert_eq!(ns.size_get(), 32768);
}

#[test]
fn namespace_identifier_strings() {
    let mut ns_buf = buf4096();
    put(&mut ns_buf, 120, &[0xde, 0xad, 0, 0, 0, 0, 0, 1]); // eui64
    // nguid at 104..120 stays all zero: suppressed
    let ns = NvmeNameSpace::from_id_data("/dev/nvme0", 3, ns_buf, String::new());
    assert_eq!(ns.eui64_get(), "dead000000000001");
    assert_eq!(ns.nguid_get(), "");
    assert_eq!(ns.nsid_get(), 3);
    assert_eq!(ns.ctrl_blk_path_get(), "/dev/nvme0");
    assert_eq!(ns.blk_path_get(), "");
}

#[test]
fn namespaces_get_builds_one_entity_per_id() {
    let ctrl = ctrl_with([0, 0, 0, 0], 2);
    let mut stub = StubHost::empty();
    stub.ns_data = Some(buf4096());
    stub.nsid_attr = None;
    let nss = ctrl.namespaces_get(&mut stub).unwrap();
    assert_eq!(nss.len(), 2);
    assert_eq!(nss[0].nsid_get(), 1);
    assert_eq!(nss[1].nsid_get(), 2);
    assert_eq!(nss[0].ctrl_blk_path_get(), "/dev/nvme0");
    // resolution failed, so the path stays empty and is not an error
    assert_eq!(nss[0].blk_path_get(), "");
}

#[test]
fn namespaces_get_resolves_paths() {
    let ctrl = ctrl_with([0, 0, 0, 0], 1);
    let mut stub = StubHost::empty();
    stub.ns_data = Some(buf4096());
    stub.nsid_attr = Some("1\n".to_string());
    let nss = ctrl.namespaces_get(&mut stub).unwrap();
    assert_eq!(nss.len(), 1);
    assert_eq!(nss[0].blk_path_get(), "/dev/nvme0n1");
}

#[test]
fn resolution_fast_path_confirms_conventional_name() {
    let mut stub = StubHost::empty();
    stub.nsid_attr = Some("2\n".to_string());
    let p = get_blk_path(&mut stub, "/dev/nvme7", 2).unwrap();
    assert_eq!(p, "/dev/nvme7n2");
}

#[test]
fn resolution_falls_back_to_directory_scan() {
    let mut stub = StubHost::empty();
    // The conventional candidate nvme0n3 is absent; only nvme0n5 exists
    // and its id attribute reads 3.
    stub.nsid_attr = Some("3\n".to_string());
    stub.ns_entries = Some(vec![
        "power".to_string(),
        "nvme0n5".to_string(),
    ]);
    let p = get_blk_path(&mut stub, "/dev/nvme0", 3).unwrap();
    assert_eq!(p, "/dev/nvme0n5");
}

#[test]
fn resolution_fails_without_confirmation() {
    let mut stub = StubHost::empty();
    assert!(get_blk_path(&mut stub, "/dev/nvme0", 1).is_none());
    let mut stub = StubHost::empty();
    stub.nsid_attr = Some("9\n".to_string());
    stub.ns_entries = Some(vec![]);
    assert!(get_blk_path(&mut stub, "/dev/nvme0", 1).is_none());
}

#[test]
fn resolution_rejects_foreign_paths() {
    let mut stub = StubHost::empty();
    stub.nsid_attr = Some("1\n".to_string());
    assert!(get_blk_path(&mut stub, "/dev/sda", 1).is_none());
    assert!(get_blk_path(&mut stub, "nvme0", 1).is_none());
}

#[test]
fn ns_entry_name_pattern() {
    assert!(is_ns_entry_name("nvme0n1"));
    assert!(is_ns_entry_name("nvme12n34"));
    assert!(!is_ns_entry_name("nvme0"));
    assert!(!is_ns_entry_name("nvme0n"));
    assert!(!is_ns_entry_name("nvmen1"));
    assert!(!is_ns_entry_name("xnvme0n1"));
    assert!(!is_ns_entry_name("nvme0n1p1"));
    assert!(!is_ns_entry_name(""));
}

#[test]
fn nsid_attribute_parsing() {
    assert_eq!(parse_nsid_content("123\n"), 123);
    assert_eq!(parse_nsid_content("123"), 123);
    assert_eq!(parse_nsid_content("1"), 1);
    assert_eq!(parse_nsid_content(""), 0);
    assert_eq!(parse_nsid_content("\n"), 0);
    assert_eq!(parse_nsid_content("12a\n"), 0);
    assert_eq!(parse_nsid_content("-3\n"), 0);
    assert_eq!(parse_nsid_content("99999999999\n"), 0);
    assert_eq!(parse_nsid_content("4294967295\n"), u32::MAX);
    assert_eq!(parse_nsid_content("4294967296\n"), 0);
}

#[test]
fn namespace_new_propagates_gateway_error() {
    let mut stub = StubHost::empty();
    assert!(NvmeNameSpace::new(&mut stub, "/dev/nvme0", 1).is_err());
}
