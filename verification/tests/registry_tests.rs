use random_mac::{VendorRecord, VendorRegistry};

fn rec(prefix: &str, vendor: &str, private: bool, block: &str) -> VendorRecord {
    VendorRecord::new(
        String::from(prefix),
        String::from(vendor),
        private,
        String::from(block),
    )
    .unwrap()
}

fn registry(records: Vec<VendorRecord>) -> VendorRegistry {
    VendorRegistry::new(String::from("registry.json"), records)
}

#[test]
fn record_accessors_return_the_fields() {
    let r = rec("AA:BB:CC", "Acme", true, "MA-L");
    assert_eq!(r.prefix(), "AA:BB:CC");
    assert_eq!(r.vendor(), "Acme");
    assert!(r.is_private());
    assert_eq!(r.block_type(), "MA-L");
}

#[test]
fn record_rejects_malformed_prefix() {
    assert!(VendorRecord::new(String::from("AA:BB"), String::from("x"), false, String::new())
        .is_err());
    assert!(VendorRecord::new(String::from("AA:BB:CG"), String::from("x"), false, String::new())
        .is_err());
}

#[test]
fn prefix_lookup_scenario() {
    let reg = registry(vec![rec("AA:BB:CC", "Acme", false, "MA-L")]);
    let hit = reg.lookup_by_prefix("AA:BB:CC:11:22:33").unwrap();
    assert_eq!(hit.vendor(), "Acme");
    assert!(reg.lookup_by_prefix("11:22:33:44:55:66").is_none());
}

#[test]
fn prefix_lookup_returns_first_of_shared_prefix() {
    let reg = registry(vec![
        rec("AA:BB:CC", "First Corp", false, "MA-L"),
        rec("AA:BB:CC", "Second Corp", false, "MA-L"),
    ]);
    let hit = reg.lookup_by_prefix("AA:BB:CC:00:00:00").unwrap();
    assert_eq!(hit.vendor(), "First Corp");
}

#[test]
fn prefix_lookup_is_case_insensitive() {
    let reg = registry(vec![rec("AA:BB:CC", "Acme", false, "MA-L")]);
    assert!(reg.lookup_by_prefix("aa:bb:cc:dd:ee:ff").is_some());
}

#[test]
fn prefix_lookup_skips_non_matching_records() {
    let reg = registry(vec![
        rec("11:22:33", "Other", false, "MA-L"),
        rec("AA:BB:CC", "Acme", false, "MA-L"),
    ]);
    let hit = reg.lookup_by_prefix("AA:BB:CC:01:02:03").unwrap();
    assert_eq!(hit.vendor(), "Acme");
}

#[test]
fn vendor_lookup_matches_substring_case_insensitively() {
    let reg = registry(vec![rec("AA:BB:CC", "Example Corp", false, "MA-L")]);
    let hit = reg.lookup_by_vendor("example").unwrap();
    assert_eq!(hit.prefix(), "AA:BB:CC");
    assert!(reg.lookup_by_vendor("AMPLE C").is_some());
    assert!(reg.lookup_by_vendor("nonesuch").is_none());
}

#[test]
fn vendor_lookup_returns_first_match_in_order() {
    let reg = registry(vec![
        rec("11:22:33", "Acme East", false, "MA-L"),
        rec("AA:BB:CC", "Acme West", false, "MA-L"),
    ]);
    let hit = reg.lookup_by_vendor("acme").unwrap();
    assert_eq!(hit.vendor(), "Acme East");
}

#[test]
fn record_derives_address_under_its_prefix() {
    let r = rec("AA:BB:CC", "Acme", false, "MA-L");
    let addr = r.random_from_prefix();
    assert!(addr.starts_with("AA:BB:CC:"));
    assert_eq!(addr.len(), "AA:BB:CC".len() + 9);
}

#[test]
fn registry_reports_its_shape() {
    let reg = registry(vec![rec("AA:BB:CC", "Acme", false, "MA-L")]);
    assert_eq!(reg.len(), 1);
    assert_eq!(reg.storage_path(), "registry.json");
    assert_eq!(reg.record_at(0).vendor(), "Acme");
}
