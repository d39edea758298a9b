use random_mac::{ConvertError, DataSource, VendorRecord, VendorRegistry, convert};

fn rec(prefix: &str, vendor: &str, private: bool, block: &str) -> VendorRecord {
    VendorRecord::new(
        String::from(prefix),
        String::from(vendor),
        private,
        String::from(block),
    )
    .unwrap()
}

#[test]
fn snapshot_has_the_provider_shape() {
    let reg = VendorRegistry::new(
        String::from("db.json"),
        vec![rec("AA:BB:CC", "Acme", false, "MA-L")],
    );
    assert_eq!(
        reg.to_json(),
        "[{\"macPrefix\":\"AA:BB:CC\",\"vendorName\":\"Acme\",\"private\":false,\"blockType\":\"MA-L\"}]"
    );
}

#[test]
fn empty_snapshot_round_trips() {
    let reg = VendorRegistry::new(String::from("db.json"), Vec::new());
    let json = reg.to_json();
    assert_eq!(json, "[]");
    let back = VendorRegistry::from_json(String::from("db.json"), &json).unwrap();
    assert_eq!(back.len(), 0);
}

#[test]
fn snapshot_round_trips_records_in_order() {
    let reg = VendorRegistry::new(
        String::from("db.json"),
        vec![
            rec("AA:BB:CC", "Acme", false, "MA-L"),
            rec("00:11:22", "Beta Devices", true, "MA-M"),
            rec("FE:DC:BA", "Gamma \"Quoted\" \\ Name", false, "MA-S"),
        ],
    );
    let json = reg.to_json();
    let back = VendorRegistry::from_json(String::from("db.json"), &json).unwrap();
    assert_eq!(back.len(), 3);
    for i in 0..3 {
        let a = reg.record_at(i);
        let b = back.record_at(i);
        assert_eq!(a.prefix(), b.prefix());
        assert_eq!(a.vendor(), b.vendor());
        assert_eq!(a.is_private(), b.is_private());
        assert_eq!(a.block_type(), b.block_type());
    }
}

#[test]
fn parser_accepts_whitespace_between_tokens() {
    let json = " [ { \"macPrefix\" : \"AA:BB:CC\" ,\n \"vendorName\" : \"Acme\" ,\t \"private\" : true , \"blockType\" : \"MA-L\" } ] ";
    let reg = VendorRegistry::from_json(String::from("db.json"), json).unwrap();
    assert_eq!(reg.len(), 1);
    assert_eq!(reg.record_at(0).vendor(), "Acme");
    assert!(reg.record_at(0).is_private());
}

#[test]
fn parser_rejects_malformed_payloads() {
    for bad in [
        "",
        "[",
        "{}",
        "[{]",
        "[{\"macPrefix\":\"AA:BB:CC\"}]",
        "[{\"macPrefix\":\"AA:BB:CC\",\"vendorName\":\"Acme\",\"private\":maybe,\"blockType\":\"MA-L\"}]",
        "[{\"macPrefix\":\"AA:BB:CC\",\"vendorName\":\"Acme\",\"private\":false,\"blockType\":\"MA-L\"}] x",
    ] {
        assert!(
            VendorRegistry::from_json(String::from("db.json"), bad).is_none(),
            "accepted: {}",
            bad
        );
    }
}

#[test]
fn parser_rejects_records_with_malformed_prefix() {
    let json = "[{\"macPrefix\":\"AA:BB\",\"vendorName\":\"Acme\",\"private\":false,\"blockType\":\"MA-L\"}]";
    assert!(VendorRegistry::from_json(String::from("db.json"), json).is_none());
}

#[test]
fn convert_rejects_unknown_source_name() {
    let payload = String::from("[]");
    let result = convert(String::from("totallyUnknownSource"), payload);
    assert!(matches!(result, Err(ConvertError::UnknownSource)));
}

#[test]
fn convert_matches_source_name_case_insensitively() {
    let payload = "[{\"macPrefix\":\"AA:BB:CC\",\"vendorName\":\"Acme\",\"private\":false,\"blockType\":\"MA-L\"}]";
    let records = convert(String::from("MacLookupApp"), String::from(payload)).unwrap();
    assert_eq!(records.len(), 1);
    assert_eq!(records[0].vendor(), "Acme");
}

#[test]
fn convert_reports_malformed_payload() {
    let result = convert(String::from("maclookupapp"), String::from("not json"));
    assert!(matches!(result, Err(ConvertError::Conversion)));
}

#[test]
fn unknown_source_wins_over_malformed_payload() {
    let result = convert(String::from("elsewhere"), String::from("not json"));
    assert!(matches!(result, Err(ConvertError::UnknownSource)));
}

#[test]
fn datasource_config_round_trips() {
    let ds = DataSource::new(String::from("https://example.org/db"), String::from("maclookupapp"));
    let json = ds.to_json();
    assert_eq!(json, "{\"url\":\"https://example.org/db\",\"name\":\"maclookupapp\"}");
    let back = DataSource::from_json(&json).unwrap();
    assert_eq!(back.url(), "https://example.org/db");
    assert_eq!(back.name(), "maclookupapp");
}

#[test]
fn default_datasource_points_at_the_reference_database() {
    let ds = DataSource::default_source();
    assert_eq!(ds.url(), "https://maclookup.app/downloads/json-database/get-db");
    assert_eq!(ds.name(), "maclookupapp");
}

#[test]
fn datasource_config_rejects_malformed_text() {
    assert!(DataSource::from_json("").is_none());
    assert!(DataSource::from_json("{\"url\":\"x\"}").is_none());
    assert!(DataSource::from_json("{\"url\":\"x\",\"name\":\"y\"} trailing").is_none());
}
