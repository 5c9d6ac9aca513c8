use pkm::config::{CaConfig, CaCryptoSection, CaHsmSection, CaSection};
use pkm::error::AppError;
use pkm::store::{
    ca_cert_path, ca_config_path, ca_dir, ca_table_lines, ca_tls_dir, find_attr_value,
    format_ca_entry, format_time, join_path, key_is_referenced, sort_ca_entries, CaEntry, CaRow,
    CertSummary, NameAttribute,
};

fn ca_config(key_id: u16) -> CaConfig {
    CaConfig {
        version: 1,
        ca: CaSection {
            short_name: "home".to_string(),
            common_name: "Home CA".to_string(),
            organizational_unit: "Lab".to_string(),
            validity_days: 3650,
        },
        hsm: CaHsmSection { key_id, key_label: Some("root".to_string()) },
        crypto: CaCryptoSection { signature: "ecdsa-p256-sha256".to_string() },
    }
}

fn attr(oid: &str, value: Option<&str>) -> NameAttribute {
    NameAttribute { oid: oid.to_string(), value: value.map(|v| v.to_string()) }
}

fn cert(subject: Vec<Vec<NameAttribute>>, not_after: i64) -> CertSummary {
    CertSummary { subject, not_after, extensions: Vec::new(), subject_der: Vec::new(), key_bits: Vec::new() }
}

fn entry(name: &str, config: Option<CaConfig>, cert: Option<CertSummary>) -> CaEntry {
    CaEntry { short_name: name.to_string(), config, cert }
}

#[test]
fn store_layout() {
    let dir = ca_dir("/home/u/.local/share/pkm", "home");
    assert_eq!(dir, "/home/u/.local/share/pkm/ca/home");
    assert_eq!(ca_tls_dir(&dir), "/home/u/.local/share/pkm/ca/home/tls");
    assert_eq!(ca_config_path(&dir), "/home/u/.local/share/pkm/ca/home/config.toml");
    assert_eq!(ca_cert_path(&dir), "/home/u/.local/share/pkm/ca/home/ca.crt");
}

#[test]
fn join_follows_path_join() {
    let cases = [("/a", "b"), ("/a/", "b"), ("", "b"), ("/a", "/b"), ("a/b", "c.txt"), ("/", "x")];
    for (base, part) in cases {
        let expected = std::path::Path::new(base).join(part);
        assert_eq!(join_path(base, part), expected.to_str().unwrap(), "{:?} + {:?}", base, part);
    }
}

#[test]
fn referenced_keys() {
    let entries = vec![
        entry("a", None, None),
        entry("b", Some(ca_config(10)), None),
        entry("c", Some(ca_config(20)), None),
    ];
    assert!(key_is_referenced(&entries, 20));
    assert!(key_is_referenced(&entries, 10));
    assert!(!key_is_referenced(&entries, 30));
    assert!(!key_is_referenced(&Vec::new(), 10));
}

#[test]
fn ca_entries_sorted_by_name() {
    let entries = vec![entry("zeta", None, None), entry("alpha", None, None), entry("Beta", None, None), entry("alp", None, None)];
    let sorted = sort_ca_entries(entries);
    let names: Vec<&str> = sorted.iter().map(|e| e.short_name.as_str()).collect();
    assert_eq!(names, vec!["Beta", "alp", "alpha", "zeta"]);
}

#[test]
fn attribute_lookup_takes_first_text_value() {
    let name = vec![
        vec![attr("2.5.4.11", None)],
        vec![attr("2.5.4.3", Some("First")), attr("2.5.4.11", Some("Unit"))],
        vec![attr("2.5.4.3", Some("Second"))],
    ];
    assert_eq!(find_attr_value(&name, "2.5.4.3"), Some("First".to_string()));
    assert_eq!(find_attr_value(&name, "2.5.4.11"), Some("Unit".to_string()));
    assert_eq!(find_attr_value(&name, "2.5.4.6"), None);
}

#[test]
fn times_in_rfc3339() {
    assert_eq!(format_time(0).unwrap(), "1970-01-01T00:00:00Z");
    assert_eq!(format_time(1_700_000_000).unwrap(), "2023-11-14T22:13:20Z");
    assert!(matches!(format_time(i64::MAX), Err(AppError::X509(_))));
}

#[test]
fn ca_rows() {
    let subject = vec![vec![attr("2.5.4.3", Some("Home CA"))], vec![attr("2.5.4.11", Some("Lab"))]];
    let row = format_ca_entry(entry("home", Some(ca_config(7)), Some(cert(subject, 0))), Some("home")).unwrap();
    assert_eq!(row.short_name, "home");
    assert_eq!(row.status, "ok");
    assert_eq!(row.key_id, "7 (root)");
    assert_eq!(row.common_name, "Home CA");
    assert_eq!(row.organizational_unit, "Lab");
    assert_eq!(row.expires, "1970-01-01T00:00:00Z");
    assert!(row.is_default);

    let row = format_ca_entry(entry("bare", None, None), Some("home")).unwrap();
    assert_eq!(row.status, "missing cert");
    assert_eq!((row.key_id.as_str(), row.common_name.as_str(), row.expires.as_str()), ("-", "-", "-"));
    assert!(!row.is_default);

    let row = format_ca_entry(entry("nocfg", None, Some(cert(Vec::new(), 0))), None).unwrap();
    assert_eq!(row.status, "broken");
    assert_eq!(row.common_name, "-");

    let row = format_ca_entry(entry("nocert", Some(ca_config(3)), None), None).unwrap();
    assert_eq!(row.status, "broken");
    assert_eq!(row.key_id, "3 (root)");

    let mut unlabelled = ca_config(4);
    unlabelled.hsm.key_label = None;
    let row = format_ca_entry(entry("plain", Some(unlabelled), Some(cert(Vec::new(), 0))), None).unwrap();
    assert_eq!(row.status, "ok");
    assert_eq!(row.key_id, "4");

    assert!(matches!(
        format_ca_entry(entry("bad", None, Some(cert(Vec::new(), i64::MAX))), None),
        Err(AppError::X509(_))
    ));
}

#[test]
fn ca_table() {
    let rows = vec![CaRow {
        short_name: "home".to_string(),
        expires: "2035-01-01T00:00:00Z".to_string(),
        common_name: "Home CA".to_string(),
        organizational_unit: "Lab".to_string(),
        key_id: "7".to_string(),
        is_default: true,
        status: "ok".to_string(),
    }];
    let lines = ca_table_lines(&rows);
    assert_eq!(lines.len(), 2);
    assert_eq!(lines[0], "CA    Default  Expires               CN       OU   Key  Status");
    assert_eq!(lines[1], "home  yes      2035-01-01T00:00:00Z  Home CA  Lab  7    ok    ");
}
