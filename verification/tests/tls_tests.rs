use const_oid::db::rfc5280::{ID_KP_CLIENT_AUTH, ID_KP_CODE_SIGNING, ID_KP_SERVER_AUTH};
use der::asn1::{Ia5String, OctetString};
use der::Encode;
use pkm::error::AppError;
use pkm::store::{CertExtension, CertSummary};
use pkm::tls::{
    comma_list_text, format_ip_address, format_tls_capabilities, format_tls_row, format_tls_sans,
    hex_encode, sort_tls_rows, tls_cert_name, tls_cert_path, tls_key_path, tls_row,
    tls_table_lines, SanText, TlsRow,
};
use x509_cert::ext::pkix::name::GeneralName;
use x509_cert::ext::pkix::{ExtendedKeyUsage, SubjectAltName};

fn eku_ext(oids: Vec<const_oid::ObjectIdentifier>) -> CertExtension {
    CertExtension { oid: "2.5.29.37".to_string(), value: ExtendedKeyUsage(oids).to_der().unwrap() }
}

fn san_ext(names: Vec<GeneralName>) -> CertExtension {
    CertExtension { oid: "2.5.29.17".to_string(), value: SubjectAltName(names).to_der().unwrap() }
}

fn summary(extensions: Vec<CertExtension>) -> CertSummary {
    CertSummary { subject: Vec::new(), not_after: 1_700_000_000, extensions, subject_der: Vec::new(), key_bits: Vec::new() }
}

fn text_of(t: &SanText) -> String {
    match t {
        SanText::Text(s) => s.clone(),
        SanText::Ipv6(b) => format!("v6:{}", hex_encode(b)),
    }
}

fn row(name: &str, caps: &str) -> TlsRow {
    TlsRow { name: name.to_string(), capabilities: caps.to_string(), sans: "-".to_string(), expires: "x".to_string() }
}

#[test]
fn leaf_file_paths() {
    assert_eq!(tls_key_path("/d/ca/home/tls", "server1"), "/d/ca/home/tls/server1.pem");
    assert_eq!(tls_cert_path("/d/ca/home/tls", "server1"), "/d/ca/home/tls/server1.crt");
}

#[test]
fn certificate_file_names() {
    let cases = ["a.crt", "a.pem", ".crt", "a.b.crt", "crt", "..crt", "a.CRT", "a.crt.bak", "x."];
    for f in cases {
        let p = std::path::Path::new(f);
        let expected = if p.extension().and_then(|e| e.to_str()) == Some("crt") {
            p.file_stem().and_then(|s| s.to_str()).map(|s| s.to_string())
        } else {
            None
        };
        assert_eq!(tls_cert_name(f), expected, "file {:?}", f);
    }
}

#[test]
fn issued_names_are_found_again() {
    for name in ["server1", "a.b", "web-01", "."] {
        let file = format!("{}.crt", name);
        assert_eq!(tls_cert_name(&file), Some(name.to_string()));
    }
}

#[test]
fn capabilities_from_extended_key_usage() {
    assert_eq!(format_tls_capabilities(&summary(Vec::new())).unwrap(), "-");
    let c = summary(vec![eku_ext(vec![ID_KP_SERVER_AUTH, ID_KP_CLIENT_AUTH, ID_KP_SERVER_AUTH])]);
    assert_eq!(format_tls_capabilities(&c).unwrap(), "server,client");
    let c = summary(vec![eku_ext(vec![ID_KP_CODE_SIGNING]), eku_ext(vec![ID_KP_CLIENT_AUTH])]);
    assert_eq!(format_tls_capabilities(&c).unwrap(), "1.3.6.1.5.5.7.3.3,client");
    let bad = summary(vec![CertExtension { oid: "2.5.29.37".to_string(), value: vec![0x30, 0x05, 0x01] }]);
    assert!(matches!(format_tls_capabilities(&bad), Err(AppError::X509(_))));
    let other = summary(vec![CertExtension { oid: "2.5.29.19".to_string(), value: vec![0xff] }]);
    assert_eq!(format_tls_capabilities(&other).unwrap(), "-");
}

#[test]
fn ip_address_rendering() {
    assert!(matches!(format_ip_address(&[10, 0, 0, 10]), SanText::Text(ref s) if s == "10.0.0.10"));
    assert!(matches!(format_ip_address(&[255, 1, 0, 99]), SanText::Text(ref s) if s == "255.1.0.99"));
    assert!(matches!(format_ip_address(&[10, 11]), SanText::Text(ref s) if s == "ip:0a0b"));
    assert!(matches!(format_ip_address(&[]), SanText::Text(ref s) if s == "ip:"));
    let v6 = [0x20, 0x01, 0x0d, 0xb8, 0, 0, 0, 0, 0, 0, 0, 0, 0, 0, 0, 1];
    assert!(matches!(format_ip_address(&v6), SanText::Ipv6(ref b) if b.as_slice() == v6));
    assert_eq!(hex_encode(&[0x00, 0xab, 0xff]), "00abff");
}

#[test]
fn sans_from_subject_alt_name() {
    let names = vec![
        GeneralName::DnsName(Ia5String::new("my-server.com").unwrap()),
        GeneralName::IpAddress(OctetString::new(vec![10, 0, 0, 10]).unwrap()),
        GeneralName::IpAddress(OctetString::new(vec![0, 0, 0, 0, 0, 0, 0, 0, 0, 0, 0, 0, 0, 0, 0, 1]).unwrap()),
        GeneralName::Rfc822Name(Ia5String::new("a@b.c").unwrap()),
    ];
    let entries = format_tls_sans(&summary(vec![san_ext(names)])).unwrap();
    let texts: Vec<String> = entries.iter().map(text_of).collect();
    assert_eq!(texts, vec!["my-server.com", "10.0.0.10", "v6:00000000000000000000000000000001"]);
    assert_eq!(comma_list_text(&texts[..2].to_vec()), "my-server.com,10.0.0.10");
    assert_eq!(comma_list_text(&Vec::new()), "-");
    let bad = summary(vec![CertExtension { oid: "2.5.29.17".to_string(), value: vec![0x04] }]);
    assert!(matches!(format_tls_sans(&bad), Err(AppError::X509(_))));
}

#[test]
fn listing_rows() {
    let c = summary(vec![
        eku_ext(vec![ID_KP_SERVER_AUTH]),
        san_ext(vec![GeneralName::DnsName(Ia5String::new("h.example").unwrap())]),
    ]);
    let parts = format_tls_row("server1".to_string(), &c).unwrap();
    assert_eq!(parts.expires, "2023-11-14T22:13:20Z");
    assert_eq!(parts.capabilities, "server");
    let rendered: Vec<String> = parts.sans.iter().map(text_of).collect();
    let r = tls_row(parts, &rendered);
    assert_eq!((r.name.as_str(), r.sans.as_str()), ("server1", "h.example"));
    let late = CertSummary { subject: Vec::new(), not_after: i64::MAX, extensions: Vec::new(), subject_der: Vec::new(), key_bits: Vec::new() };
    assert!(matches!(format_tls_row("x".to_string(), &late), Err(AppError::X509(_))));
}

#[test]
fn rows_sorted_by_name_stably() {
    let rows = vec![row("web", "1"), row("api", "2"), row("web", "3"), row("Api", "4")];
    let sorted = sort_tls_rows(rows);
    let got: Vec<(&str, &str)> = sorted.iter().map(|r| (r.name.as_str(), r.capabilities.as_str())).collect();
    assert_eq!(got, vec![("Api", "4"), ("api", "2"), ("web", "1"), ("web", "3")]);
}

#[test]
fn tls_table() {
    let rows = vec![TlsRow {
        name: "server1".to_string(),
        capabilities: "server".to_string(),
        sans: "my-server.com,10.0.0.10".to_string(),
        expires: "2026-01-01T00:00:00Z".to_string(),
    }];
    let lines = tls_table_lines(&rows);
    assert_eq!(lines[0], "Name     Capabilities  SANs                     Expires             ");
    assert_eq!(lines[1], "server1  server        my-server.com,10.0.0.10  2026-01-01T00:00:00Z");
}
