use der::Encode;
use pkm::cli::TlsAddArgs;
use pkm::error::AppError;
use pkm::hsm::AsymAlgorithm;
use pkm::pki::{
    build_leaf_cert, build_root_ca, build_subordinate_ca, check_csr, check_hsm_public_key_algorithm,
    clamp_validity, key_identifier_from_spki, subordinate_validity,
    name_from_cn_ou, random_serial, serial_from_random, signature_algorithm_identifier,
    signature_name, validity_from_now_days, validity_window, ExtensionPlan, HostName,
};
use p256::ecdsa::signature::Signer;
use std::str::FromStr;

fn hex(s: &str) -> Vec<u8> {
    (0..s.len()).step_by(2).map(|i| u8::from_str_radix(&s[i..i + 2], 16).unwrap()).collect()
}

fn args(client: bool, server: bool, hosts: &[&str]) -> TlsAddArgs {
    TlsAddArgs {
        name: "server1".to_string(),
        client,
        server,
        hosts: hosts.iter().map(|h| h.to_string()).collect(),
    }
}

#[test]
fn subject_names_encode_as_rfc4514_says() {
    let der = name_from_cn_ou("HomeLab Root CA", "HomeLab").unwrap();
    let expected = x509_cert::name::RdnSequence::from_str("CN=HomeLab Root CA,OU=HomeLab")
        .unwrap()
        .to_der()
        .unwrap();
    assert_eq!(der, expected);
}

#[test]
fn subject_names_keep_special_characters() {
    let der = name_from_cn_ou("a,b+c", "#x\\y").unwrap();
    let expected = x509_cert::name::RdnSequence::from_str("CN=a\\2Cb\\2Bc,OU=\\23x\\5Cy")
        .unwrap()
        .to_der()
        .unwrap();
    assert_eq!(der, expected);
    let name = <x509_cert::name::RdnSequence as der::Decode>::from_der(&der).unwrap();
    assert_eq!(name.0.len(), 2);
    assert!(name.0.iter().all(|rdn| rdn.0.len() == 1));
    let same = x509_cert::name::RdnSequence::from_str("CN=a\\,b\\+c,OU=\\#x\\\\y").unwrap().to_der().unwrap();
    assert_eq!(der, same);
}

#[test]
fn validity_windows() {
    assert_eq!(validity_window(1_000_000, 365, false).unwrap(), (1_000_000, 1_000_000 + 365 * 86400));
    assert_eq!(validity_window(1_000_000, 3650, true).unwrap(), (1_000_000 - 300, 1_000_000 + 3650 * 86400));
    assert_eq!(validity_window(300, 0, true).unwrap(), (0, 300));
    assert_eq!(
        validity_window(299, 1, true).unwrap_err(),
        AppError::X509("system time is before the Unix epoch".to_string())
    );
    assert_eq!(validity_window(299, 1, false).unwrap(), (299, 299 + 86400));
    assert_eq!(
        validity_window(u64::MAX - 86399, 1, false).unwrap_err(),
        AppError::X509("certificate validity is out of range".to_string())
    );
    assert_eq!(validity_window(u64::MAX - 86400, 1, false).unwrap(), (u64::MAX - 86400, u64::MAX));
    let (nb, na) = validity_from_now_days(3650, true).unwrap();
    assert_eq!(na - nb, 3650 * 86400 + 300);
    let (nb, na) = validity_from_now_days(365, false).unwrap();
    assert_eq!(na - nb, 365 * 86400);
}

#[test]
fn serials_are_never_zero() {
    assert_eq!(serial_from_random(vec![0; 16]), {
        let mut v = vec![0u8; 16];
        v[15] = 1;
        v
    });
    let mixed: Vec<u8> = (0..16).collect();
    assert_eq!(serial_from_random(mixed.clone()), mixed);
    for _ in 0..20 {
        let s = random_serial();
        assert_eq!(s.len(), 16);
        assert!(s.iter().any(|b| *b != 0));
    }
}

#[test]
fn signature_algorithms() {
    assert_eq!(signature_algorithm_identifier(AsymAlgorithm::EcP256).unwrap(), "1.2.840.10045.4.3.2");
    assert_eq!(signature_algorithm_identifier(AsymAlgorithm::EcP384).unwrap(), "1.2.840.10045.4.3.3");
    assert_eq!(
        signature_algorithm_identifier(AsymAlgorithm::Ed25519).unwrap_err(),
        AppError::Usage("unsupported CA key algorithm for signing".to_string())
    );
    assert_eq!(signature_name(AsymAlgorithm::EcP256), "ecdsa-p256-sha256");
    assert_eq!(signature_name(AsymAlgorithm::EcP384), "ecdsa-p384-sha384");
    assert_eq!(signature_name(AsymAlgorithm::Rsa2048), "unknown");
    assert!(check_hsm_public_key_algorithm(AsymAlgorithm::EcP256).is_ok());
    assert_eq!(
        check_hsm_public_key_algorithm(AsymAlgorithm::EcP384).unwrap_err(),
        AppError::Usage("unsupported HSM public key algorithm".to_string())
    );
}

#[test]
fn key_identifiers_are_sha1() {
    assert_eq!(key_identifier_from_spki(b"abc"), hex("a9993e364706816aba3e25717850c26c9cd0d89d"));
}

#[test]
fn root_ca_profile() {
    let subject = name_from_cn_ou("Root", "Lab").unwrap();
    let p = build_root_ca(subject.clone(), vec![1, 2], (10, 20), b"abc", "1.2.840.10045.4.3.2".to_string());
    assert_eq!(p.issuer, subject);
    assert_eq!(p.subject, subject);
    assert_eq!((p.not_before, p.not_after), (10, 20));
    assert_eq!(p.serial, vec![1, 2]);
    let kid = hex("a9993e364706816aba3e25717850c26c9cd0d89d");
    assert_eq!(p.extensions.len(), 4);
    assert!(matches!(p.extensions[0], ExtensionPlan::BasicConstraints { ca: true, path_len: None }));
    assert!(matches!(
        p.extensions[1],
        ExtensionPlan::KeyUsage { digital_signature: false, key_cert_sign: true, crl_sign: true }
    ));
    assert!(matches!(&p.extensions[2], ExtensionPlan::SubjectKeyIdentifier(k) if *k == kid));
    assert!(matches!(&p.extensions[3], ExtensionPlan::AuthorityKeyIdentifier(k) if *k == kid));
}

#[test]
fn leaf_needs_a_use() {
    let e = build_leaf_cert(vec![1], vec![2], vec![3], (0, 1), b"a", b"b", "oid".to_string(), &args(false, false, &[]), &Vec::new());
    assert_eq!(e.unwrap_err(), AppError::Usage("at least one of --client or --server is required".to_string()));
}

#[test]
fn leaf_profile() {
    let a = args(true, true, &["my-server.com", "10.0.0.10"]);
    let addrs = vec![None, Some(vec![10, 0, 0, 10])];
    let p = build_leaf_cert(vec![1], vec![2], vec![3], (5, 6), b"abc", b"xyz", "1.2.840.10045.4.3.2".to_string(), &a, &addrs).unwrap();
    assert_eq!((p.subject.clone(), p.issuer.clone()), (vec![1], vec![2]));
    assert_eq!(p.extensions.len(), 6);
    assert!(matches!(p.extensions[0], ExtensionPlan::BasicConstraints { ca: false, path_len: None }));
    assert!(matches!(
        p.extensions[1],
        ExtensionPlan::KeyUsage { digital_signature: true, key_cert_sign: false, crl_sign: false }
    ));
    match &p.extensions[2] {
        ExtensionPlan::ExtendedKeyUsage(oids) => assert_eq!(oids, &vec!["1.3.6.1.5.5.7.3.2".to_string(), "1.3.6.1.5.5.7.3.1".to_string()]),
        other => panic!("unexpected {:?}", other),
    }
    match &p.extensions[3] {
        ExtensionPlan::SubjectAltName(names) => {
            assert!(matches!(&names[0], HostName::Dns(h) if h == "my-server.com"));
            assert!(matches!(&names[1], HostName::Ip(b) if *b == vec![10, 0, 0, 10]));
        }
        other => panic!("unexpected {:?}", other),
    }
    assert!(matches!(&p.extensions[4], ExtensionPlan::SubjectKeyIdentifier(k) if *k == hex("a9993e364706816aba3e25717850c26c9cd0d89d")));
    assert!(matches!(&p.extensions[5], ExtensionPlan::AuthorityKeyIdentifier(k) if k.len() == 20));
}

#[test]
fn leaf_without_hosts_has_no_san() {
    let p = build_leaf_cert(vec![1], vec![2], vec![3], (5, 6), b"abc", b"xyz", "o".to_string(), &args(false, true, &[]), &Vec::new()).unwrap();
    assert_eq!(p.extensions.len(), 5);
    match &p.extensions[2] {
        ExtensionPlan::ExtendedKeyUsage(oids) => assert_eq!(oids, &vec!["1.3.6.1.5.5.7.3.1".to_string()]),
        other => panic!("unexpected {:?}", other),
    }
    assert!(matches!(p.extensions[3], ExtensionPlan::SubjectKeyIdentifier(_)));
}

#[test]
fn non_ascii_dns_host_is_rejected() {
    let a = args(true, false, &["bücher.example"]);
    let e = build_leaf_cert(vec![1], vec![2], vec![3], (5, 6), b"abc", b"xyz", "o".to_string(), &a, &vec![None]);
    assert!(matches!(e, Err(AppError::X509(_))));
}

fn signed(message: &[u8]) -> (Vec<u8>, Vec<u8>) {
    let key = p256::ecdsa::SigningKey::from_slice(&[7u8; 32]).unwrap();
    let sig: p256::ecdsa::Signature = key.sign(message);
    let point = key.verifying_key().to_encoded_point(false).as_bytes().to_vec();
    (point, sig.to_der().as_bytes().to_vec())
}

#[test]
fn csr_acceptance() {
    let p256 = Some("1.2.840.10045.3.1.7".to_string());
    let (key, sig) = signed(b"request info");
    assert!(check_csr("1.2.840.10045.2.1", &p256, "1.2.840.10045.4.3.2", &key, b"request info", &sig).is_ok());
    assert_eq!(
        check_csr("1.2.840.10045.2.1", &p256, "1.2.840.10045.4.3.2", &key, b"tampered info", &sig).unwrap_err(),
        AppError::Usage("CSR signature does not verify".to_string())
    );
    assert_eq!(
        check_csr("1.2.840.10045.2.1", &p256, "1.2.840.10045.4.3.2", &key, b"request info", b"\x30\x00").unwrap_err(),
        AppError::Usage("CSR signature does not verify".to_string())
    );
    let unsupported = AppError::Usage("only ECDSA P-256 / SHA-256 CSRs are accepted".to_string());
    let p384 = Some("1.3.132.0.34".to_string());
    assert_eq!(check_csr("1.2.840.10045.2.1", &p384, "1.2.840.10045.4.3.2", &key, b"request info", &sig).unwrap_err(), unsupported);
    assert_eq!(check_csr("1.2.840.10045.2.1", &None, "1.2.840.10045.4.3.2", &key, b"request info", &sig).unwrap_err(), unsupported);
    assert_eq!(check_csr("1.2.840.113549.1.1.1", &None, "1.2.840.113549.1.1.11", b"", b"", b"").unwrap_err(), unsupported);
    assert_eq!(check_csr("1.2.840.10045.2.1", &p256, "1.2.840.10045.4.3.3", &key, b"request info", &sig).unwrap_err(), unsupported);
}

#[test]
fn subordinate_validity_is_clamped() {
    assert_eq!(clamp_validity(1000, 1, 1_000_000).unwrap(), (1000, 1000 + 86400));
    assert_eq!(clamp_validity(1000, 3650, 50_000).unwrap(), (1000, 50_000));
    assert_eq!(clamp_validity(1000, 0, 50_000).unwrap(), (1000, 1000));
    let expired = AppError::Usage("the issuing CA certificate has expired".to_string());
    assert_eq!(clamp_validity(1000, 10, 1000).unwrap_err(), expired);
    assert_eq!(clamp_validity(1000, 10, -5).unwrap_err(), expired);
    assert_eq!(subordinate_validity(10, 0).unwrap_err(), expired);
    let (nb, na) = subordinate_validity(3650, i64::MAX).unwrap();
    assert_eq!(na - nb, 3650 * 86400);
}

#[test]
fn subordinate_ca_profile() {
    let p = build_subordinate_ca(vec![1], vec![2], vec![3], (5, 6), b"abc", b"xyz", "o".to_string(), 0);
    assert_eq!((p.subject.clone(), p.issuer.clone()), (vec![1], vec![2]));
    assert_eq!(p.extensions.len(), 4);
    assert!(matches!(p.extensions[0], ExtensionPlan::BasicConstraints { ca: true, path_len: Some(0) }));
    assert!(matches!(
        p.extensions[1],
        ExtensionPlan::KeyUsage { digital_signature: false, key_cert_sign: true, crl_sign: true }
    ));
    assert!(matches!(&p.extensions[2], ExtensionPlan::SubjectKeyIdentifier(k) if *k == hex("a9993e364706816aba3e25717850c26c9cd0d89d")));
    assert!(matches!(&p.extensions[3], ExtensionPlan::AuthorityKeyIdentifier(k) if k.len() == 20 && *k != hex("a9993e364706816aba3e25717850c26c9cd0d89d")));
}
