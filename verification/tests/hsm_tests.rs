use pkm::error::AppError;
use pkm::hsm::{
    algorithm_display, algorithm_name, capabilities_display, capabilities_display_limited,
    capabilities_for_algorithm, capabilities_list, find_wrap_key_by_label, key_info_from_object,
    key_selector, keys_table_lines, list_asymmetric_keys, list_keys, object_type_name,
    parse_algorithm, select_key_by_label, AsymAlgorithm, AuthAlgorithm, HmacAlgorithm,
    HsmAlgorithm, KeyInfo, KeySelector, ObjectInfo, ObjectType, OtpAlgorithm, WrapAlgorithm,
    TLS_WRAP_KEY_LABEL,
};
use yubihsm::Capability;

fn info(id: u16, label: &str, object_type: ObjectType, algorithm: HsmAlgorithm) -> ObjectInfo {
    ObjectInfo { object_id: id, label: label.to_string(), object_type, algorithm, capabilities: 0 }
}

fn key(id: u16, label: &str, algorithm: AsymAlgorithm) -> KeyInfo {
    KeyInfo { id, label: label.to_string(), algorithm }
}

#[test]
fn parse_algorithm_names() {
    assert_eq!(parse_algorithm("ecp256").unwrap(), AsymAlgorithm::EcP256);
    assert_eq!(parse_algorithm("ecp384").unwrap(), AsymAlgorithm::EcP384);
    assert_eq!(parse_algorithm("rsa2048").unwrap(), AsymAlgorithm::Rsa2048);
    assert_eq!(parse_algorithm("rsa3072").unwrap(), AsymAlgorithm::Rsa3072);
    assert_eq!(parse_algorithm("rsa4096").unwrap(), AsymAlgorithm::Rsa4096);
    assert_eq!(parse_algorithm("ed25519").unwrap(), AsymAlgorithm::Ed25519);
    assert_eq!(
        parse_algorithm("ECP256").unwrap_err(),
        AppError::Usage("unsupported algorithm 'ECP256'; try ecp256".to_string())
    );
}

#[test]
fn algorithm_names_round_trip_for_creatable_keys() {
    for a in [
        AsymAlgorithm::EcP256,
        AsymAlgorithm::EcP384,
        AsymAlgorithm::Rsa2048,
        AsymAlgorithm::Rsa3072,
        AsymAlgorithm::Rsa4096,
        AsymAlgorithm::Ed25519,
    ] {
        assert_eq!(parse_algorithm(algorithm_name(a)).unwrap(), a);
    }
    assert_eq!(algorithm_name(AsymAlgorithm::EcBp512), "ecbp512");
    assert_eq!(algorithm_name(AsymAlgorithm::EcK256), "eck256");
}

#[test]
fn algorithm_display_names() {
    assert_eq!(algorithm_display(&HsmAlgorithm::Asymmetric(AsymAlgorithm::EcP224)), "ecp224");
    assert_eq!(algorithm_display(&HsmAlgorithm::Authentication(AuthAlgorithm::YubicoAes)), "yubico-aes");
    assert_eq!(algorithm_display(&HsmAlgorithm::Wrap(WrapAlgorithm::Aes256Ccm)), "aes256-ccm");
    assert_eq!(algorithm_display(&HsmAlgorithm::Hmac(HmacAlgorithm::Sha384)), "hmac-sha384");
    assert_eq!(algorithm_display(&HsmAlgorithm::YubicoOtp(OtpAlgorithm::Aes192)), "otp-aes192");
    assert_eq!(algorithm_display(&HsmAlgorithm::Other("Template(Ssh)".to_string())), "Template(Ssh)");
}

#[test]
fn object_type_names() {
    assert_eq!(object_type_name(ObjectType::AuthenticationKey), "authentication-key");
    assert_eq!(object_type_name(ObjectType::AsymmetricKey), "asymmetric-key");
    assert_eq!(object_type_name(ObjectType::WrapKey), "wrap-key");
    assert_eq!(object_type_name(ObjectType::HmacKey), "hmac-key");
    assert_eq!(object_type_name(ObjectType::OtpAeadKey), "otp-aead-key");
    assert_eq!(object_type_name(ObjectType::Opaque), "opaque");
    assert_eq!(object_type_name(ObjectType::Template), "template");
}

#[test]
fn capability_bits_match_the_hsm_crate() {
    let named = [
        (Capability::DERIVE_ECDH, "derive-ecdh"),
        (Capability::SIGN_ECDSA, "sign-ecdsa"),
        (Capability::SIGN_EDDSA, "sign-eddsa"),
        (Capability::SIGN_PKCS, "sign-pkcs"),
        (Capability::SIGN_ATTESTATION_CERTIFICATE, "sign-attestation-certificate"),
        (Capability::EXPORTABLE_UNDER_WRAP, "exportable-under-wrap"),
        (Capability::GET_OPAQUE, "get-opaque"),
        (Capability::PUT_OPTION, "set-option"),
        (Capability::UNWRAP_DATA, "unwrap-data"),
        (Capability::WRAP_DATA, "wrap-data"),
        (Capability::CHANGE_AUTHENTICATION_KEY, "change-authentication-key"),
    ];
    for (flag, name) in named {
        assert_eq!(capabilities_list(flag.bits()), vec![name.to_string()]);
    }
    assert_eq!(capabilities_list(Capability::all().bits() & 0x7fff_ffff_ffff).len(), 47);
    let all = capabilities_list(Capability::all().bits());
    assert_eq!(all.len(), 48);
    assert_eq!(all[47], "unknown(0xffff800000000000)");
}

#[test]
fn capability_lists_keep_display_order() {
    let caps = (Capability::WRAP_DATA | Capability::UNWRAP_DATA | Capability::DERIVE_ECDH).bits();
    assert_eq!(capabilities_list(caps), vec!["derive-ecdh", "unwrap-data", "wrap-data"]);
    assert_eq!(capabilities_list(0), Vec::<String>::new());
    assert_eq!(capabilities_list(1 << 60 | 0x80), vec!["sign-ecdsa", "unknown(0x1000000000000000)"]);
}

#[test]
fn capability_display() {
    assert_eq!(capabilities_display(0), "-");
    assert_eq!(capabilities_display(0x80 | 0x800), "derive-ecdh, sign-ecdsa");
    assert_eq!(capabilities_display_limited(0, 2), "-");
    assert_eq!(capabilities_display_limited(0x800 | 0x400 | 0x200, 3), "derive-ecdh, decrypt-oaep, decrypt-pkcs");
    assert_eq!(
        capabilities_display_limited(0x800 | 0x400 | 0x200, 1),
        "derive-ecdh, 2 more..."
    );
    assert_eq!(capabilities_display_limited(0x800 | 0x400, 0), ", 2 more...");
}

#[test]
fn new_key_capabilities() {
    assert_eq!(capabilities_for_algorithm(AsymAlgorithm::Ed25519), Capability::SIGN_EDDSA.bits());
    assert_eq!(capabilities_for_algorithm(AsymAlgorithm::Rsa3072), Capability::SIGN_PKCS.bits());
    assert_eq!(capabilities_for_algorithm(AsymAlgorithm::EcP256), Capability::SIGN_ECDSA.bits());
}

#[test]
fn asymmetric_keys_are_listed_by_id() {
    let infos = vec![
        info(9, "b", ObjectType::AsymmetricKey, HsmAlgorithm::Asymmetric(AsymAlgorithm::EcP256)),
        info(2, "a", ObjectType::AsymmetricKey, HsmAlgorithm::Asymmetric(AsymAlgorithm::Rsa2048)),
        info(5, "c", ObjectType::AsymmetricKey, HsmAlgorithm::Asymmetric(AsymAlgorithm::Ed25519)),
    ];
    let keys = list_asymmetric_keys(infos).unwrap();
    let ids: Vec<u16> = keys.iter().map(|k| k.id).collect();
    assert_eq!(ids, vec![2, 5, 9]);
    assert_eq!(keys[0].label, "a");
    assert_eq!(keys[0].algorithm, AsymAlgorithm::Rsa2048);
}

#[test]
fn non_asymmetric_object_is_an_error() {
    let infos = vec![
        info(1, "a", ObjectType::AsymmetricKey, HsmAlgorithm::Asymmetric(AsymAlgorithm::EcP256)),
        info(2, "w", ObjectType::WrapKey, HsmAlgorithm::Wrap(WrapAlgorithm::Aes256Ccm)),
    ];
    assert_eq!(
        list_asymmetric_keys(infos).unwrap_err(),
        AppError::Hsm("unexpected non-asymmetric algorithm for key".to_string())
    );
    let k = key_info_from_object(info(3, "x", ObjectType::AsymmetricKey, HsmAlgorithm::Asymmetric(AsymAlgorithm::EcP384))).unwrap();
    assert_eq!((k.id, k.label.as_str(), k.algorithm), (3, "x", AsymAlgorithm::EcP384));
}

#[test]
fn all_keys_are_listed_by_id_then_type() {
    let infos = vec![
        info(7, "w", ObjectType::WrapKey, HsmAlgorithm::Wrap(WrapAlgorithm::Aes256Ccm)),
        info(7, "a", ObjectType::AsymmetricKey, HsmAlgorithm::Asymmetric(AsymAlgorithm::EcP256)),
        info(1, "auth", ObjectType::AuthenticationKey, HsmAlgorithm::Authentication(AuthAlgorithm::YubicoAes)),
    ];
    let entries = list_keys(infos);
    let order: Vec<(u16, ObjectType)> = entries.iter().map(|e| (e.id, e.object_type)).collect();
    assert_eq!(
        order,
        vec![(1, ObjectType::AuthenticationKey), (7, ObjectType::AsymmetricKey), (7, ObjectType::WrapKey)]
    );
}

#[test]
fn wrap_key_found_by_label() {
    let infos = vec![
        info(3, "other", ObjectType::WrapKey, HsmAlgorithm::Wrap(WrapAlgorithm::Aes256Ccm)),
        info(4, TLS_WRAP_KEY_LABEL, ObjectType::WrapKey, HsmAlgorithm::Wrap(WrapAlgorithm::Aes256Ccm)),
        info(6, TLS_WRAP_KEY_LABEL, ObjectType::WrapKey, HsmAlgorithm::Wrap(WrapAlgorithm::Aes256Ccm)),
    ];
    assert_eq!(find_wrap_key_by_label(&infos, "pkm-tls-wrap"), Some(4));
    assert_eq!(find_wrap_key_by_label(&infos, "missing"), None);
}

#[test]
fn keys_named_by_id_or_label() {
    assert_eq!(key_selector("42"), KeySelector::Id(42));
    assert_eq!(key_selector("root-ca"), KeySelector::Label);
    assert_eq!(key_selector("70000"), KeySelector::Label);
    let keys = vec![key(1, "a", AsymAlgorithm::EcP256), key(2, "b", AsymAlgorithm::EcP256), key(3, "b", AsymAlgorithm::EcP384)];
    let k = select_key_by_label(vec![key(1, "a", AsymAlgorithm::EcP256), key(2, "b", AsymAlgorithm::EcP256)], "a").unwrap();
    assert_eq!(k.id, 1);
    assert_eq!(
        select_key_by_label(keys, "b").unwrap_err(),
        AppError::Usage("multiple keys found with label 'b'".to_string())
    );
    assert_eq!(
        select_key_by_label(vec![key(1, "a", AsymAlgorithm::EcP256)], "z").unwrap_err(),
        AppError::Usage("no key found with label 'z'".to_string())
    );
}

#[test]
fn keys_table() {
    let keys = vec![key(7, "root", AsymAlgorithm::EcP256), key(12345, "x", AsymAlgorithm::Ed25519)];
    let lines = keys_table_lines(&keys);
    assert_eq!(
        lines,
        vec![
            "ID     Label  Algorithm".to_string(),
            "7      root   ecp256   ".to_string(),
            "12345  x      ed25519  ".to_string(),
        ]
    );
}
