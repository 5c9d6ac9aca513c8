use pkm::error::AppError;
use pkm::hsm::AsymAlgorithm;
use pkm::signing::{der_length_bytes, encode_der_integer, raw_ecdsa_to_der, signing_digest};

fn hex(s: &str) -> Vec<u8> {
    (0..s.len()).step_by(2).map(|i| u8::from_str_radix(&s[i..i + 2], 16).unwrap()).collect()
}

#[test]
fn der_integer_is_minimal_and_unsigned() {
    assert_eq!(encode_der_integer(&[0x00, 0x00, 0x01]), vec![0x01]);
    assert_eq!(encode_der_integer(&[0x80]), vec![0x00, 0x80]);
    assert_eq!(encode_der_integer(&[0x00, 0x80]), vec![0x00, 0x80]);
    assert_eq!(encode_der_integer(&[0x00]), vec![0x00]);
    assert_eq!(encode_der_integer(&[0x00, 0x00]), vec![0x00]);
    assert_eq!(encode_der_integer(&[0x7f, 0xff]), vec![0x7f, 0xff]);
}

#[test]
fn raw_signature_to_der() {
    let raw = [0x01u8, 0x02, 0x83, 0x04];
    assert_eq!(
        raw_ecdsa_to_der(&raw).unwrap(),
        vec![0x30, 0x09, 0x02, 0x02, 0x01, 0x02, 0x02, 0x03, 0x00, 0x83, 0x04]
    );
    let mut p256 = vec![0u8; 64];
    p256[31] = 5;
    p256[32] = 0xff;
    let der = raw_ecdsa_to_der(&p256).unwrap();
    assert_eq!(der[0], 0x30);
    assert_eq!(der[1] as usize, der.len() - 2);
    assert_eq!(&der[2..5], &[0x02, 0x01, 0x05]);
    assert_eq!(&der[5..8], &[0x02, 0x21, 0x00]);
    assert_eq!(der.len(), 2 + 3 + 2 + 33);
}

#[test]
fn raw_signature_starting_like_der_is_still_encoded() {
    let raw = [0x30u8, 0x06, 0x02, 0x01, 0x01, 0x02, 0x01, 0x02];
    assert_eq!(
        raw_ecdsa_to_der(&raw).unwrap(),
        vec![0x30, 0x0c, 0x02, 0x04, 0x30, 0x06, 0x02, 0x01, 0x02, 0x04, 0x01, 0x02, 0x01, 0x02]
    );
    let mut p256 = vec![0x11u8; 64];
    p256[0] = 0x30;
    let der = raw_ecdsa_to_der(&p256).unwrap();
    assert_eq!(&der[..4], &[0x30, 0x44, 0x02, 0x20]);
    assert!(p256::ecdsa::Signature::from_der(&der).is_ok());
}

#[test]
fn long_signatures_get_long_form_lengths() {
    let raw = vec![0x7fu8; 200];
    let der = raw_ecdsa_to_der(&raw).unwrap();
    assert_eq!(&der[..3], &[0x30, 0x81, 0xcc]);
    assert_eq!(&der[3..6], &[0x02, 0x64, 0x7f]);
    assert_eq!(der.len(), 3 + 2 * (2 + 100));
    assert_eq!(der_length_bytes(300), vec![0x82, 0x01, 0x2c]);
    assert_eq!(der_length_bytes(127), vec![0x7f]);
    assert_eq!(der_length_bytes(128), vec![0x81, 0x80]);
}

#[test]
fn odd_raw_signature_is_rejected() {
    assert_eq!(
        raw_ecdsa_to_der(&[1, 2, 3]).unwrap_err(),
        AppError::X509("invalid ECDSA signature length".to_string())
    );
}

#[test]
fn digests_follow_the_key_algorithm() {
    assert_eq!(
        signing_digest(AsymAlgorithm::EcP256, b"abc").unwrap(),
        hex("ba7816bf8f01cfea414140de5dae2223b00361a396177a9cb410ff61f20015ad")
    );
    assert_eq!(
        signing_digest(AsymAlgorithm::EcP384, b"abc").unwrap(),
        hex("cb00753f45a35e8bb5a03d699ac65007272c32ab0eded1631a8b605a43ff5bed8086072ba1e7cc2358baeca134c825a7")
    );
    assert_eq!(
        signing_digest(AsymAlgorithm::Rsa2048, b"abc").unwrap_err(),
        AppError::Usage("unsupported CA key algorithm for signing".to_string())
    );
}
