//! What the tool knows of HSM objects: algorithms, object types,
//! capability flags, and the rules that name, choose and order keys.
use vstd::prelude::*;

use crate::error::AppError;
use crate::sort::{SortKey, sort_by_key, stable_sort};
use crate::table::{cells_view, render_table, rows_view, table_lines};
use crate::text::{decimal, decimal_string, hex_lower, hex_string, join, join_strings, parse_u16, spec_parse_u16};

verus! {

/// Asymmetric key algorithms of the YubiHSM2.
#[derive(Debug, Clone, Copy, PartialEq, Eq, Structural)]
pub enum AsymAlgorithm {
    Rsa2048,
    Rsa3072,
    Rsa4096,
    Ed25519,
    EcP224,
    EcP256,
    EcP384,
    EcP521,
    EcK256,
    EcBp256,
    EcBp384,
    EcBp512,
}

/// Authentication key algorithms.
#[derive(Debug, Clone, Copy, PartialEq, Eq, Structural)]
pub enum AuthAlgorithm {
    YubicoAes,
}

/// Wrap key algorithms.
#[derive(Debug, Clone, Copy, PartialEq, Eq, Structural)]
pub enum WrapAlgorithm {
    Aes128Ccm,
    Aes192Ccm,
    Aes256Ccm,
}

/// HMAC key algorithms.
#[derive(Debug, Clone, Copy, PartialEq, Eq, Structural)]
pub enum HmacAlgorithm {
    Sha1,
    Sha256,
    Sha384,
    Sha512,
}

/// Yubico OTP AEAD key algorithms.
#[derive(Debug, Clone, Copy, PartialEq, Eq, Structural)]
pub enum OtpAlgorithm {
    Aes128,
    Aes192,
    Aes256,
}

/// The algorithm of an HSM object. Algorithms the tool has no name for
/// carry the text of their debug rendering.
#[derive(Debug, PartialEq, Eq)]
pub enum HsmAlgorithm {
    Asymmetric(AsymAlgorithm),
    Authentication(AuthAlgorithm),
    Wrap(WrapAlgorithm),
    Hmac(HmacAlgorithm),
    YubicoOtp(OtpAlgorithm),
    Other(String),
}

/// Object types of the YubiHSM2, in the order of their type codes.
#[derive(Debug, Clone, Copy, PartialEq, Eq, Structural)]
pub enum ObjectType {
    Opaque,
    AuthenticationKey,
    AsymmetricKey,
    WrapKey,
    HmacKey,
    Template,
    OtpAeadKey,
}

/// An asymmetric key on the HSM.
#[derive(Debug)]
pub struct KeyInfo {
    pub id: u16,
    pub label: String,
    pub algorithm: AsymAlgorithm,
}

/// A key object of any type on the HSM, as listed for display.
#[derive(Debug)]
pub struct KeyListEntry {
    pub id: u16,
    pub label: String,
    pub object_type: ObjectType,
    pub algorithm: HsmAlgorithm,
    /// Capability flags, as the bits of the HSM's capability set.
    pub capabilities: u64,
}

/// What the HSM reports about one object.
#[derive(Debug)]
pub struct ObjectInfo {
    pub object_id: u16,
    pub label: String,
    pub object_type: ObjectType,
    pub algorithm: HsmAlgorithm,
    pub capabilities: u64,
}

/// Label of the wrap key that protects TLS private keys at rest.
pub const TLS_WRAP_KEY_LABEL: &'static str = "pkm-tls-wrap";

/// The command-line name of an asymmetric algorithm.
pub open spec fn spec_algorithm_name(a: AsymAlgorithm) -> Seq<char> {
    match a {
        AsymAlgorithm::EcP256 => "ecp256"@,
        AsymAlgorithm::EcP384 => "ecp384"@,
        AsymAlgorithm::Rsa2048 => "rsa2048"@,
        AsymAlgorithm::Rsa3072 => "rsa3072"@,
        AsymAlgorithm::Rsa4096 => "rsa4096"@,
        AsymAlgorithm::Ed25519 => "ed25519"@,
        AsymAlgorithm::EcP224 => "ecp224"@,
        AsymAlgorithm::EcP521 => "ecp521"@,
        AsymAlgorithm::EcK256 => "eck256"@,
        AsymAlgorithm::EcBp256 => "ecbp256"@,
        AsymAlgorithm::EcBp384 => "ecbp384"@,
        AsymAlgorithm::EcBp512 => "ecbp512"@,
    }
}

/// The algorithms a new key can be created with, by their names.
pub open spec fn spec_parse_algorithm(input: Seq<char>) -> Option<AsymAlgorithm> {
    if input == "ecp256"@ {
        Some(AsymAlgorithm::EcP256)
    } else if input == "ecp384"@ {
        Some(AsymAlgorithm::EcP384)
    } else if input == "rsa2048"@ {
        Some(AsymAlgorithm::Rsa2048)
    } else if input == "rsa3072"@ {
        Some(AsymAlgorithm::Rsa3072)
    } else if input == "rsa4096"@ {
        Some(AsymAlgorithm::Rsa4096)
    } else if input == "ed25519"@ {
        Some(AsymAlgorithm::Ed25519)
    } else {
        None
    }
}

/// Whether two string slices hold the same characters.
pub fn str_equal(a: &str, b: &str) -> (res: bool)
    ensures
        res == (a@ == b@),
{
    String::from_str(a) == String::from_str(b)
}

/// The algorithm named on the command line, or a usage error.
pub fn parse_algorithm(input: &str) -> (res: Result<AsymAlgorithm, AppError>)
    ensures
        match spec_parse_algorithm(input@) {
            Some(a) => res == Ok::<AsymAlgorithm, AppError>(a),
            None => (res matches Err(AppError::Usage(m)) && m@ == "unsupported algorithm '"@
                + input@ + "'; try ecp256"@),
        },
{
    if str_equal(input, "ecp256") {
        Ok(AsymAlgorithm::EcP256)
    } else if str_equal(input, "ecp384") {
        Ok(AsymAlgorithm::EcP384)
    } else if str_equal(input, "rsa2048") {
        Ok(AsymAlgorithm::Rsa2048)
    } else if str_equal(input, "rsa3072") {
        Ok(AsymAlgorithm::Rsa3072)
    } else if str_equal(input, "rsa4096") {
        Ok(AsymAlgorithm::Rsa4096)
    } else if str_equal(input, "ed25519") {
        Ok(AsymAlgorithm::Ed25519)
    } else {
        let m = String::from_str("unsupported algorithm '").concat(input).concat("'; try ecp256");
        Err(AppError::Usage(m))
    }
}

/// The name of an asymmetric algorithm.
pub fn algorithm_name(algorithm: AsymAlgorithm) -> (res: &'static str)
    ensures
        res@ == spec_algorithm_name(algorithm),
{
    match algorithm {
        AsymAlgorithm::EcP256 => "ecp256",
        AsymAlgorithm::EcP384 => "ecp384",
        AsymAlgorithm::Rsa2048 => "rsa2048",
        AsymAlgorithm::Rsa3072 => "rsa3072",
        AsymAlgorithm::Rsa4096 => "rsa4096",
        AsymAlgorithm::Ed25519 => "ed25519",
        AsymAlgorithm::EcP224 => "ecp224",
        AsymAlgorithm::EcP521 => "ecp521",
        AsymAlgorithm::EcK256 => "eck256",
        AsymAlgorithm::EcBp256 => "ecbp256",
        AsymAlgorithm::EcBp384 => "ecbp384",
        AsymAlgorithm::EcBp512 => "ecbp512",
    }
}

/// The displayed name of any object algorithm.
pub open spec fn spec_algorithm_display(a: HsmAlgorithm) -> Seq<char> {
    match a {
        HsmAlgorithm::Asymmetric(x) => spec_algorithm_name(x),
        HsmAlgorithm::Authentication(AuthAlgorithm::YubicoAes) => "yubico-aes"@,
        HsmAlgorithm::Wrap(WrapAlgorithm::Aes128Ccm) => "aes128-ccm"@,
        HsmAlgorithm::Wrap(WrapAlgorithm::Aes192Ccm) => "aes192-ccm"@,
        HsmAlgorithm::Wrap(WrapAlgorithm::Aes256Ccm) => "aes256-ccm"@,
        HsmAlgorithm::Hmac(HmacAlgorithm::Sha1) => "hmac-sha1"@,
        HsmAlgorithm::Hmac(HmacAlgorithm::Sha256) => "hmac-sha256"@,
        HsmAlgorithm::Hmac(HmacAlgorithm::Sha384) => "hmac-sha384"@,
        HsmAlgorithm::Hmac(HmacAlgorithm::Sha512) => "hmac-sha512"@,
        HsmAlgorithm::YubicoOtp(OtpAlgorithm::Aes128) => "otp-aes128"@,
        HsmAlgorithm::YubicoOtp(OtpAlgorithm::Aes192) => "otp-aes192"@,
        HsmAlgorithm::YubicoOtp(OtpAlgorithm::Aes256) => "otp-aes256"@,
        HsmAlgorithm::Other(text) => text@,
    }
}

/// The displayed name of any object algorithm.
pub fn algorithm_display(algorithm: &HsmAlgorithm) -> (res: String)
    ensures
        res@ == spec_algorithm_display(*algorithm),
{
    match algorithm {
        HsmAlgorithm::Asymmetric(a) => String::from_str(algorithm_name(*a)),
        HsmAlgorithm::Authentication(AuthAlgorithm::YubicoAes) => String::from_str("yubico-aes"),
        HsmAlgorithm::Wrap(WrapAlgorithm::Aes128Ccm) => String::from_str("aes128-ccm"),
        HsmAlgorithm::Wrap(WrapAlgorithm::Aes192Ccm) => String::from_str("aes192-ccm"),
        HsmAlgorithm::Wrap(WrapAlgorithm::Aes256Ccm) => String::from_str("aes256-ccm"),
        HsmAlgorithm::Hmac(HmacAlgorithm::Sha1) => String::from_str("hmac-sha1"),
        HsmAlgorithm::Hmac(HmacAlgorithm::Sha256) => String::from_str("hmac-sha256"),
        HsmAlgorithm::Hmac(HmacAlgorithm::Sha384) => String::from_str("hmac-sha384"),
        HsmAlgorithm::Hmac(HmacAlgorithm::Sha512) => String::from_str("hmac-sha512"),
        HsmAlgorithm::YubicoOtp(OtpAlgorithm::Aes128) => String::from_str("otp-aes128"),
        HsmAlgorithm::YubicoOtp(OtpAlgorithm::Aes192) => String::from_str("otp-aes192"),
        HsmAlgorithm::YubicoOtp(OtpAlgorithm::Aes256) => String::from_str("otp-aes256"),
        HsmAlgorithm::Other(text) => text.clone(),
    }
}

/// The displayed name of an object type.
pub open spec fn spec_object_type_name(t: ObjectType) -> Seq<char> {
    match t {
        ObjectType::AuthenticationKey => "authentication-key"@,
        ObjectType::AsymmetricKey => "asymmetric-key"@,
        ObjectType::WrapKey => "wrap-key"@,
        ObjectType::HmacKey => "hmac-key"@,
        ObjectType::OtpAeadKey => "otp-aead-key"@,
        ObjectType::Opaque => "opaque"@,
        ObjectType::Template => "template"@,
    }
}

/// The displayed name of an object type.
pub fn object_type_name(object_type: ObjectType) -> (res: &'static str)
    ensures
        res@ == spec_object_type_name(object_type),
{
    match object_type {
        ObjectType::AuthenticationKey => "authentication-key",
        ObjectType::AsymmetricKey => "asymmetric-key",
        ObjectType::WrapKey => "wrap-key",
        ObjectType::HmacKey => "hmac-key",
        ObjectType::OtpAeadKey => "otp-aead-key",
        ObjectType::Opaque => "opaque",
        ObjectType::Template => "template",
    }
}

/// The capability flag a new key gets: EdDSA signing for Ed25519,
/// PKCS#1 signing for RSA, ECDSA signing for elliptic curves.
pub open spec fn spec_capabilities_for_algorithm(a: AsymAlgorithm) -> u64 {
    match a {
        AsymAlgorithm::Ed25519 => 0x100,
        AsymAlgorithm::Rsa2048 | AsymAlgorithm::Rsa3072 | AsymAlgorithm::Rsa4096 => 0x20,
        _ => 0x80,
    }
}

/// RSA algorithms, which sign with PKCS#1.
pub open spec fn is_rsa_algorithm(a: AsymAlgorithm) -> bool {
    a == AsymAlgorithm::Rsa2048 || a == AsymAlgorithm::Rsa3072 || a == AsymAlgorithm::Rsa4096
}

/// Elliptic-curve algorithms other than Ed25519, which sign with ECDSA.
pub open spec fn is_ecdsa_algorithm(a: AsymAlgorithm) -> bool {
    ||| a == AsymAlgorithm::EcP224
    ||| a == AsymAlgorithm::EcP256
    ||| a == AsymAlgorithm::EcP384
    ||| a == AsymAlgorithm::EcP521
    ||| a == AsymAlgorithm::EcK256
    ||| a == AsymAlgorithm::EcBp256
    ||| a == AsymAlgorithm::EcBp384
    ||| a == AsymAlgorithm::EcBp512
}

/// The flags are exactly the one named capability `name`.
pub open spec fn only_capability(caps: u64, name: Seq<char>) -> bool {
    exists|i: int| 0 <= i < capability_count() && capability_name(i) == name && caps == capability_bit(i)
}

/// The capability flags a new key of the algorithm is created with.
pub fn capabilities_for_algorithm(algorithm: AsymAlgorithm) -> (res: u64)
    ensures
        res == spec_capabilities_for_algorithm(algorithm),
        is_ecdsa_algorithm(algorithm) ==> only_capability(res, "sign-ecdsa"@),
        is_rsa_algorithm(algorithm) ==> only_capability(res, "sign-pkcs"@),
        algorithm == AsymAlgorithm::Ed25519 ==> only_capability(res, "sign-eddsa"@),
{
    proof {
        lemma_new_key_signs_with_its_family(algorithm);
    }
    match algorithm {
        AsymAlgorithm::Ed25519 => 0x100,
        AsymAlgorithm::Rsa2048 | AsymAlgorithm::Rsa3072 | AsymAlgorithm::Rsa4096 => 0x20,
        _ => 0x80,
    }
}

/// Law: a new key can sign in the way of its algorithm's family and in no
/// other: an ECDSA curve key gets exactly `sign-ecdsa`, an RSA key exactly
/// `sign-pkcs`, an Ed25519 key exactly `sign-eddsa`.
pub proof fn lemma_new_key_signs_with_its_family(a: AsymAlgorithm)
    ensures
        is_ecdsa_algorithm(a) ==> only_capability(spec_capabilities_for_algorithm(a), "sign-ecdsa"@),
        is_rsa_algorithm(a) ==> only_capability(spec_capabilities_for_algorithm(a), "sign-pkcs"@),
        a == AsymAlgorithm::Ed25519 ==> only_capability(spec_capabilities_for_algorithm(a), "sign-eddsa"@),
{
    assert(capability_name(4) == "sign-ecdsa"@ && capability_bit(4) == 0x80);
    assert(capability_name(5) == "sign-eddsa"@ && capability_bit(5) == 0x100);
    assert(capability_name(6) == "sign-pkcs"@ && capability_bit(6) == 0x20);
}

/// Number of capability flags with a name.
pub open spec fn capability_count() -> nat {
    47
}

/// The flags with a name cover the low 47 bits.
pub open spec fn named_capabilities_mask() -> u64 {
    0x7fff_ffff_ffff
}

/// The flag bit of the `i`-th named capability, in display order.
pub open spec fn capability_bit(i: int) -> u64 {
    if i == 0 { 0x800 }
    else if i == 1 { 0x400 }
    else if i == 2 { 0x200 }
    else if i == 3 { 0x10 }
    else if i == 4 { 0x80 }
    else if i == 5 { 0x100 }
    else if i == 6 { 0x20 }
    else if i == 7 { 0x40 }
    else if i == 8 { 0x4_0000_0000 }
    else if i == 9 { 0x100_0000 }
    else if i == 10 { 0x200_0000_0000 }
    else if i == 11 { 0x100_0000_0000 }
    else if i == 12 { 0x800_0000_0000 }
    else if i == 13 { 0x80_0000_0000 }
    else if i == 14 { 0x2000_0000_0000 }
    else if i == 15 { 0x1000_0000_0000 }
    else if i == 16 { 0x400_0000_0000 }
    else if i == 17 { 0x1_0000 }
    else if i == 18 { 0x1000 }
    else if i == 19 { 0x10_0000_0000 }
    else if i == 20 { 0x8000 }
    else if i == 21 { 0x1 }
    else if i == 22 { 0x4_0000 }
    else if i == 23 { 0x8_0000 }
    else if i == 24 { 0x400_0000 }
    else if i == 25 { 0x20_0000 }
    else if i == 26 { 0x40_0000 }
    else if i == 27 { 0x80_0000 }
    else if i == 28 { 0x2000 }
    else if i == 29 { 0x4000_0000 }
    else if i == 30 { 0x8000_0000 }
    else if i == 31 { 0x1_0000_0000 }
    else if i == 32 { 0x2_0000_0000 }
    else if i == 33 { 0x2000_0000 }
    else if i == 34 { 0x8 }
    else if i == 35 { 0x4 }
    else if i == 36 { 0x10_0000 }
    else if i == 37 { 0x2 }
    else if i == 38 { 0x2_0000 }
    else if i == 39 { 0x8_0000_0000 }
    else if i == 40 { 0x800_0000 }
    else if i == 41 { 0x4000 }
    else if i == 42 { 0x1000_0000 }
    else if i == 43 { 0x200_0000 }
    else if i == 44 { 0x40_0000_0000 }
    else if i == 45 { 0x20_0000_0000 }
    else { 0x4000_0000_0000 }
}

/// The display name of the `i`-th named capability.
pub open spec fn capability_name(i: int) -> Seq<char> {
    if i == 0 { "derive-ecdh"@ }
    else if i == 1 { "decrypt-oaep"@ }
    else if i == 2 { "decrypt-pkcs"@ }
    else if i == 3 { "generate-asymmetric-key"@ }
    else if i == 4 { "sign-ecdsa"@ }
    else if i == 5 { "sign-eddsa"@ }
    else if i == 6 { "sign-pkcs"@ }
    else if i == 7 { "sign-pss"@ }
    else if i == 8 { "sign-attestation-certificate"@ }
    else if i == 9 { "get-log-entries"@ }
    else if i == 10 { "delete-asymmetric-key"@ }
    else if i == 11 { "delete-authentication-key"@ }
    else if i == 12 { "delete-hmac-key"@ }
    else if i == 13 { "delete-opaque"@ }
    else if i == 14 { "delete-otp-aead-key"@ }
    else if i == 15 { "delete-template"@ }
    else if i == 16 { "delete-wrap-key"@ }
    else if i == 17 { "exportable-under-wrap"@ }
    else if i == 18 { "export-wrapped"@ }
    else if i == 19 { "generate-otp-aead-key"@ }
    else if i == 20 { "generate-wrap-key"@ }
    else if i == 21 { "get-opaque"@ }
    else if i == 22 { "get-option"@ }
    else if i == 23 { "get-pseudo-random"@ }
    else if i == 24 { "get-template"@ }
    else if i == 25 { "generate-hmac-key"@ }
    else if i == 26 { "sign-hmac"@ }
    else if i == 27 { "verify-hmac"@ }
    else if i == 28 { "import-wrapped"@ }
    else if i == 29 { "create-otp-aead"@ }
    else if i == 30 { "randomize-otp-aead"@ }
    else if i == 31 { "rewrap-from-otp-aead-key"@ }
    else if i == 32 { "rewrap-to-otp-aead-key"@ }
    else if i == 33 { "decrypt-otp"@ }
    else if i == 34 { "put-asymmetric-key"@ }
    else if i == 35 { "put-authentication-key"@ }
    else if i == 36 { "put-hmac-key"@ }
    else if i == 37 { "put-opaque"@ }
    else if i == 38 { "set-option"@ }
    else if i == 39 { "put-otp-aead-key"@ }
    else if i == 40 { "put-template"@ }
    else if i == 41 { "put-wrap-key"@ }
    else if i == 42 { "reset-device"@ }
    else if i == 43 { "sign-ssh-certificate"@ }
    else if i == 44 { "unwrap-data"@ }
    else if i == 45 { "wrap-data"@ }
    else { "change-authentication-key"@ }
}

/// The `i`-th named capability: its flag bit and its display name.
pub fn capability_entry(i: usize) -> (res: (u64, &'static str))
    requires
        i < capability_count(),
    ensures
        res.0 == capability_bit(i as int),
        res.1@ == capability_name(i as int),
{
    if i == 0 { (0x800, "derive-ecdh") }
    else if i == 1 { (0x400, "decrypt-oaep") }
    else if i == 2 { (0x200, "decrypt-pkcs") }
    else if i == 3 { (0x10, "generate-asymmetric-key") }
    else if i == 4 { (0x80, "sign-ecdsa") }
    else if i == 5 { (0x100, "sign-eddsa") }
    else if i == 6 { (0x20, "sign-pkcs") }
    else if i == 7 { (0x40, "sign-pss") }
    else if i == 8 { (0x4_0000_0000, "sign-attestation-certificate") }
    else if i == 9 { (0x100_0000, "get-log-entries") }
    else if i == 10 { (0x200_0000_0000, "delete-asymmetric-key") }
    else if i == 11 { (0x100_0000_0000, "delete-authentication-key") }
    else if i == 12 { (0x800_0000_0000, "delete-hmac-key") }
    else if i == 13 { (0x80_0000_0000, "delete-opaque") }
    else if i == 14 { (0x2000_0000_0000, "delete-otp-aead-key") }
    else if i == 15 { (0x1000_0000_0000, "delete-template") }
    else if i == 16 { (0x400_0000_0000, "delete-wrap-key") }
    else if i == 17 { (0x1_0000, "exportable-under-wrap") }
    else if i == 18 { (0x1000, "export-wrapped") }
    else if i == 19 { (0x10_0000_0000, "generate-otp-aead-key") }
    else if i == 20 { (0x8000, "generate-wrap-key") }
    else if i == 21 { (0x1, "get-opaque") }
    else if i == 22 { (0x4_0000, "get-option") }
    else if i == 23 { (0x8_0000, "get-pseudo-random") }
    else if i == 24 { (0x400_0000, "get-template") }
    else if i == 25 { (0x20_0000, "generate-hmac-key") }
    else if i == 26 { (0x40_0000, "sign-hmac") }
    else if i == 27 { (0x80_0000, "verify-hmac") }
    else if i == 28 { (0x2000, "import-wrapped") }
    else if i == 29 { (0x4000_0000, "create-otp-aead") }
    else if i == 30 { (0x8000_0000, "randomize-otp-aead") }
    else if i == 31 { (0x1_0000_0000, "rewrap-from-otp-aead-key") }
    else if i == 32 { (0x2_0000_0000, "rewrap-to-otp-aead-key") }
    else if i == 33 { (0x2000_0000, "decrypt-otp") }
    else if i == 34 { (0x8, "put-asymmetric-key") }
    else if i == 35 { (0x4, "put-authentication-key") }
    else if i == 36 { (0x10_0000, "put-hmac-key") }
    else if i == 37 { (0x2, "put-opaque") }
    else if i == 38 { (0x2_0000, "set-option") }
    else if i == 39 { (0x8_0000_0000, "put-otp-aead-key") }
    else if i == 40 { (0x800_0000, "put-template") }
    else if i == 41 { (0x4000, "put-wrap-key") }
    else if i == 42 { (0x1000_0000, "reset-device") }
    else if i == 43 { (0x200_0000, "sign-ssh-certificate") }
    else if i == 44 { (0x40_0000_0000, "unwrap-data") }
    else if i == 45 { (0x20_0000_0000, "wrap-data") }
    else { (0x4000_0000_0000, "change-authentication-key") }
}

/// Names of the named capabilities among the first `n` that `caps` holds, in display order.
pub open spec fn held_capability_names(caps: u64, n: int) -> Seq<Seq<char>>
    decreases n,
{
    if n <= 0 {
        seq![]
    } else if caps & capability_bit(n - 1) != 0 {
        held_capability_names(caps, n - 1).push(capability_name(n - 1))
    } else {
        held_capability_names(caps, n - 1)
    }
}

/// The display names of a capability set: the named flags it holds, in
/// display order, then `unknown(0x..)` with the remaining bits in hex if any.
pub open spec fn capability_names(caps: u64) -> Seq<Seq<char>> {
    if caps == 0 {
        seq![]
    } else {
        let named = held_capability_names(caps, capability_count() as int);
        let rest = caps & !named_capabilities_mask();
        if rest != 0 {
            named.push("unknown(0x"@ + hex_lower(rest as nat) + ")"@)
        } else {
            named
        }
    }
}

/// The display names of a capability set.
pub fn capabilities_list(capabilities: u64) -> (res: Vec<String>)
    ensures
        res@.map_values(|s: String| s@) == capability_names(capabilities),
{
    let mut names: Vec<String> = Vec::new();
    if capabilities == 0 {
        assert(names@.map_values(|s: String| s@) =~= capability_names(capabilities));
        return names;
    }
    for i in 0..47
        invariant
            names@.map_values(|s: String| s@) == held_capability_names(capabilities, i as int),
    {
        let (flag, name) = capability_entry(i);
        if capabilities & flag != 0 {
            names.push(String::from_str(name));
        }
        assert(names@.map_values(|s: String| s@) =~= held_capability_names(capabilities, i + 1));
    }
    let remaining = capabilities & !0x7fff_ffff_ffffu64;
    if remaining != 0 {
        let text = String::from_str("unknown(0x").concat(hex_string(remaining).as_str()).concat(")");
        names.push(text);
        assert(names@.map_values(|s: String| s@) =~= capability_names(capabilities));
    }
    names
}

/// A capability set for display: its names separated by `", "`, or `-`.
pub open spec fn spec_capabilities_display(caps: u64) -> Seq<char> {
    if capability_names(caps).len() == 0 {
        "-"@
    } else {
        join(capability_names(caps), ", "@)
    }
}

/// A capability set for display: its names separated by `", "`, or `-`.
pub fn capabilities_display(capabilities: u64) -> (res: String)
    ensures
        res@ == spec_capabilities_display(capabilities),
{
    let names = capabilities_list(capabilities);
    if names.len() == 0 {
        String::from_str("-")
    } else {
        join_strings(&names, ", ")
    }
}

/// A capability set for display with at most `max` names, the rest counted.
pub open spec fn spec_capabilities_display_limited(caps: u64, max: nat) -> Seq<char> {
    let names = capability_names(caps);
    if names.len() == 0 {
        "-"@
    } else if names.len() <= max {
        join(names, ", "@)
    } else {
        join(names.take(max as int), ", "@) + ", "@ + decimal((names.len() - max) as nat)
            + " more..."@
    }
}

/// A capability set for display with at most `max` names; when there are
/// more, the shown names are followed by `, <n> more...`.
pub fn capabilities_display_limited(capabilities: u64, max: usize) -> (res: String)
    ensures
        res@ == spec_capabilities_display_limited(capabilities, max as nat),
{
    let names = capabilities_list(capabilities);
    if names.len() == 0 {
        return String::from_str("-");
    }
    if names.len() <= max {
        return join_strings(&names, ", ");
    }
    let mut shown: Vec<String> = Vec::new();
    for i in 0..max
        invariant
            max < names@.len(),
            shown@.len() == i,
            shown@.map_values(|s: String| s@) == names@.map_values(|s: String| s@).take(i as int),
    {
        let item = names[i].clone();
        shown.push(item);
        assert(shown@[i as int]@ == names@[i as int]@);
        assert(shown@.map_values(|s: String| s@) =~= names@.map_values(|s: String| s@).take(
            i + 1,
        ));
    }
    let mut output = join_strings(&shown, ", ");
    let count = decimal_string((names.len() - max) as u64);
    output.append(", ");
    output.append(count.as_str());
    output.append(" more...");
    output
}

/// The position of an object type in the order of type codes.
pub open spec fn spec_object_type_rank(t: ObjectType) -> u8 {
    match t {
        ObjectType::Opaque => 1,
        ObjectType::AuthenticationKey => 2,
        ObjectType::AsymmetricKey => 3,
        ObjectType::WrapKey => 4,
        ObjectType::HmacKey => 5,
        ObjectType::Template => 6,
        ObjectType::OtpAeadKey => 7,
    }
}

/// The type code of an object type.
pub fn object_type_rank(t: ObjectType) -> (res: u8)
    ensures
        res == spec_object_type_rank(t),
{
    match t {
        ObjectType::Opaque => 1,
        ObjectType::AuthenticationKey => 2,
        ObjectType::AsymmetricKey => 3,
        ObjectType::WrapKey => 4,
        ObjectType::HmacKey => 5,
        ObjectType::Template => 6,
        ObjectType::OtpAeadKey => 7,
    }
}

impl SortKey for KeyInfo {
    /// Keys are ordered by object id.
    open spec fn key_le(&self, other: &Self) -> bool {
        self.id <= other.id
    }

    fn key_le_exec(&self, other: &Self) -> (res: bool) {
        self.id <= other.id
    }

    proof fn key_total(a: &Self, b: &Self) {
    }

    proof fn key_transitive(a: &Self, b: &Self, c: &Self) {
    }
}

impl SortKey for KeyListEntry {
    /// Entries are ordered by object id, then by object type.
    open spec fn key_le(&self, other: &Self) -> bool {
        self.id < other.id || (self.id == other.id && spec_object_type_rank(self.object_type)
            <= spec_object_type_rank(other.object_type))
    }

    fn key_le_exec(&self, other: &Self) -> (res: bool) {
        self.id < other.id || (self.id == other.id && object_type_rank(self.object_type)
            <= object_type_rank(other.object_type))
    }

    proof fn key_total(a: &Self, b: &Self) {
    }

    proof fn key_transitive(a: &Self, b: &Self, c: &Self) {
    }
}

/// The asymmetric key an object stands for, when its algorithm is asymmetric.
pub open spec fn spec_key_info(o: ObjectInfo) -> Option<KeyInfo> {
    match o.algorithm {
        HsmAlgorithm::Asymmetric(a) => Some(KeyInfo { id: o.object_id, label: o.label, algorithm: a }),
        _ => None,
    }
}

/// The listing entry of an object.
pub open spec fn spec_key_list_entry(o: ObjectInfo) -> KeyListEntry {
    KeyListEntry {
        id: o.object_id,
        label: o.label,
        object_type: o.object_type,
        algorithm: o.algorithm,
        capabilities: o.capabilities,
    }
}

/// The error for an object listed as a key whose algorithm is not asymmetric.
pub open spec fn is_non_asymmetric_error(e: AppError) -> bool {
    e matches AppError::Hsm(m) && m@ == "unexpected non-asymmetric algorithm for key"@
}

/// The asymmetric key an object describes, when its algorithm is asymmetric.
pub fn key_info_from_object(info: ObjectInfo) -> (res: Result<KeyInfo, AppError>)
    ensures
        match spec_key_info(info) {
            Some(k) => res == Ok::<KeyInfo, AppError>(k),
            None => (res matches Err(e) && is_non_asymmetric_error(e)),
        },
{
    match info.algorithm {
        HsmAlgorithm::Asymmetric(a) => Ok(KeyInfo { id: info.object_id, label: info.label, algorithm: a }),
        _ => Err(AppError::Hsm(String::from_str("unexpected non-asymmetric algorithm for key"))),
    }
}

/// The asymmetric keys among the listed objects, ordered by id; an error
/// when any listed object is not an asymmetric key.
pub fn list_asymmetric_keys(infos: Vec<ObjectInfo>) -> (res: Result<Vec<KeyInfo>, AppError>)
    ensures
        (forall|i: int| 0 <= i < infos@.len() ==> spec_key_info(#[trigger] infos@[i]) is Some)
            ==> (res matches Ok(keys) && keys@ == stable_sort(
            infos@.map_values(|o: ObjectInfo| spec_key_info(o)->0),
        )),
        !(forall|i: int| 0 <= i < infos@.len() ==> spec_key_info(#[trigger] infos@[i]) is Some)
            ==> (res matches Err(e) && is_non_asymmetric_error(e)),
{
    let ghost all = infos@;
    let mut rest = infos;
    let mut keys: Vec<KeyInfo> = Vec::new();
    let mut taken: usize = 0;
    let n = rest.len();
    while rest.len() > 0
        invariant
            all.len() == n,
            taken + rest@.len() == n,
            rest@ == all.skip(taken as int),
            all == infos@,
            forall|i: int| 0 <= i < taken ==> spec_key_info(#[trigger] all[i]) is Some,
            keys@ == all.take(taken as int).map_values(|o: ObjectInfo| spec_key_info(o)->0),
        decreases rest@.len(),
    {
        let info = rest.remove(0);
        assert(info == all[taken as int]);
        match key_info_from_object(info) {
            Ok(k) => {
                keys.push(k);
            },
            Err(e) => {
                assert(spec_key_info(all[taken as int]) is None);
                return Err(e);
            },
        }
        assert(keys@ =~= all.take(taken + 1).map_values(|o: ObjectInfo| spec_key_info(o)->0));
        assert(rest@ =~= all.skip(taken + 1));
        taken = taken + 1;
    }
    assert(all.take(taken as int) =~= all);
    Ok(sort_by_key(keys))
}

/// The listed key objects, ordered by id and then by object type.
pub fn list_keys(infos: Vec<ObjectInfo>) -> (res: Vec<KeyListEntry>)
    ensures
        res@ == stable_sort(infos@.map_values(|o: ObjectInfo| spec_key_list_entry(o))),
{
    let ghost all = infos@;
    let mut rest = infos;
    let mut entries: Vec<KeyListEntry> = Vec::new();
    let mut taken: usize = 0;
    let n = rest.len();
    while rest.len() > 0
        invariant
            all.len() == n,
            taken + rest@.len() == n,
            rest@ == all.skip(taken as int),
            entries@ == all.take(taken as int).map_values(|o: ObjectInfo| spec_key_list_entry(o)),
        decreases rest@.len(),
    {
        let info = rest.remove(0);
        assert(info == all[taken as int]);
        entries.push(
            KeyListEntry {
                id: info.object_id,
                label: info.label,
                object_type: info.object_type,
                algorithm: info.algorithm,
                capabilities: info.capabilities,
            },
        );
        assert(entries@ =~= all.take(taken + 1).map_values(|o: ObjectInfo| spec_key_list_entry(o)));
        assert(rest@ =~= all.skip(taken + 1));
        taken = taken + 1;
    }
    assert(all.take(taken as int) =~= all);
    sort_by_key(entries)
}

/// The id of the first listed object with the given label.
pub fn find_wrap_key_by_label(infos: &Vec<ObjectInfo>, label: &str) -> (res: Option<u16>)
    ensures
        match res {
            Some(id) => exists|i: int|
                0 <= i < infos@.len() && (#[trigger] infos@[i]).label@ == label@ && infos@[i].object_id
                    == id && forall|j: int| 0 <= j < i ==> (#[trigger] infos@[j]).label@ != label@,
            None => forall|i: int| 0 <= i < infos@.len() ==> (#[trigger] infos@[i]).label@ != label@,
        },
{
    for i in 0..infos.len()
        invariant
            forall|j: int| 0 <= j < i ==> (#[trigger] infos@[j]).label@ != label@,
    {
        if str_equal(infos[i].label.as_str(), label) {
            return Some(infos[i].object_id);
        }
    }
    None
}

/// How a key is named on the command line.
#[derive(Debug, Clone, Copy, PartialEq, Eq, Structural)]
pub enum KeySelector {
    /// By object id: the text is a 16-bit unsigned integer.
    Id(u16),
    /// By label: any other text.
    Label,
}

/// Whether a key is named on the command line by id or by label.
pub fn key_selector(id_or_label: &str) -> (res: KeySelector)
    ensures
        match spec_parse_u16(id_or_label@) {
            Some(id) => res == KeySelector::Id(id),
            None => res == KeySelector::Label,
        },
{
    match parse_u16(id_or_label) {
        Some(id) => KeySelector::Id(id),
        None => KeySelector::Label,
    }
}

/// The number of keys with the given label.
pub open spec fn label_count(keys: Seq<KeyInfo>, label: Seq<char>) -> nat
    decreases keys.len(),
{
    if keys.len() == 0 {
        0
    } else {
        label_count(keys.drop_last(), label) + if keys.last().label@ == label {
            1nat
        } else {
            0nat
        }
    }
}

/// The one key with the given label; an error when there is none or
/// more than one.
pub fn select_key_by_label(keys: Vec<KeyInfo>, label: &str) -> (res: Result<KeyInfo, AppError>)
    ensures
        label_count(keys@, label@) == 0 ==> (res matches Err(AppError::Usage(m)) && m@
            == "no key found with label '"@ + label@ + "'"@),
        label_count(keys@, label@) == 1 ==> (res matches Ok(k) && keys@.contains(k) && k.label@
            == label@),
        label_count(keys@, label@) > 1 ==> (res matches Err(AppError::Usage(m)) && m@
            == "multiple keys found with label '"@ + label@ + "'"@),
{
    let ghost all = keys@;
    let mut rest = keys;
    let mut found: Option<KeyInfo> = None;
    let mut count: usize = 0;
    let mut taken: usize = 0;
    let n = rest.len();
    while rest.len() > 0
        invariant
            all.len() == n,
            taken + rest@.len() == n,
            rest@ == all.skip(taken as int),
            count == label_count(all.take(taken as int), label@),
            count <= taken,
            count >= 1 ==> (found matches Some(k) && all.contains(k) && k.label@ == label@),
        decreases rest@.len(),
    {
        let k = rest.remove(0);
        assert(k == all[taken as int]);
        assert(all.take(taken + 1).drop_last() =~= all.take(taken as int));
        if str_equal(k.label.as_str(), label) {
            if count == 0 {
                found = Some(k);
            }
            count = count + 1;
        }
        assert(rest@ =~= all.skip(taken + 1));
        taken = taken + 1;
    }
    assert(all.take(taken as int) =~= all);
    if count == 0 {
        let m = String::from_str("no key found with label '").concat(label).concat("'");
        Err(AppError::Usage(m))
    } else if count == 1 {
        Ok(found.unwrap())
    } else {
        let m = String::from_str("multiple keys found with label '").concat(label).concat("'");
        Err(AppError::Usage(m))
    }
}

/// The header cells of the key listing.
pub open spec fn keys_table_headers() -> Seq<Seq<char>> {
    seq!["ID"@, "Label"@, "Algorithm"@]
}

/// The cells of a key listing line: id, label and algorithm name.
pub open spec fn key_row_cells(k: KeyInfo) -> Seq<Seq<char>> {
    seq![decimal(k.id as nat), k.label@, spec_algorithm_name(k.algorithm)]
}

/// The lines of the key listing table, as `pkm keys list` prints them.
pub fn keys_table_lines(keys: &Vec<KeyInfo>) -> (res: Vec<String>)
    ensures
        res@.map_values(|s: String| s@) == table_lines(
            keys_table_headers(),
            keys@.map_values(|k: KeyInfo| key_row_cells(k)),
        ),
{
    let headers: Vec<String> = vec![
        String::from_str("ID"),
        String::from_str("Label"),
        String::from_str("Algorithm"),
    ];
    let mut cells: Vec<Vec<String>> = Vec::new();
    for i in 0..keys.len()
        invariant
            cells@.len() == i,
            forall|r: int| 0 <= r < i ==> (#[trigger] cells@[r])@.len() == 3,
            forall|r: int|
                0 <= r < i ==> (#[trigger] cells@[r])@.map_values(|s: String| s@) == key_row_cells(
                    keys@[r],
                ),
    {
        let k = &keys[i];
        let line: Vec<String> = vec![
            decimal_string(k.id as u64),
            k.label.clone(),
            String::from_str(algorithm_name(k.algorithm)),
        ];
        assert(line@.map_values(|s: String| s@) =~= key_row_cells(keys@[i as int]));
        cells.push(line);
    }
    proof {
        reveal_strlit("ID");
        reveal_strlit("Label");
        reveal_strlit("Algorithm");
        assert(headers@.map_values(|s: String| s@) =~= keys_table_headers());
    }
    let lines = render_table(&headers, &cells);
    proof {
        assert(rows_view(cells@) =~= keys@.map_values(|k: KeyInfo| key_row_cells(k)));
        assert(cells_view(headers) =~= keys_table_headers());
    }
    lines
}

} // verus!
