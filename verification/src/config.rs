//! The tool's configuration and each CA's configuration, as plain data.
use vstd::prelude::*;

use crate::text::{decimal, decimal_string};

verus! {

/// The tool configuration (`config.toml` in the configuration directory).
#[derive(Debug)]
pub struct AppConfig {
    pub version: u8,
    pub hsm: HsmConfig,
    pub keyring: KeyringConfig,
    /// The CA used when none is named.
    pub current_ca: Option<String>,
}

/// How to reach and authenticate to the HSM.
#[derive(Debug)]
pub struct HsmConfig {
    pub auth_key_id: u16,
    /// Serial number of the device to use, when several are attached.
    pub serial: Option<u32>,
    /// The wrap key that protects TLS private keys.
    pub wrap_key_id: Option<u16>,
}

/// Where the AuthKey password is kept in the OS keyring.
#[derive(Debug)]
pub struct KeyringConfig {
    pub service: String,
    pub username: String,
}

/// A CA's configuration (`config.toml` in the CA's directory).
#[derive(Debug)]
pub struct CaConfig {
    pub version: u8,
    pub ca: CaSection,
    pub hsm: CaHsmSection,
    pub crypto: CaCryptoSection,
}

/// Names and validity of a CA.
#[derive(Debug)]
pub struct CaSection {
    pub short_name: String,
    pub common_name: String,
    pub organizational_unit: String,
    pub validity_days: u32,
}

/// The HSM key that signs for a CA.
#[derive(Debug)]
pub struct CaHsmSection {
    pub key_id: u16,
    pub key_label: Option<String>,
}

/// The signature algorithm of a CA.
#[derive(Debug)]
pub struct CaCryptoSection {
    pub signature: String,
}

/// The keyring user name under which the password of an AuthKey is kept.
pub open spec fn spec_keyring_username(auth_key_id: u16) -> Seq<char> {
    "yubihsm-authkey-"@ + decimal(auth_key_id as nat)
}

/// The configuration written by `pkm init`: version 1, the given AuthKey,
/// the password under service `pkm` and user `yubihsm-authkey-<id>`, no
/// device serial, no wrap key and no current CA yet.
pub fn new_app_config(auth_key_id: u16) -> (config: AppConfig)
    ensures
        config.version == 1,
        config.hsm.auth_key_id == auth_key_id,
        config.hsm.serial is None,
        config.hsm.wrap_key_id is None,
        config.keyring.service@ == "pkm"@,
        config.keyring.username@ == spec_keyring_username(auth_key_id),
        config.current_ca is None,
{
    let username = String::from_str("yubihsm-authkey-").concat(
        decimal_string(auth_key_id as u64).as_str(),
    );
    AppConfig {
        version: 1,
        hsm: HsmConfig { auth_key_id, serial: None, wrap_key_id: None },
        keyring: KeyringConfig { service: String::from_str("pkm"), username },
        current_ca: None,
    }
}

/// The configuration of a new CA: version 1, ten years of validity, the
/// signing key with its label, and the name of its signature algorithm.
pub fn new_ca_config(
    short_name: &str,
    common_name: &str,
    organizational_unit: &str,
    key_id: u16,
    key_label: &str,
    signature: &str,
) -> (config: CaConfig)
    ensures
        config.version == 1,
        config.ca.short_name@ == short_name@,
        config.ca.common_name@ == common_name@,
        config.ca.organizational_unit@ == organizational_unit@,
        config.ca.validity_days == 3650,
        config.hsm.key_id == key_id,
        config.hsm.key_label matches Some(l) && l@ == key_label@,
        config.crypto.signature@ == signature@,
{
    CaConfig {
        version: 1,
        ca: CaSection {
            short_name: String::from_str(short_name),
            common_name: String::from_str(common_name),
            organizational_unit: String::from_str(organizational_unit),
            validity_days: 3650,
        },
        hsm: CaHsmSection { key_id, key_label: Some(String::from_str(key_label)) },
        crypto: CaCryptoSection { signature: String::from_str(signature) },
    }
}

} // verus!
