use pkm::config::{new_app_config, new_ca_config};

#[test]
fn init_configuration() {
    let c = new_app_config(7);
    assert_eq!(c.version, 1);
    assert_eq!(c.hsm.auth_key_id, 7);
    assert_eq!(c.hsm.serial, None);
    assert_eq!(c.hsm.wrap_key_id, None);
    assert_eq!(c.keyring.service, "pkm");
    assert_eq!(c.keyring.username, "yubihsm-authkey-7");
    assert_eq!(c.current_ca, None);
    assert_eq!(new_app_config(65535).keyring.username, "yubihsm-authkey-65535");
}

#[test]
fn ca_configuration() {
    let c = new_ca_config("home", "Home CA", "Lab", 12, "root-key", "ecdsa-p256-sha256");
    assert_eq!(c.version, 1);
    assert_eq!(c.ca.short_name, "home");
    assert_eq!(c.ca.common_name, "Home CA");
    assert_eq!(c.ca.organizational_unit, "Lab");
    assert_eq!(c.ca.validity_days, 3650);
    assert_eq!(c.hsm.key_id, 12);
    assert_eq!(c.hsm.key_label.as_deref(), Some("root-key"));
    assert_eq!(c.crypto.signature, "ecdsa-p256-sha256");
}
