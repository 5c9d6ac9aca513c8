use pkm::error::{usage_error, AppError};

#[test]
fn exit_codes_follow_error_kinds() {
    assert_eq!(AppError::NotConfigured.exit_code(), 3);
    assert_eq!(AppError::MissingKeyring.exit_code(), 5);
    assert_eq!(AppError::Hsm("x".to_string()).exit_code(), 4);
    assert_eq!(AppError::Keyring("x".to_string()).exit_code(), 5);
    assert_eq!(AppError::Io("x".to_string()).exit_code(), 5);
    assert_eq!(AppError::Config("x".to_string()).exit_code(), 5);
    assert_eq!(AppError::Usage("x".to_string()).exit_code(), 2);
    assert_eq!(AppError::X509("x".to_string()).exit_code(), 5);
}

#[test]
fn messages_name_the_failure() {
    assert_eq!(
        AppError::NotConfigured.message(),
        "pkm is not configured yet \u{2014} run `pkm init` first"
    );
    assert_eq!(
        AppError::MissingKeyring.message(),
        "AuthKey password not found in keyring; re-run `pkm init`"
    );
    assert_eq!(AppError::Hsm("no device".to_string()).message(), "HSM error: no device");
    assert_eq!(AppError::Keyring("locked".to_string()).message(), "Keyring error: locked");
    assert_eq!(AppError::Io("denied".to_string()).message(), "Filesystem error: denied");
    assert_eq!(AppError::Config("bad".to_string()).message(), "Config error: bad");
    assert_eq!(AppError::Usage("oops".to_string()).message(), "Usage error: oops");
    assert_eq!(AppError::X509("der".to_string()).message(), "X.509 error: der");
}

#[test]
fn keyring_failures_map_to_errors() {
    assert_eq!(
        AppError::from_keyring_failure(true, "No matching entry".to_string()),
        AppError::MissingKeyring
    );
    assert_eq!(
        AppError::from_keyring_failure(false, "platform failure".to_string()),
        AppError::Keyring("platform failure".to_string())
    );
}

#[test]
fn usage_error_carries_text() {
    assert_eq!(usage_error("bad args"), AppError::Usage("bad args".to_string()));
    assert_eq!(usage_error("bad args").exit_code(), 2);
}
