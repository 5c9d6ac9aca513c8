//! The error type of the tool, its process exit codes and its messages.
use vstd::prelude::*;

verus! {

/// Everything that can make a command fail.
#[derive(Debug, PartialEq, Eq)]
pub enum AppError {
    /// The configuration file does not exist yet.
    NotConfigured,
    /// The keyring holds no password for the configured AuthKey.
    MissingKeyring,
    /// The HSM refused a request or could not be reached.
    Hsm(String),
    /// The keyring failed for another reason.
    Keyring(String),
    /// A file operation failed.
    Io(String),
    /// The configuration could not be read, written or understood.
    Config(String),
    /// The command was used wrongly.
    Usage(String),
    /// Certificate data could not be built, encoded or decoded.
    X509(String),
}

impl AppError {
    /// The process exit code that belongs to the error.
    pub open spec fn spec_exit_code(&self) -> i32 {
        match self {
            AppError::NotConfigured => 3,
            AppError::MissingKeyring => 5,
            AppError::Hsm(_) => 4,
            AppError::Keyring(_) => 5,
            AppError::Io(_) => 5,
            AppError::Config(_) => 5,
            AppError::Usage(_) => 2,
            AppError::X509(_) => 5,
        }
    }

    /// The text shown to the user for the error.
    pub open spec fn spec_message(&self) -> Seq<char> {
        match self {
            AppError::NotConfigured => "pkm is not configured yet \u{2014} run `pkm init` first"@,
            AppError::MissingKeyring => "AuthKey password not found in keyring; re-run `pkm init`"@,
            AppError::Hsm(m) => "HSM error: "@ + m@,
            AppError::Keyring(m) => "Keyring error: "@ + m@,
            AppError::Io(m) => "Filesystem error: "@ + m@,
            AppError::Config(m) => "Config error: "@ + m@,
            AppError::Usage(m) => "Usage error: "@ + m@,
            AppError::X509(m) => "X.509 error: "@ + m@,
        }
    }

    /// Exit code: 2 for misuse, 3 when not configured, 4 for HSM failures,
    /// 5 for filesystem, keyring, configuration and certificate failures.
    pub fn exit_code(&self) -> (code: i32)
        ensures
            code == self.spec_exit_code(),
    {
        match self {
            AppError::NotConfigured => 3,
            AppError::MissingKeyring => 5,
            AppError::Hsm(_) => 4,
            AppError::Keyring(_) => 5,
            AppError::Io(_) => 5,
            AppError::Config(_) => 5,
            AppError::Usage(_) => 2,
            AppError::X509(_) => 5,
        }
    }

    /// The text shown to the user for the error.
    pub fn message(&self) -> (text: String)
        ensures
            text@ == self.spec_message(),
    {
        match self {
            AppError::NotConfigured => String::from_str(
                "pkm is not configured yet \u{2014} run `pkm init` first",
            ),
            AppError::MissingKeyring => String::from_str(
                "AuthKey password not found in keyring; re-run `pkm init`",
            ),
            AppError::Hsm(m) => String::from_str("HSM error: ").concat(m.as_str()),
            AppError::Keyring(m) => String::from_str("Keyring error: ").concat(m.as_str()),
            AppError::Io(m) => String::from_str("Filesystem error: ").concat(m.as_str()),
            AppError::Config(m) => String::from_str("Config error: ").concat(m.as_str()),
            AppError::Usage(m) => String::from_str("Usage error: ").concat(m.as_str()),
            AppError::X509(m) => String::from_str("X.509 error: ").concat(m.as_str()),
        }
    }

    /// The error for a keyring failure: a missing entry means the password
    /// was never stored, anything else is reported with its text.
    pub fn from_keyring_failure(no_entry: bool, detail: String) -> (err: AppError)
        ensures
            no_entry ==> err == AppError::MissingKeyring,
            !no_entry ==> err == AppError::Keyring(detail),
    {
        if no_entry {
            AppError::MissingKeyring
        } else {
            AppError::Keyring(detail)
        }
    }
}

/// A usage error with the given text.
pub fn usage_error(text: &str) -> (err: AppError)
    ensures
        err matches AppError::Usage(m) && m@ == text@,
{
    AppError::Usage(String::from_str(text))
}

} // verus!
