//! The command tree of `pkm`, as plain data.
use vstd::prelude::*;

verus! {

/// A parsed command line.
#[derive(Debug)]
pub struct Cli {
    pub command: Commands,
}

/// The top-level commands.
#[derive(Debug)]
pub enum Commands {
    /// Initialize configuration and keyring entry.
    Init,
    /// Manage keys on the HSM.
    Keys { command: KeysCommand },
    /// Manage certificate authorities.
    Ca { command: CaCommand },
    /// Manage issued TLS certificates.
    Tls { command: TlsCommand },
}

/// `pkm keys ...`
#[derive(Debug)]
pub enum KeysCommand {
    /// List keys.
    List { all_capabilities: bool },
    /// Create a new asymmetric key (`--algorithm`, default `ecp256`).
    Add { label: String, algorithm: String },
    /// Remove an asymmetric key by id or label.
    Remove { id_or_label: String, yes: bool, force: bool },
}

/// `pkm ca ...`
#[derive(Debug)]
pub enum CaCommand {
    /// Initialize a root CA.
    Init { ca_short_name: String, key: String, common_name: String, organizational_unit: String },
    /// List configured CAs.
    List,
    /// Set the default CA for TLS operations.
    Default { ca_short_name: String },
    /// Export the CA certificate.
    Export { ca: Option<String> },
    /// Sign a CSR as a subordinate CA certificate.
    SignCsr { ca: Option<String>, csr: String, out: String, days: u32, path_len: u8 },
    /// `pkm ca <name> ...`: the words after `ca`.
    External(Vec<String>),
}

/// `pkm tls ...`
#[derive(Debug)]
pub enum TlsCommand {
    /// Issue a TLS certificate.
    Add { ca: Option<String>, args: TlsAddArgs },
    /// Export a TLS certificate.
    Export { ca: Option<String>, args: TlsExportArgs },
    /// List issued TLS certificates.
    List { ca: Option<String> },
}

/// What to issue: the leaf's name, its uses, and its hosts.
#[derive(Debug)]
pub struct TlsAddArgs {
    pub name: String,
    pub client: bool,
    pub server: bool,
    pub hosts: Vec<String>,
}

/// What to export, and how.
#[derive(Debug)]
pub struct TlsExportArgs {
    pub name: String,
    pub format: TlsExportFormat,
}

/// The form of an exported leaf.
#[derive(Debug, Clone, Copy, PartialEq, Eq, Structural)]
pub enum TlsExportFormat {
    /// One password-protected PKCS#12 bundle.
    Pkcs12,
    /// The certificate and the private key in separate files.
    Split,
}

} // verus!
