//! The decisions between the steps of the commands: which wrap key
//! protects TLS keys, when a command must stop, and what it reports.
use vstd::prelude::*;

use crate::cli::TlsExportFormat;
use crate::config::AppConfig;
use crate::error::AppError;
use crate::store::path_join;
use crate::text::{decimal, trim, trim_str};
use crate::tls::{hex_bytes, hex_encode, lemma_hex_bytes_len};
use crate::wrapped::{has_prefix, is_wrapped_key, wrapped_key_header};
use vstd::utf8::encode_utf8;

verus! {

/// What the HSM answered in the search for the TLS wrap key.
#[derive(Debug, Clone, Copy, PartialEq, Eq, Structural)]
pub enum WrapKeyEvent {
    /// The search begins.
    Start,
    /// Whether the configured wrap key exists on the HSM as a wrap key.
    Probed(bool),
    /// The id of the wrap key labelled `pkm-tls-wrap`, if there is one.
    Searched(Option<u16>),
    /// The id of a wrap key just generated.
    Generated(u16),
}

/// What to do next in the search for the TLS wrap key.
#[derive(Debug, Clone, Copy, PartialEq, Eq, Structural)]
pub enum WrapKeyAction {
    /// Ask the HSM whether this wrap key exists.
    Probe(u16),
    /// Look for the wrap key labelled `pkm-tls-wrap`.
    SearchByLabel,
    /// Generate a wrap key labelled `pkm-tls-wrap` in the AuthKey's domains.
    Generate,
    /// Use this wrap key; when `save` is set, record it in the configuration first.
    Use { key_id: u16, save: bool },
}

/// The next step in the search for the TLS wrap key, given the wrap key
/// the configuration names: the configured key while the HSM has it, else
/// the labelled key, else a new one.
pub open spec fn spec_wrap_key_step(configured: Option<u16>, event: WrapKeyEvent) -> WrapKeyAction {
    match event {
        WrapKeyEvent::Start => match configured {
            Some(id) => WrapKeyAction::Probe(id),
            None => WrapKeyAction::SearchByLabel,
        },
        WrapKeyEvent::Probed(exists) => match configured {
            Some(id) if exists => WrapKeyAction::Use { key_id: id, save: false },
            _ => WrapKeyAction::SearchByLabel,
        },
        WrapKeyEvent::Searched(found) => match found {
            Some(id) => WrapKeyAction::Use { key_id: id, save: true },
            None => WrapKeyAction::Generate,
        },
        WrapKeyEvent::Generated(id) => WrapKeyAction::Use { key_id: id, save: true },
    }
}

/// The next step in the search for the TLS wrap key.
pub fn wrap_key_step(configured: Option<u16>, event: WrapKeyEvent) -> (res: WrapKeyAction)
    ensures
        res == spec_wrap_key_step(configured, event),
{
    match event {
        WrapKeyEvent::Start => match configured {
            Some(id) => WrapKeyAction::Probe(id),
            None => WrapKeyAction::SearchByLabel,
        },
        WrapKeyEvent::Probed(exists) => match configured {
            Some(id) => if exists {
                WrapKeyAction::Use { key_id: id, save: false }
            } else {
                WrapKeyAction::SearchByLabel
            },
            None => WrapKeyAction::SearchByLabel,
        },
        WrapKeyEvent::Searched(found) => match found {
            Some(id) => WrapKeyAction::Use { key_id: id, save: true },
            None => WrapKeyAction::Generate,
        },
        WrapKeyEvent::Generated(id) => WrapKeyAction::Use { key_id: id, save: true },
    }
}

/// The event that answers an action, given what the HSM holds: whether
/// the configured key exists as a wrap key, the labelled wrap key, and
/// the id a generation would give.
pub open spec fn hsm_answer(
    action: WrapKeyAction,
    configured_exists: bool,
    labelled: Option<u16>,
    generated: u16,
) -> WrapKeyEvent {
    match action {
        WrapKeyAction::Probe(_) => WrapKeyEvent::Probed(configured_exists),
        WrapKeyAction::SearchByLabel => WrapKeyEvent::Searched(labelled),
        _ => WrapKeyEvent::Generated(generated),
    }
}

/// The state after `n` answered steps from the start.
pub open spec fn wrap_key_run(
    configured: Option<u16>,
    configured_exists: bool,
    labelled: Option<u16>,
    generated: u16,
    n: nat,
) -> WrapKeyAction
    decreases n,
{
    if n == 0 {
        spec_wrap_key_step(configured, WrapKeyEvent::Start)
    } else {
        let prev = wrap_key_run(configured, configured_exists, labelled, generated, (n - 1) as nat);
        if prev is Use {
            prev
        } else {
            spec_wrap_key_step(
                configured,
                hsm_answer(prev, configured_exists, labelled, generated),
            )
        }
    }
}

/// Law: whatever the HSM answers, the search ends within three answers,
/// with the configured wrap key when the HSM still has it (nothing to
/// record), else the labelled one, else the generated one (recorded).
pub proof fn lemma_wrap_key_search(
    configured: Option<u16>,
    configured_exists: bool,
    labelled: Option<u16>,
    generated: u16,
)
    ensures
        wrap_key_run(configured, configured_exists, labelled, generated, 3) == if configured is Some
            && configured_exists {
            WrapKeyAction::Use { key_id: configured->0, save: false }
        } else if labelled is Some {
            WrapKeyAction::Use { key_id: labelled->0, save: true }
        } else {
            WrapKeyAction::Use { key_id: generated, save: true }
        },
{
    reveal_with_fuel(wrap_key_run, 4);
}

/// The configuration with the wrap key recorded and nothing else changed.
pub fn record_wrap_key(config: &mut AppConfig, key_id: u16)
    ensures
        final(config).hsm.wrap_key_id == Some(key_id),
        final(config).hsm.auth_key_id == old(config).hsm.auth_key_id,
        final(config).hsm.serial == old(config).hsm.serial,
        final(config).version == old(config).version,
        final(config).keyring == old(config).keyring,
        final(config).current_ca == old(config).current_ca,
{
    config.hsm.wrap_key_id = Some(key_id);
}

/// The configuration with the default CA recorded and nothing else changed.
pub fn record_current_ca(config: &mut AppConfig, ca_short_name: &str)
    ensures
        final(config).current_ca matches Some(c) && c@ == ca_short_name@,
        final(config).hsm == old(config).hsm,
        final(config).version == old(config).version,
        final(config).keyring == old(config).keyring,
{
    config.current_ca = Some(String::from_str(ca_short_name));
}

/// `pkm init` stops when a configuration already exists.
pub fn check_config_absent(exists: bool, config_path: &str) -> (res: Result<(), AppError>)
    ensures
        !exists <==> res is Ok,
        exists ==> (res matches Err(AppError::Usage(m)) && m@ == "config already exists at "@
            + config_path@),
{
    if exists {
        Err(AppError::Usage(String::from_str("config already exists at ").concat(config_path)))
    } else {
        Ok(())
    }
}

/// `pkm ca init` stops when the CA's directory already exists.
pub fn check_ca_dir_absent(exists: bool, ca_dir: &str) -> (res: Result<(), AppError>)
    ensures
        !exists <==> res is Ok,
        exists ==> (res matches Err(AppError::Usage(m)) && m@ == "CA directory already exists: "@
            + ca_dir@),
{
    if exists {
        Err(AppError::Usage(String::from_str("CA directory already exists: ").concat(ca_dir)))
    } else {
        Ok(())
    }
}

/// `pkm ca default` stops when the CA's directory does not exist.
pub fn check_ca_dir_present(exists: bool, ca_dir: &str) -> (res: Result<(), AppError>)
    ensures
        exists <==> res is Ok,
        !exists ==> (res matches Err(AppError::Usage(m)) && m@ == "CA directory does not exist: "@
            + ca_dir@),
{
    if exists {
        Ok(())
    } else {
        Err(AppError::Usage(String::from_str("CA directory does not exist: ").concat(ca_dir)))
    }
}

/// A command that works on a CA stops when the CA's directory does not exist.
pub fn check_ca_known(exists: bool, ca_short_name: &str) -> (res: Result<(), AppError>)
    ensures
        exists <==> res is Ok,
        !exists ==> (res matches Err(AppError::Usage(m)) && m@ == "Unknown CA `"@ + ca_short_name@
            + "`. See `pkm ca list`."@),
{
    if exists {
        Ok(())
    } else {
        Err(
            AppError::Usage(
                String::from_str("Unknown CA `").concat(ca_short_name).concat("`. See `pkm ca list`."),
            ),
        )
    }
}

/// `pkm keys remove` refuses a key that a CA's configuration uses, unless forced.
pub fn check_key_removal(key_id: u16, referenced: bool, force: bool) -> (res: Result<(), AppError>)
    ensures
        (force || !referenced) <==> res is Ok,
        !(force || !referenced) ==> (res matches Err(AppError::Usage(m)) && m@ == "key "@ + decimal(
            key_id as nat,
        ) + " is referenced by a CA config; re-run with --force"@),
{
    if !force && referenced {
        let m = String::from_str("key ").concat(crate::text::decimal_string(key_id as u64).as_str()).concat(
            " is referenced by a CA config; re-run with --force",
        );
        Err(AppError::Usage(m))
    } else {
        Ok(())
    }
}

/// How a TLS private key file is stored.
#[derive(Debug, Clone, Copy, PartialEq, Eq, Structural)]
pub enum KeyFileKind {
    /// Wrapped by the HSM, in the tool's armour.
    Wrapped,
    /// A plain PEM file, which the tool wraps when it next reads it.
    Pem,
}

/// The start of a PEM file.
pub open spec fn pem_begin() -> Seq<char> {
    "-----BEGIN"@
}

/// Whether the contents start with the text.
pub fn starts_with_text(contents: &[u8], text: &str) -> (res: bool)
    ensures
        res == has_prefix(contents@, encode_utf8(text@)),
{
    let t = text.as_bytes();
    let n = t.len();
    if contents.len() < n {
        return false;
    }
    for i in 0..n
        invariant
            n == t@.len(),
            n <= contents@.len(),
            t@ == encode_utf8(text@),
            forall|j: int| 0 <= j < i ==> contents@[j] == t@[j],
    {
        if contents[i] != t[i] {
            assert(contents@.take(n as int)[i as int] != t@[i as int]);
            return false;
        }
    }
    assert(contents@.take(n as int) =~= t@);
    true
}

/// How a TLS key file is stored: wrapped when it starts with the wrapped
/// key header, plain PEM when it starts with `-----BEGIN`, else an error
/// naming the file.
pub fn classify_key_file(contents: &[u8], key_path: &str) -> (res: Result<KeyFileKind, AppError>)
    ensures
        has_prefix(contents@, encode_utf8(wrapped_key_header())) ==> res == Ok::<
            KeyFileKind,
            AppError,
        >(KeyFileKind::Wrapped),
        !has_prefix(contents@, encode_utf8(wrapped_key_header())) && has_prefix(
            contents@,
            encode_utf8(pem_begin()),
        ) ==> res == Ok::<KeyFileKind, AppError>(KeyFileKind::Pem),
        !has_prefix(contents@, encode_utf8(wrapped_key_header())) && !has_prefix(
            contents@,
            encode_utf8(pem_begin()),
        ) ==> (res matches Err(AppError::Usage(m)) && m@ == "unsupported TLS key format: "@
            + key_path@),
{
    if is_wrapped_key(contents) {
        return Ok(KeyFileKind::Wrapped);
    }
    proof {
        reveal_strlit("-----BEGIN");
    }
    if starts_with_text(contents, "-----BEGIN") {
        return Ok(KeyFileKind::Pem);
    }
    Err(AppError::Usage(String::from_str("unsupported TLS key format: ").concat(key_path)))
}

/// A key the HSM unwrapped must not be empty.
pub fn check_unwrapped_key(key: Vec<u8>) -> (res: Result<Vec<u8>, AppError>)
    ensures
        key@.len() > 0 ==> (res matches Ok(k) && k@ == key@),
        key@.len() == 0 ==> (res matches Err(AppError::Usage(m)) && m@
            == "decrypted key is empty"@),
{
    if key.len() == 0 {
        Err(AppError::Usage(String::from_str("decrypted key is empty")))
    } else {
        Ok(key)
    }
}

/// `pkm tls export` needs the leaf's key, the leaf's certificate and the
/// CA's certificate, checked in that order.
pub fn check_export_files(
    key_exists: bool,
    key_path: &str,
    cert_exists: bool,
    cert_path: &str,
    ca_cert_exists: bool,
    ca_cert_path: &str,
) -> (res: Result<(), AppError>)
    ensures
        !key_exists ==> (res matches Err(AppError::Usage(m)) && m@ == "missing TLS key: "@
            + key_path@),
        key_exists && !cert_exists ==> (res matches Err(AppError::Usage(m)) && m@
            == "missing TLS cert: "@ + cert_path@),
        key_exists && cert_exists && !ca_cert_exists ==> (res matches Err(AppError::Usage(m)) && m@
            == "missing CA cert: "@ + ca_cert_path@),
        key_exists && cert_exists && ca_cert_exists ==> res is Ok,
{
    if !key_exists {
        return Err(AppError::Usage(String::from_str("missing TLS key: ").concat(key_path)));
    }
    if !cert_exists {
        return Err(AppError::Usage(String::from_str("missing TLS cert: ").concat(cert_path)));
    }
    if !ca_cert_exists {
        return Err(AppError::Usage(String::from_str("missing CA cert: ").concat(ca_cert_path)));
    }
    Ok(())
}

/// A PKCS#12 bundle needs a password.
pub fn check_bundle_password(password: &str) -> (res: Result<(), AppError>)
    ensures
        password@.len() > 0 <==> res is Ok,
        password@.len() == 0 ==> (res matches Err(AppError::Usage(m)) && m@
            == "password cannot be empty"@),
{
    if password.unicode_len() == 0 {
        Err(AppError::Usage(String::from_str("password cannot be empty")))
    } else {
        Ok(())
    }
}

/// What a failed `openssl pkcs12` said: its error output, else its
/// standard output, else that nothing is known, trimmed.
pub open spec fn spec_failure_detail(stderr: Seq<char>, stdout: Seq<char>) -> Seq<char> {
    if trim(stderr).len() > 0 {
        trim(stderr)
    } else if trim(stdout).len() > 0 {
        trim(stdout)
    } else {
        "unknown error"@
    }
}

/// The error for a failed `openssl pkcs12` export.
pub fn export_failure(stderr: &str, stdout: &str) -> (res: AppError)
    ensures
        res matches AppError::Usage(m) && m@ == "openssl pkcs12 export failed: "@
            + spec_failure_detail(stderr@, stdout@),
{
    let e = trim_str(stderr);
    let o = trim_str(stdout);
    let detail = if e.unicode_len() > 0 {
        e
    } else if o.unicode_len() > 0 {
        o
    } else {
        String::from_str("unknown error")
    };
    AppError::Usage(String::from_str("openssl pkcs12 export failed: ").concat(detail.as_str()))
}

/// Where an export writes a file: `<dir>/<name>.<extension>` (the PKCS#12
/// bundle `.p12`, or the split `.crt` and `.pem`, of a leaf; the `.crt` of a CA).
pub fn export_file_path(dir: &str, name: &str, extension: &str) -> (res: String)
    ensures
        res@ == path_join(dir@, name@ + "."@ + extension@),
{
    let file = String::from_str(name).concat(".").concat(extension);
    proof {
        reveal_strlit(".");
    }
    crate::store::join_path(dir, file.as_str())
}

/// What `pkm tls export` writes, by the form asked for.
#[derive(Debug)]
pub enum ExportPlan {
    /// The certificate and the private key, each to a file of its own.
    Split { cert_out: String, key_out: String },
    /// One password-protected PKCS#12 bundle.
    Bundle { out: String },
}

/// What `pkm tls export` writes for the leaf `name` into `dir`: with the
/// split form `<name>.crt` and `<name>.pem`, else the bundle `<name>.p12`.
pub fn plan_tls_export(dir: &str, name: &str, format: TlsExportFormat) -> (res: ExportPlan)
    ensures
        format == TlsExportFormat::Split ==> (res matches ExportPlan::Split { cert_out, key_out }
            && cert_out@ == path_join(dir@, name@ + ".crt"@) && key_out@ == path_join(
            dir@,
            name@ + ".pem"@,
        )),
        format == TlsExportFormat::Pkcs12 ==> (res matches ExportPlan::Bundle { out } && out@
            == path_join(dir@, name@ + ".p12"@)),
{
    proof {
        reveal_strlit(".");
        reveal_strlit("crt");
        reveal_strlit("pem");
        reveal_strlit("p12");
        reveal_strlit(".crt");
        reveal_strlit(".pem");
        reveal_strlit(".p12");
        assert("."@ + "crt"@ =~= ".crt"@);
        assert("."@ + "pem"@ =~= ".pem"@);
        assert("."@ + "p12"@ =~= ".p12"@);
        assert(forall|a: Seq<char>, b: Seq<char>, c: Seq<char>| a + b + c =~= a + (b + c));
    }
    match format {
        TlsExportFormat::Split => ExportPlan::Split {
            cert_out: export_file_path(dir, name, "crt"),
            key_out: export_file_path(dir, name, "pem"),
        },
        TlsExportFormat::Pkcs12 => ExportPlan::Bundle { out: export_file_path(dir, name, "p12") },
    }
}

/// A device serial number as the HSM's USB connector expects it: ten
/// decimal digits, zero-padded on the left.
pub open spec fn spec_serial_text(serial: u32) -> Seq<char> {
    let d = decimal(serial as nat);
    if d.len() < 10 {
        Seq::new((10 - d.len()) as nat, |i: int| '0') + d
    } else {
        d
    }
}

/// A device serial number as the HSM's USB connector expects it.
pub fn device_serial_text(serial: u32) -> (res: String)
    ensures
        res@ == spec_serial_text(serial),
{
    let d = crate::text::decimal_string(serial as u64);
    let n = d.unicode_len();
    let mut out = String::new();
    let mut k: usize = n;
    while k < 10
        invariant
            n == d@.len(),
            n <= k <= 10 || (n > 10 && k == n),
            out@ == Seq::new((k - n) as nat, |i: int| '0'),
        decreases 10 - k,
    {
        crate::text::push_char(&mut out, '0');
        assert(out@ =~= Seq::new((k + 1 - n) as nat, |i: int| '0'));
        k = k + 1;
    }
    let res = out.concat(d.as_str());
    if n >= 10 {
        assert(out@ =~= Seq::<char>::empty());
        assert(res@ =~= d@);
    }
    res
}

/// Whether a certificate file is PEM (it starts with `-----BEGIN`) rather than DER.
pub fn is_pem(contents: &[u8]) -> (res: bool)
    ensures
        res == has_prefix(contents@, encode_utf8(pem_begin())),
{
    proof {
        reveal_strlit("-----BEGIN");
    }
    starts_with_text(contents, "-----BEGIN")
}

/// `n` random bytes in lower-case hexadecimal, as used to name temporary key files.
pub fn random_hex(n: usize) -> (res: String)
    ensures
        exists|r: Seq<u8>| r.len() == n && res@ == hex_bytes(r),
        res@.len() == 2 * n,
{
    let r = crate::pki::random_bytes(n);
    let s = hex_encode(r.as_slice());
    proof {
        lemma_hex_bytes_len(r@);
    }
    s
}

} // verus!
