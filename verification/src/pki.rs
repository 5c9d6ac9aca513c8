//! Certificate profiles: the subject names, validity windows, serial
//! numbers, signature algorithms and extensions of the root CA and leaf
//! certificates that the tool issues, held as plain data.
use vstd::prelude::*;
use p256::ecdsa::signature::Verifier;
use rand_core::RngCore;
use sha1::Digest;
use der::Encode;
use p256::elliptic_curve::sec1::ToEncodedPoint;
use p256::pkcs8::EncodePrivateKey;

use crate::error::AppError;
use crate::hsm::{str_equal, AsymAlgorithm};
use crate::tls::{client_auth_oid, der_error_text, server_auth_oid};
use crate::cli::TlsAddArgs;
use crate::signing::be_value;

verus! {

/// The characters of an attribute value in RFC 4514 text: `,`, `+` and `\`
/// are written as hex escapes (`\2C`, `\2B`, `\5C`), so that they cannot
/// split or end the value; all others stand for themselves.
pub open spec fn escape_chars(v: Seq<char>) -> Seq<char>
    decreases v.len(),
{
    if v.len() == 0 {
        seq![]
    } else {
        escape_chars(v.drop_last()) + if v.last() == ',' {
            "\\2C"@
        } else if v.last() == '+' {
            "\\2B"@
        } else if v.last() == '\\' {
            "\\5C"@
        } else {
            seq![v.last()]
        }
    }
}

/// An attribute value in RFC 4514 text: its characters escaped, and a
/// leading `#` (which would start a hex value) written as `\23`.
pub open spec fn escape_dn_value(v: Seq<char>) -> Seq<char> {
    if v.len() > 0 && v[0] == '#' {
        "\\23"@ + escape_chars(v.drop_first())
    } else {
        escape_chars(v)
    }
}

/// The RFC 4514 text of a subject with a common name and an organizational unit.
pub open spec fn subject_dn_text(common_name: Seq<char>, organizational_unit: Seq<char>) -> Seq<char> {
    "CN="@ + escape_dn_value(common_name) + ",OU="@ + escape_dn_value(organizational_unit)
}

/// The characters from `start` on, escaped.
fn escape_from(v: &Vec<char>, start: usize, out: &mut String)
    requires
        start <= v@.len(),
    ensures
        final(out)@ == old(out)@ + escape_chars(v@.skip(start as int)),
{
    let ghost base = out@;
    let ghost w = v@.skip(start as int);
    let mut i = start;
    assert(w.take(0) =~= Seq::<char>::empty());
    while i < v.len()
        invariant
            start <= i <= v@.len(),
            w == v@.skip(start as int),
            out@ == base + escape_chars(w.take(i - start)),
        decreases v@.len() - i,
    {
        let c = v[i];
        proof {
            reveal_strlit("\\2C");
            reveal_strlit("\\2B");
            reveal_strlit("\\5C");
            assert(w.take(i - start + 1).drop_last() =~= w.take(i - start));
            assert(w.take(i - start + 1).last() == c);
        }
        if c == ',' {
            out.append("\\2C");
        } else if c == '+' {
            out.append("\\2B");
        } else if c == '\\' {
            out.append("\\5C");
        } else {
            crate::text::push_char(out, c);
        }
        assert(out@ =~= base + escape_chars(w.take(i - start + 1)));
        i = i + 1;
    }
    assert(w.take(i - start) =~= w);
}

/// An attribute value in RFC 4514 text (see `escape_dn_value`), appended.
fn push_dn_value(value: &str, out: &mut String)
    ensures
        final(out)@ == old(out)@ + escape_dn_value(value@),
{
    let v = crate::text::chars_of(value);
    if v.len() > 0 && v[0] == '#' {
        proof {
            reveal_strlit("\\23");
            assert(v@.skip(1) =~= value@.drop_first());
        }
        out.append("\\23");
        escape_from(&v, 1, out);
    } else {
        assert(v@.skip(0) =~= value@);
        escape_from(&v, 0, out);
    }
}

/// The DER encoding of the distinguished name that an RFC 4514 text
/// describes, when `x509-cert` accepts the text.
pub uninterp spec fn dn_der(text: Seq<char>) -> Option<Seq<u8>>;

/// `RdnSequence::encode_from_string` of `x509-cert`: parses RFC 4514 text
/// and encodes the name as DER.
#[verifier::external_body]
#[allow(deprecated)]
fn encode_name(text: &str) -> (res: Result<Vec<u8>, der::Error>)
    ensures
        match dn_der(text@) {
            Some(b) => (res matches Ok(v) && v@ == b),
            None => res is Err,
        },
{
    x509_cert::name::RdnSequence::encode_from_string(text)
}

/// The subject `CN=<common name>,OU=<organizational unit>`, DER encoded.
pub fn name_from_cn_ou(common_name: &str, organizational_unit: &str) -> (res: Result<
    Vec<u8>,
    AppError,
>)
    ensures
        match dn_der(subject_dn_text(common_name@, organizational_unit@)) {
            Some(b) => (res matches Ok(v) && v@ == b),
            None => res matches Err(AppError::X509(_)),
        },
{
    let mut text = String::from_str("CN=");
    push_dn_value(common_name, &mut text);
    text.append(",OU=");
    push_dn_value(organizational_unit, &mut text);
    proof {
        reveal_strlit("CN=");
        reveal_strlit(",OU=");
    }
    assert(text@ == subject_dn_text(common_name@, organizational_unit@));
    match encode_name(text.as_str()) {
        Ok(v) => Ok(v),
        Err(e) => Err(AppError::X509(der_error_text(&e))),
    }
}

/// Seconds in a day.
pub open spec fn day_secs() -> nat {
    86400
}

/// Clock skew allowed for a root CA's start of validity: five minutes.
pub open spec fn skew_secs() -> nat {
    300
}

/// The validity window from `now`: it starts now, or five minutes before
/// when `skew` is set, and ends `days` days after now.
pub open spec fn spec_validity_window(now: nat, days: nat, skew: bool) -> (int, int) {
    (if skew {
        now - skew_secs()
    } else {
        now as int
    }, (now + days * day_secs()) as int)
}

/// What a certificate validity computed at a clock reading comes to: the
/// window in seconds since the Unix epoch, or the text of the error. There
/// is no reading when the clock is set before the epoch; with `skew` the
/// start must not fall before the epoch; the end must fit in 64 bits.
pub open spec fn spec_validity(reading: Option<u64>, days: nat, skew: bool) -> Result<(int, int), Seq<char>> {
    match reading {
        None => Err("system time is before the Unix epoch"@),
        Some(now) => if skew && now < skew_secs() {
            Err("system time is before the Unix epoch"@)
        } else if now + days * day_secs() > u64::MAX {
            Err("certificate validity is out of range"@)
        } else {
            Ok(spec_validity_window(now as nat, days, skew))
        },
    }
}

/// The result agrees with the outcome: the same window, or an X.509 error
/// with the same text.
pub open spec fn validity_agrees(res: Result<(u64, u64), AppError>, outcome: Result<(int, int), Seq<char>>) -> bool {
    match outcome {
        Ok(w) => (res matches Ok(x) && x.0 as int == w.0 && x.1 as int == w.1),
        Err(m) => (res matches Err(AppError::X509(t)) && t@ == m),
    }
}

/// The validity window at the clock reading `now` (see `spec_validity`).
pub fn validity_window(now: u64, days: u32, skew: bool) -> (res: Result<(u64, u64), AppError>)
    ensures
        validity_agrees(res, spec_validity(Some(now), days as nat, skew)),
{
    if skew && now < 300 {
        return Err(AppError::X509(String::from_str("system time is before the Unix epoch")));
    }
    let span: u64 = (days as u64) * 86400;
    if now > u64::MAX - span {
        return Err(AppError::X509(String::from_str("certificate validity is out of range")));
    }
    let not_before = if skew {
        now - 300
    } else {
        now
    };
    Ok((not_before, now + span))
}

/// The current time in whole seconds since the Unix epoch (`SystemTime::now`),
/// or `None` when the clock is set before the epoch.
#[verifier::external_body]
fn unix_now() -> (res: Option<u64>) {
    match std::time::SystemTime::now().duration_since(std::time::UNIX_EPOCH) {
        Ok(d) => Some(d.as_secs()),
        Err(_) => None,
    }
}

/// The validity window of `days` days from the current time: what
/// `spec_validity` gives for the clock's reading.
pub fn validity_from_now_days(days: u32, skew: bool) -> (res: Result<(u64, u64), AppError>)
    ensures
        exists|reading: Option<u64>| validity_agrees(res, spec_validity(reading, days as nat, skew)),
{
    match unix_now() {
        Some(t) => validity_window(t, days, skew),
        None => {
            let res: Result<(u64, u64), AppError> = Err(
                AppError::X509(String::from_str("system time is before the Unix epoch")),
            );
            assert(validity_agrees(res, spec_validity(None, days as nat, skew)));
            res
        },
    }
}

/// `n` bytes from the operating system's random source (`OsRng::fill_bytes`).
#[verifier::external_body]
pub(crate) fn random_bytes(n: usize) -> (res: Vec<u8>)
    ensures
        res@.len() == n,
{
    let mut bytes = vec![0u8; n];
    rand_core::OsRng.fill_bytes(&mut bytes);
    bytes
}

/// Every byte is zero.
pub open spec fn all_zero(b: Seq<u8>) -> bool {
    forall|i: int| 0 <= i < b.len() ==> b[i] == 0
}

/// The serial number made from random bytes: the bytes themselves, but
/// with the last byte set to one when all of them are zero.
pub open spec fn spec_serial_bytes(b: Seq<u8>) -> Seq<u8> {
    if all_zero(b) && b.len() > 0 {
        b.update(b.len() - 1, 1u8)
    } else {
        b
    }
}

/// The serial number made from random bytes (never zero).
pub fn serial_from_random(bytes: Vec<u8>) -> (res: Vec<u8>)
    ensures
        res@ == spec_serial_bytes(bytes@),
{
    let mut b = bytes;
    let mut zero = true;
    for i in 0..b.len()
        invariant
            zero == all_zero(b@.take(i as int)),
    {
        assert(b@.take(i + 1) =~= b@.take(i as int).push(b@[i as int]));
        if b[i] != 0 {
            zero = false;
            assert(b@.take(i + 1)[i as int] != 0);
        } else {
            assert(all_zero(b@.take(i + 1)) == all_zero(b@.take(i as int))) by {
                if all_zero(b@.take(i as int)) {
                    assert forall|k: int| 0 <= k < i + 1 implies #[trigger] b@.take(i + 1)[k] == 0 by {
                        if k < i {
                            assert(b@.take(i + 1)[k] == b@.take(i as int)[k]);
                        }
                    }
                }
                if all_zero(b@.take(i + 1)) {
                    assert forall|k: int| 0 <= k < i implies #[trigger] b@.take(i as int)[k] == 0 by {
                        assert(b@.take(i + 1)[k] == b@.take(i as int)[k]);
                    }
                }
            }
        }
    }
    assert(b@.take(b@.len() as int) =~= b@);
    let n = b.len();
    if zero && n > 0 {
        b.set(n - 1, 1);
    }
    b
}

/// A fresh random serial number of sixteen bytes, not all zero.
pub fn random_serial() -> (res: Vec<u8>)
    ensures
        res@.len() == 16,
        !all_zero(res@),
        exists|r: Seq<u8>| r.len() == 16 && res@ == spec_serial_bytes(r),
{
    let r = random_bytes(16);
    let s = serial_from_random(r);
    assert(!all_zero(s@)) by {
        if all_zero(r@) {
            assert(s@[15] == 1);
        }
    }
    s
}

/// The dotted OID of the certificate signature algorithm for a CA key:
/// ECDSA with SHA-256 for P-256 and with SHA-384 for P-384.
pub open spec fn spec_signature_oid(algorithm: AsymAlgorithm) -> Option<Seq<char>> {
    match algorithm {
        AsymAlgorithm::EcP256 => Some("1.2.840.10045.4.3.2"@),
        AsymAlgorithm::EcP384 => Some("1.2.840.10045.4.3.3"@),
        _ => None,
    }
}

/// The signature algorithm of certificates signed by a key of the
/// algorithm; other algorithms cannot sign certificates.
pub fn signature_algorithm_identifier(algorithm: AsymAlgorithm) -> (res: Result<String, AppError>)
    ensures
        match spec_signature_oid(algorithm) {
            Some(o) => (res matches Ok(s) && s@ == o),
            None => (res matches Err(AppError::Usage(m)) && m@
                == "unsupported CA key algorithm for signing"@),
        },
{
    match algorithm {
        AsymAlgorithm::EcP256 => Ok(String::from_str("1.2.840.10045.4.3.2")),
        AsymAlgorithm::EcP384 => Ok(String::from_str("1.2.840.10045.4.3.3")),
        _ => Err(AppError::Usage(String::from_str("unsupported CA key algorithm for signing"))),
    }
}

/// The name recorded in a CA's configuration for its signature algorithm.
pub open spec fn spec_signature_name(algorithm: AsymAlgorithm) -> Seq<char> {
    match algorithm {
        AsymAlgorithm::EcP256 => "ecdsa-p256-sha256"@,
        AsymAlgorithm::EcP384 => "ecdsa-p384-sha384"@,
        _ => "unknown"@,
    }
}

/// The name recorded in a CA's configuration for its signature algorithm.
pub fn signature_name(algorithm: AsymAlgorithm) -> (res: &'static str)
    ensures
        res@ == spec_signature_name(algorithm),
{
    match algorithm {
        AsymAlgorithm::EcP256 => "ecdsa-p256-sha256",
        AsymAlgorithm::EcP384 => "ecdsa-p384-sha384",
        _ => "unknown",
    }
}

/// HSM public keys that can become a certificate's subject key: P-256 only.
pub fn check_hsm_public_key_algorithm(algorithm: AsymAlgorithm) -> (res: Result<(), AppError>)
    ensures
        algorithm == AsymAlgorithm::EcP256 <==> res is Ok,
        res is Err ==> (res matches Err(AppError::Usage(m)) && m@
            == "unsupported HSM public key algorithm"@),
{
    match algorithm {
        AsymAlgorithm::EcP256 => Ok(()),
        _ => Err(AppError::Usage(String::from_str("unsupported HSM public key algorithm"))),
    }
}

/// The SHA-1 digest of the data.
pub uninterp spec fn sha1(data: Seq<u8>) -> Seq<u8>;

/// `Sha1::digest` of the `sha1` crate: 20 bytes.
#[verifier::external_body]
fn sha1_digest(data: &[u8]) -> (res: Vec<u8>)
    ensures
        res@ == sha1(data@),
        res@.len() == 20,
{
    sha1::Sha1::digest(data).to_vec()
}

/// The key identifier of a public key: the SHA-1 digest of the bits of its
/// subject public key (RFC 5280, method 1).
pub fn key_identifier_from_spki(subject_public_key: &[u8]) -> (res: Vec<u8>)
    ensures
        res@ == sha1(subject_public_key@),
        res@.len() == 20,
{
    sha1_digest(subject_public_key)
}

/// A subject alternative name of a leaf certificate.
#[derive(Debug)]
pub enum HostName {
    Dns(String),
    /// The octets of an IPv4 or IPv6 address.
    Ip(Vec<u8>),
}

/// The content of a subject alternative name.
pub enum HostNameView {
    Dns(Seq<char>),
    Ip(Seq<u8>),
}

impl HostName {
    pub open spec fn view(&self) -> HostNameView {
        match self {
            HostName::Dns(s) => HostNameView::Dns(s@),
            HostName::Ip(b) => HostNameView::Ip(b@),
        }
    }
}

/// One extension of a certificate profile.
#[derive(Debug)]
pub enum ExtensionPlan {
    /// Whether the subject is a CA, and how many CAs may follow it in a chain.
    BasicConstraints { ca: bool, path_len: Option<u8> },
    KeyUsage { digital_signature: bool, key_cert_sign: bool, crl_sign: bool },
    /// Key purposes as dotted OIDs.
    ExtendedKeyUsage(Vec<String>),
    SubjectAltName(Vec<HostName>),
    SubjectKeyIdentifier(Vec<u8>),
    AuthorityKeyIdentifier(Vec<u8>),
}

/// The content of an extension of a certificate profile.
pub enum ExtensionView {
    BasicConstraints { ca: bool, path_len: Option<u8> },
    KeyUsage { digital_signature: bool, key_cert_sign: bool, crl_sign: bool },
    ExtendedKeyUsage(Seq<Seq<char>>),
    SubjectAltName(Seq<HostNameView>),
    SubjectKeyIdentifier(Seq<u8>),
    AuthorityKeyIdentifier(Seq<u8>),
}

impl ExtensionPlan {
    pub open spec fn view(&self) -> ExtensionView {
        match self {
            ExtensionPlan::BasicConstraints { ca, path_len } => ExtensionView::BasicConstraints {
                ca: *ca,
                path_len: *path_len,
            },
            ExtensionPlan::KeyUsage { digital_signature, key_cert_sign, crl_sign } =>
                ExtensionView::KeyUsage {
                digital_signature: *digital_signature,
                key_cert_sign: *key_cert_sign,
                crl_sign: *crl_sign,
            },
            ExtensionPlan::ExtendedKeyUsage(v) => ExtensionView::ExtendedKeyUsage(
                v@.map_values(|s: String| s@),
            ),
            ExtensionPlan::SubjectAltName(v) => ExtensionView::SubjectAltName(
                v@.map_values(|h: HostName| h.view()),
            ),
            ExtensionPlan::SubjectKeyIdentifier(b) => ExtensionView::SubjectKeyIdentifier(b@),
            ExtensionPlan::AuthorityKeyIdentifier(b) => ExtensionView::AuthorityKeyIdentifier(b@),
        }
    }
}

/// Everything of a version 3 certificate but its subject public key and
/// signature: names as DER, the serial as big-endian bytes, the validity
/// in seconds since the Unix epoch, the signature algorithm as a dotted
/// OID, and the extensions in order.
#[derive(Debug)]
pub struct CertProfile {
    pub subject: Vec<u8>,
    pub issuer: Vec<u8>,
    pub serial: Vec<u8>,
    pub not_before: u64,
    pub not_after: u64,
    pub signature_oid: String,
    pub extensions: Vec<ExtensionPlan>,
}

/// The extensions of the profile, by content.
pub open spec fn extension_views(p: CertProfile) -> Seq<ExtensionView> {
    p.extensions@.map_values(|e: ExtensionPlan| e.view())
}

/// The extensions of a self-signed root CA: a CA basic constraint, key
/// usage for signing certificates and CRLs, and the same key identifier
/// as subject and authority key identifier.
pub open spec fn root_ca_extensions(key_id: Seq<u8>) -> Seq<ExtensionView> {
    seq![
        ExtensionView::BasicConstraints { ca: true, path_len: None },
        ExtensionView::KeyUsage { digital_signature: false, key_cert_sign: true, crl_sign: true },
        ExtensionView::SubjectKeyIdentifier(key_id),
        ExtensionView::AuthorityKeyIdentifier(key_id),
    ]
}

/// The profile of a self-signed root CA certificate: the issuer is the
/// subject, and both key identifiers are those of the CA's own key.
pub fn build_root_ca(
    subject: Vec<u8>,
    serial: Vec<u8>,
    validity: (u64, u64),
    subject_public_key: &[u8],
    signature_oid: String,
) -> (res: CertProfile)
    ensures
        res.subject@ == subject@,
        res.issuer@ == subject@,
        res.serial@ == serial@,
        res.not_before == validity.0,
        res.not_after == validity.1,
        res.signature_oid@ == signature_oid@,
        extension_views(res) == root_ca_extensions(sha1(subject_public_key@)),
{
    let ski = key_identifier_from_spki(subject_public_key);
    let aki = key_identifier_from_spki(subject_public_key);
    let mut extensions: Vec<ExtensionPlan> = Vec::new();
    extensions.push(ExtensionPlan::BasicConstraints { ca: true, path_len: None });
    extensions.push(
        ExtensionPlan::KeyUsage { digital_signature: false, key_cert_sign: true, crl_sign: true },
    );
    extensions.push(ExtensionPlan::SubjectKeyIdentifier(ski));
    extensions.push(ExtensionPlan::AuthorityKeyIdentifier(aki));
    let issuer = subject.clone();
    let res = CertProfile {
        subject,
        issuer,
        serial,
        not_before: validity.0,
        not_after: validity.1,
        signature_oid,
        extensions,
    };
    assert(extension_views(res) =~= root_ca_extensions(sha1(subject_public_key@)));
    res
}

/// The key purposes of a leaf: client authentication when asked for,
/// then server authentication when asked for.
pub open spec fn leaf_purposes(client: bool, server: bool) -> Seq<Seq<char>> {
    (if client {
        seq![client_auth_oid()]
    } else {
        seq![]
    }) + (if server {
        seq![server_auth_oid()]
    } else {
        seq![]
    })
}

/// The subject alternative name of each host: its address when the host
/// is an IP address, else the host as a DNS name.
pub open spec fn host_names(hosts: Seq<Seq<char>>, addresses: Seq<Option<Seq<u8>>>) -> Seq<
    HostNameView,
> {
    Seq::new(
        hosts.len(),
        |i: int|
            match addresses[i] {
                Some(b) => HostNameView::Ip(b),
                None => HostNameView::Dns(hosts[i]),
            },
    )
}

/// The text is ASCII, as an IA5String must be.
pub open spec fn is_ia5(s: Seq<char>) -> bool {
    forall|i: int| 0 <= i < s.len() ==> (s[i] as u32) <= 0x7f
}

/// Every host that goes in as a DNS name is ASCII, with a length that fits
/// a DER length.
pub open spec fn dns_hosts_ia5(hosts: Seq<Seq<char>>, addresses: Seq<Option<Seq<u8>>>) -> bool {
    forall|i: int|
        0 <= i < hosts.len() && addresses[i] is None ==> is_ia5(#[trigger] hosts[i])
            && hosts[i].len() <= 0x0FFF_FFFF
}

/// The extensions of a leaf certificate: an end-entity basic constraint,
/// key usage for digital signatures, the key purposes, the hosts as
/// subject alternative names when there are any, and the key identifiers
/// of the leaf's key and of the issuing CA's key.
pub open spec fn leaf_extensions(
    client: bool,
    server: bool,
    names: Seq<HostNameView>,
    subject_key_id: Seq<u8>,
    issuer_key_id: Seq<u8>,
) -> Seq<ExtensionView> {
    seq![
        ExtensionView::BasicConstraints { ca: false, path_len: None },
        ExtensionView::KeyUsage { digital_signature: true, key_cert_sign: false, crl_sign: false },
        ExtensionView::ExtendedKeyUsage(leaf_purposes(client, server)),
    ] + (if names.len() > 0 {
        seq![ExtensionView::SubjectAltName(names)]
    } else {
        seq![]
    }) + seq![
        ExtensionView::SubjectKeyIdentifier(subject_key_id),
        ExtensionView::AuthorityKeyIdentifier(issuer_key_id),
    ]
}

/// The extended key usage of a certificate profile lists TLS client
/// authentication (`1.3.6.1.5.5.7.3.2`) exactly when client use is asked
/// for and TLS server authentication (`1.3.6.1.5.5.7.3.1`) exactly when
/// server use is asked for, client first: a client-only leaf can
/// authenticate clients and nothing else.
pub open spec fn purposes_as_asked(p: CertProfile, client: bool, server: bool) -> bool {
    &&& extension_views(p).len() > 2
    &&& extension_views(p)[2] matches ExtensionView::ExtendedKeyUsage(oids)
    &&& (client && !server ==> oids == seq!["1.3.6.1.5.5.7.3.2"@])
    &&& (!client && server ==> oids == seq!["1.3.6.1.5.5.7.3.1"@])
    &&& (client && server ==> oids == seq!["1.3.6.1.5.5.7.3.2"@, "1.3.6.1.5.5.7.3.1"@])
}

proof fn lemma_leaf_purposes_as_asked(client: bool, server: bool)
    requires
        client || server,
    ensures
        forall|p: CertProfile, names: Seq<HostNameView>, s: Seq<u8>, i: Seq<u8>|
            #![trigger extension_views(p), leaf_extensions(client, server, names, s, i)]
            extension_views(p) == leaf_extensions(client, server, names, s, i)
                ==> purposes_as_asked(p, client, server),
{
    assert forall|p: CertProfile, names: Seq<HostNameView>, s: Seq<u8>, i: Seq<u8>|
        #![trigger extension_views(p), leaf_extensions(client, server, names, s, i)]
        extension_views(p) == leaf_extensions(client, server, names, s, i)
            implies purposes_as_asked(p, client, server) by {
        let e = leaf_extensions(client, server, names, s, i);
        assert(e[2] == ExtensionView::ExtendedKeyUsage(leaf_purposes(client, server)));
        if client && !server {
            assert(leaf_purposes(client, server) =~= seq!["1.3.6.1.5.5.7.3.2"@]);
        }
        if !client && server {
            assert(leaf_purposes(client, server) =~= seq!["1.3.6.1.5.5.7.3.1"@]);
        }
        if client && server {
            assert(leaf_purposes(client, server) =~= seq!["1.3.6.1.5.5.7.3.2"@, "1.3.6.1.5.5.7.3.1"@]);
        }
    }
}

/// Law: whatever issues a leaf as `leaf_result` describes (`build_leaf_cert`,
/// `leaf_profile_for_ca`), an issued leaf's extended key usage is exactly
/// the purposes asked for: client authentication for `--client`, server
/// authentication for `--server`.
pub proof fn lemma_leaf_key_purposes(
    res: Result<CertProfile, AppError>,
    subject: Seq<u8>,
    issuer: Seq<u8>,
    serial: Seq<u8>,
    validity: (u64, u64),
    signature_oid: Seq<char>,
    args: &TlsAddArgs,
    host_addresses: &Vec<Option<Vec<u8>>>,
    subject_key_bits: Seq<u8>,
    issuer_key_bits: Seq<u8>,
)
    requires
        leaf_result(
            res,
            subject,
            issuer,
            serial,
            validity,
            signature_oid,
            args,
            host_addresses,
            subject_key_bits,
            issuer_key_bits,
        ),
    ensures
        res matches Ok(p) ==> purposes_as_asked(p, args.client, args.server),
{
    if args.client || args.server {
        lemma_leaf_purposes_as_asked(args.client, args.server);
    }
}

/// What issuing a leaf comes to: a usage error when neither client nor
/// server use is asked for; an X.509 error when a DNS host is not ASCII or
/// too long; otherwise the leaf profile with the given fields, the key
/// purposes and hosts asked for, and the key identifiers of the two keys.
pub open spec fn leaf_result(
    res: Result<CertProfile, AppError>,
    subject: Seq<u8>,
    issuer: Seq<u8>,
    serial: Seq<u8>,
    validity: (u64, u64),
    signature_oid: Seq<char>,
    args: &TlsAddArgs,
    host_addresses: &Vec<Option<Vec<u8>>>,
    subject_key_bits: Seq<u8>,
    issuer_key_bits: Seq<u8>,
) -> bool {
    let hosts = args.hosts@.map_values(|s: String| s@);
    let addresses = host_addresses@.map_values(|a: Option<Vec<u8>>| opt_bytes(a));
    (!args.client && !args.server ==> (res matches Err(AppError::Usage(m)) && m@
        == "at least one of --client or --server is required"@)) && ((args.client || args.server)
        && !dns_hosts_ia5(hosts, addresses) ==> (res matches Err(AppError::X509(_)))) && ((
    args.client || args.server) && dns_hosts_ia5(hosts, addresses) ==> (res matches Ok(p)
        && p.subject@ == subject && p.issuer@ == issuer && p.serial@ == serial && p.not_before
        == validity.0 && p.not_after == validity.1 && p.signature_oid@ == signature_oid
        && extension_views(p) == leaf_extensions(
        args.client,
        args.server,
        host_names(hosts, addresses),
        sha1(subject_key_bits),
        sha1(issuer_key_bits),
    )))
}

/// `Ia5StringRef::new` of `der`: `Ok` exactly for ASCII text whose length
/// fits a DER length (at most `0x0FFF_FFFF` bytes, one per ASCII character).
#[verifier::external_body]
fn ia5_check(s: &str) -> (res: Result<(), der::Error>)
    ensures
        (res is Ok) <==> (is_ia5(s@) && s@.len() <= 0x0FFF_FFFF),
{
    der::asn1::Ia5StringRef::new(s).map(|_| ())
}

/// The profile of a TLS leaf certificate issued by a CA. `host_addresses`
/// holds, for each host of `args`, its octets when it is an IP address.
/// Fails when neither client nor server use is asked for, or when a DNS
/// host is not ASCII or longer than a DER length allows.
pub fn build_leaf_cert(
    subject: Vec<u8>,
    issuer: Vec<u8>,
    serial: Vec<u8>,
    validity: (u64, u64),
    subject_public_key: &[u8],
    issuer_public_key: &[u8],
    signature_oid: String,
    args: &TlsAddArgs,
    host_addresses: &Vec<Option<Vec<u8>>>,
) -> (res: Result<CertProfile, AppError>)
    requires
        host_addresses@.len() == args.hosts@.len(),
    ensures
        leaf_result(
            res,
            subject@,
            issuer@,
            serial@,
            validity,
            signature_oid@,
            args,
            host_addresses,
            subject_public_key@,
            issuer_public_key@,
        ),
        res matches Ok(p) ==> purposes_as_asked(p, args.client, args.server),
{
    proof {
        if args.client || args.server {
            lemma_leaf_purposes_as_asked(args.client, args.server);
        }
    }
    if !args.client && !args.server {
        return Err(AppError::Usage(String::from_str("at least one of --client or --server is required")));
    }
    let ski = key_identifier_from_spki(subject_public_key);
    let aki = key_identifier_from_spki(issuer_public_key);
    let mut eku: Vec<String> = Vec::new();
    if args.client {
        eku.push(String::from_str("1.3.6.1.5.5.7.3.2"));
    }
    if args.server {
        eku.push(String::from_str("1.3.6.1.5.5.7.3.1"));
    }
    proof {
        reveal_strlit("1.3.6.1.5.5.7.3.2");
        reveal_strlit("1.3.6.1.5.5.7.3.1");
        assert(eku@.map_values(|s: String| s@) =~= leaf_purposes(args.client, args.server));
    }
    let ghost hv = args.hosts@.map_values(|s: String| s@);
    let ghost av = host_addresses@.map_values(|a: Option<Vec<u8>>| opt_bytes(a));
    let mut san: Vec<HostName> = Vec::new();
    for i in 0..args.hosts.len()
        invariant
            args.client || args.server,
            host_addresses@.len() == args.hosts@.len(),
            hv == args.hosts@.map_values(|s: String| s@),
            av == host_addresses@.map_values(|a: Option<Vec<u8>>| opt_bytes(a)),
            forall|k: int| 0 <= k < i && av[k] is None ==> is_ia5(#[trigger] hv[k]) && hv[k].len() <= 0x0FFF_FFFF,
            san@.map_values(|h: HostName| h.view()) == host_names(hv, av).take(i as int),
    {
        let host = &args.hosts[i];
        assert(hv[i as int] == host@);
        assert(av[i as int] == opt_bytes(host_addresses@[i as int]));
        let ghost before = san@.map_values(|h: HostName| h.view());
        match &host_addresses[i] {
            Some(b) => {
                assert(av[i as int] == Some(b@));
                san.push(HostName::Ip(b.clone()));
                assert(san@.map_values(|h: HostName| h.view()) =~= before.push(HostNameView::Ip(b@)));
            },
            None => {
                match ia5_check(host.as_str()) {
                    Ok(()) => {},
                    Err(e) => {
                        assert(!dns_hosts_ia5(hv, av));
                        return Err(AppError::X509(der_error_text(&e)));
                    },
                }
                assert(av[i as int] is None);
                san.push(HostName::Dns(host.clone()));
                assert(san@.map_values(|h: HostName| h.view()) =~= before.push(HostNameView::Dns(host@)));
            },
        }
        assert(san@.map_values(|h: HostName| h.view()) =~= host_names(hv, av).take(i + 1));
    }
    assert(host_names(hv, av).take(hv.len() as int) =~= host_names(hv, av));
    let mut extensions: Vec<ExtensionPlan> = Vec::new();
    extensions.push(ExtensionPlan::BasicConstraints { ca: false, path_len: None });
    extensions.push(
        ExtensionPlan::KeyUsage { digital_signature: true, key_cert_sign: false, crl_sign: false },
    );
    extensions.push(ExtensionPlan::ExtendedKeyUsage(eku));
    let has_hosts = args.hosts.len() > 0;
    if has_hosts {
        extensions.push(ExtensionPlan::SubjectAltName(san));
    }
    extensions.push(ExtensionPlan::SubjectKeyIdentifier(ski));
    extensions.push(ExtensionPlan::AuthorityKeyIdentifier(aki));
    let res = CertProfile {
        subject,
        issuer,
        serial,
        not_before: validity.0,
        not_after: validity.1,
        signature_oid,
        extensions,
    };
    assert(extension_views(res) =~= leaf_extensions(
        args.client,
        args.server,
        host_names(hv, av),
        sha1(subject_public_key@),
        sha1(issuer_public_key@),
    ));
    Ok(res)
}

/// The content of an optional byte vector.
pub open spec fn opt_bytes(a: Option<Vec<u8>>) -> Option<Seq<u8>> {
    match a {
        Some(v) => Some(v@),
        None => None,
    }
}

/// OID of an elliptic-curve public key.
pub open spec fn ec_public_key_oid() -> Seq<char> {
    "1.2.840.10045.2.1"@
}

/// OID of the NIST P-256 curve.
pub open spec fn p256_curve_oid() -> Seq<char> {
    "1.2.840.10045.3.1.7"@
}

/// A certificate signing request the tool signs: an elliptic-curve key on
/// P-256, self-signed with ECDSA and SHA-256.
pub open spec fn csr_supported(key_algorithm: Seq<char>, curve: Option<Seq<char>>, signature_algorithm: Seq<char>) -> bool {
    &&& key_algorithm == ec_public_key_oid()
    &&& curve == Some(p256_curve_oid())
    &&& signature_algorithm == "1.2.840.10045.4.3.2"@
}

/// Whether an ECDSA P-256 signature (DER) over the message verifies under
/// the public key (a SEC1 point).
pub uninterp spec fn p256_signature_valid(public_key: Seq<u8>, message: Seq<u8>, signature: Seq<u8>) -> bool;

/// `VerifyingKey::verify` of `p256`, with the key read by `from_sec1_bytes`
/// and the signature by `Signature::from_der`; a key or signature that does
/// not parse does not verify.
#[verifier::external_body]
fn verify_p256(public_key: &[u8], message: &[u8], signature: &[u8]) -> (res: bool)
    ensures
        res == p256_signature_valid(public_key@, message@, signature@),
{
    let key = match p256::ecdsa::VerifyingKey::from_sec1_bytes(public_key) {
        Ok(k) => k,
        Err(_) => return false,
    };
    match p256::ecdsa::Signature::from_der(signature) {
        Ok(sig) => key.verify(message, &sig).is_ok(),
        Err(_) => false,
    }
}

/// A CSR is signed only when its algorithms are supported and then only
/// when its self-signature over its request info verifies under its own
/// key, checked in that order. The algorithms are dotted OIDs; `curve` is
/// the key's curve parameter; `public_key` the bits of its subject public key.
pub fn check_csr(
    key_algorithm: &str,
    curve: &Option<String>,
    signature_algorithm: &str,
    public_key: &[u8],
    request_info: &[u8],
    signature: &[u8],
) -> (res: Result<(), AppError>)
    ensures
        !csr_supported(key_algorithm@, opt_str_view(curve), signature_algorithm@) ==> (res matches Err(
            AppError::Usage(m),
        ) && m@ == "only ECDSA P-256 / SHA-256 CSRs are accepted"@),
        csr_supported(key_algorithm@, opt_str_view(curve), signature_algorithm@)
            && !p256_signature_valid(public_key@, request_info@, signature@) ==> (res matches Err(
            AppError::Usage(m),
        ) && m@ == "CSR signature does not verify"@),
        csr_supported(key_algorithm@, opt_str_view(curve), signature_algorithm@)
            && p256_signature_valid(public_key@, request_info@, signature@) ==> res is Ok,
{
    proof {
        reveal_strlit("1.2.840.10045.2.1");
        reveal_strlit("1.2.840.10045.3.1.7");
        reveal_strlit("1.2.840.10045.4.3.2");
    }
    let curve_ok = match curve {
        Some(c) => str_equal(c.as_str(), "1.2.840.10045.3.1.7"),
        None => false,
    };
    let ok = str_equal(key_algorithm, "1.2.840.10045.2.1") && curve_ok && str_equal(
        signature_algorithm,
        "1.2.840.10045.4.3.2",
    );
    if !ok {
        return Err(AppError::Usage(String::from_str("only ECDSA P-256 / SHA-256 CSRs are accepted")));
    }
    if !verify_p256(public_key, request_info, signature) {
        return Err(AppError::Usage(String::from_str("CSR signature does not verify")));
    }
    Ok(())
}

/// The content of an optional string.
pub open spec fn opt_str_view(o: &Option<String>) -> Option<Seq<char>> {
    match o {
        Some(s) => Some(s@),
        None => None,
    }
}

/// The end of a subordinate CA's validity: the requested number of days
/// from now, cut back to the end of the issuing CA's validity.
pub open spec fn spec_clamped_end(now: int, days: nat, ca_not_after: int) -> int {
    if now + days * day_secs() <= ca_not_after {
        now + days * day_secs()
    } else {
        ca_not_after
    }
}

/// The message when the issuing CA's certificate is no longer valid.
pub open spec fn expired_ca_message() -> Seq<char> {
    "the issuing CA certificate has expired"@
}

/// The validity of a subordinate CA issued at `now`: from now for the
/// requested days, but never past the issuing CA's `not_after`; an error
/// when that moment has passed.
pub fn clamp_validity(now: u64, days: u32, ca_not_after: i64) -> (res: Result<(u64, u64), AppError>)
    ensures
        ca_not_after <= now ==> (res matches Err(AppError::Usage(m)) && m@ == expired_ca_message()),
        ca_not_after > now ==> (res matches Ok(w) && w.0 == now && w.1 as int == spec_clamped_end(
            now as int,
            days as nat,
            ca_not_after as int,
        )),
{
    if ca_not_after <= 0 || (ca_not_after as u64) <= now {
        return Err(AppError::Usage(String::from_str("the issuing CA certificate has expired")));
    }
    let wanted: u64 = now + (days as u64) * 86400;
    let limit = ca_not_after as u64;
    if wanted <= limit {
        Ok((now, wanted))
    } else {
        Ok((now, limit))
    }
}

/// What the validity of a subordinate CA computed at a clock reading comes
/// to (see `clamp_validity`): the window, or the error's kind and text.
pub open spec fn spec_subordinate_validity(reading: Option<u64>, days: nat, ca_not_after: int) -> Result<(int, int), (bool, Seq<char>)> {
    match reading {
        None => Err((false, "system time is before the Unix epoch"@)),
        Some(now) => if ca_not_after <= now {
            Err((true, expired_ca_message()))
        } else {
            Ok((now as int, spec_clamped_end(now as int, days, ca_not_after)))
        },
    }
}

/// The validity of a subordinate CA issued now: what
/// `spec_subordinate_validity` gives for the clock's reading, an expired CA
/// being a usage error and a clock before the epoch an X.509 error.
pub fn subordinate_validity(days: u32, ca_not_after: i64) -> (res: Result<(u64, u64), AppError>)
    ensures
        exists|reading: Option<u64>|
            match #[trigger] spec_subordinate_validity(reading, days as nat, ca_not_after as int) {
                Ok(w) => (res matches Ok(x) && x.0 as int == w.0 && x.1 as int == w.1),
                Err((usage, m)) => if usage {
                    res matches Err(AppError::Usage(t)) && t@ == m
                } else {
                    res matches Err(AppError::X509(t)) && t@ == m
                },
            },
{
    match unix_now() {
        Some(now) => {
            let res = clamp_validity(now, days, ca_not_after);
            assert(match spec_subordinate_validity(Some(now), days as nat, ca_not_after as int) {
                Ok(w) => (res matches Ok(x) && x.0 as int == w.0 && x.1 as int == w.1),
                Err((usage, m)) => if usage {
                    res matches Err(AppError::Usage(t)) && t@ == m
                } else {
                    res matches Err(AppError::X509(t)) && t@ == m
                },
            });
            res
        },
        None => {
            let res: Result<(u64, u64), AppError> = Err(
                AppError::X509(String::from_str("system time is before the Unix epoch")),
            );
            assert(match spec_subordinate_validity(None, days as nat, ca_not_after as int) {
                Ok(w) => (res matches Ok(x) && x.0 as int == w.0 && x.1 as int == w.1),
                Err((usage, m)) => if usage {
                    res matches Err(AppError::Usage(t)) && t@ == m
                } else {
                    res matches Err(AppError::X509(t)) && t@ == m
                },
            });
            res
        },
    }
}

/// The extensions of a subordinate CA: a CA basic constraint with the
/// path length, key usage for signing certificates and CRLs, and the key
/// identifiers of the subordinate's key and of the issuing CA's key.
pub open spec fn subordinate_ca_extensions(path_len: u8, subject_key_id: Seq<u8>, issuer_key_id: Seq<u8>) -> Seq<ExtensionView> {
    seq![
        ExtensionView::BasicConstraints { ca: true, path_len: Some(path_len) },
        ExtensionView::KeyUsage { digital_signature: false, key_cert_sign: true, crl_sign: true },
        ExtensionView::SubjectKeyIdentifier(subject_key_id),
        ExtensionView::AuthorityKeyIdentifier(issuer_key_id),
    ]
}

/// The profile of a subordinate CA certificate for the subject and key of
/// a certificate signing request, issued by an HSM-backed CA.
pub fn build_subordinate_ca(
    subject: Vec<u8>,
    issuer: Vec<u8>,
    serial: Vec<u8>,
    validity: (u64, u64),
    subject_public_key: &[u8],
    issuer_public_key: &[u8],
    signature_oid: String,
    path_len: u8,
) -> (res: CertProfile)
    ensures
        res.subject@ == subject@,
        res.issuer@ == issuer@,
        res.serial@ == serial@,
        res.not_before == validity.0,
        res.not_after == validity.1,
        res.signature_oid@ == signature_oid@,
        extension_views(res) == subordinate_ca_extensions(
            path_len,
            sha1(subject_public_key@),
            sha1(issuer_public_key@),
        ),
{
    let ski = key_identifier_from_spki(subject_public_key);
    let aki = key_identifier_from_spki(issuer_public_key);
    let mut extensions: Vec<ExtensionPlan> = Vec::new();
    extensions.push(ExtensionPlan::BasicConstraints { ca: true, path_len: Some(path_len) });
    extensions.push(
        ExtensionPlan::KeyUsage { digital_signature: false, key_cert_sign: true, crl_sign: true },
    );
    extensions.push(ExtensionPlan::SubjectKeyIdentifier(ski));
    extensions.push(ExtensionPlan::AuthorityKeyIdentifier(aki));
    let res = CertProfile {
        subject,
        issuer,
        serial,
        not_before: validity.0,
        not_after: validity.1,
        signature_oid,
        extensions,
    };
    assert(extension_views(res) =~= subordinate_ca_extensions(
        path_len,
        sha1(subject_public_key@),
        sha1(issuer_public_key@),
    ));
    res
}

/// The DER subject public key info of a P-256 key held by the HSM, given as
/// the raw `x || y` bytes the HSM reports.
pub uninterp spec fn p256_hsm_key_spki(bytes: Seq<u8>) -> Option<Seq<u8>>;

/// `PublicKey::ecdsa::<NistP256>` of `yubihsm` on the bytes, then
/// `VerifyingKey::from_encoded_point` of `p256`, then
/// `SubjectPublicKeyInfoOwned::from_key` and `to_der` of `spki`; `None`
/// when any of them fails.
#[verifier::external_body]
fn spki_of_hsm_p256_key(bytes: &[u8]) -> (res: Option<Vec<u8>>)
    ensures
        match p256_hsm_key_spki(bytes@) {
            Some(d) => (res matches Some(v) && v@ == d),
            None => res is None,
        },
{
    let algorithm = yubihsm::asymmetric::Algorithm::EcP256;
    let key = yubihsm::asymmetric::PublicKey { algorithm, bytes: bytes.to_vec() };
    let verifying = p256::ecdsa::VerifyingKey::from_encoded_point(&key.ecdsa::<p256::NistP256>()?).ok()?;
    spki::SubjectPublicKeyInfoOwned::from_key(verifying).ok()?.to_der().ok()
}

/// The subject public key info (DER) of an HSM public key: only P-256
/// keys can head a certificate.
pub fn spki_from_hsm_public_key(algorithm: AsymAlgorithm, bytes: &[u8]) -> (res: Result<Vec<u8>, AppError>)
    ensures
        algorithm != AsymAlgorithm::EcP256 ==> (res matches Err(AppError::Usage(m)) && m@
            == "unsupported HSM public key algorithm"@),
        algorithm == AsymAlgorithm::EcP256 ==> match p256_hsm_key_spki(bytes@) {
            Some(d) => (res matches Ok(v) && v@ == d),
            None => (res matches Err(AppError::X509(m)) && m@ == "invalid P-256 public key"@),
        },
{
    check_hsm_public_key_algorithm(algorithm)?;
    match spki_of_hsm_p256_key(bytes) {
        Some(d) => Ok(d),
        None => Err(AppError::X509(String::from_str("invalid P-256 public key"))),
    }
}

/// The order of the P-256 group
/// (`0xFFFFFFFF00000000FFFFFFFFFFFFFFFFBCE6FAADA7179E84F3B9CAC2FC632551`).
pub open spec fn p256_order() -> nat {
    let two_64: nat = 0x1_0000_0000_0000_0000;
    0xFFFFFFFF00000000FFFFFFFFFFFFFFFF * two_64 * two_64 + 0xBCE6FAADA7179E84F3B9CAC2FC632551
}

/// The scalar (32 big-endian bytes) of a new P-256 secret key:
/// `SecretKey::random` of `p256` with the operating system's random source.
/// It draws until the scalar is nonzero and below the group order.
#[verifier::external_body]
fn random_p256_scalar() -> (res: Vec<u8>)
    ensures
        res@.len() == 32,
        0 < be_value(res@) < p256_order(),
{
    p256::SecretKey::random(&mut rand_core::OsRng).to_bytes().to_vec()
}

/// A new P-256 leaf key, as its 32-byte big-endian scalar: nonzero and
/// below the group order.
pub fn generate_leaf_key() -> (res: Vec<u8>)
    ensures
        res@.len() == 32,
        0 < be_value(res@) < p256_order(),
{
    random_p256_scalar()
}

/// The DER subject public key info of the P-256 key with the scalar.
pub uninterp spec fn p256_scalar_spki(scalar: Seq<u8>) -> Option<Seq<u8>>;

/// `SecretKey::from_slice` of `p256`, its public key's uncompressed point
/// read by `VerifyingKey::from_encoded_point`, then
/// `SubjectPublicKeyInfoOwned::from_key` and `to_der` of `spki`; `None`
/// when any of them fails.
#[verifier::external_body]
fn spki_of_p256_scalar(scalar: &[u8]) -> (res: Option<Vec<u8>>)
    ensures
        match p256_scalar_spki(scalar@) {
            Some(d) => (res matches Some(v) && v@ == d),
            None => res is None,
        },
{
    let point = p256::SecretKey::from_slice(scalar).ok()?.public_key().to_encoded_point(false);
    let verifying = p256::ecdsa::VerifyingKey::from_encoded_point(&point).ok()?;
    spki::SubjectPublicKeyInfoOwned::from_key(verifying).ok()?.to_der().ok()
}

/// The subject public key info (DER) of a leaf key given by its scalar.
pub fn spki_from_leaf_key(scalar: &[u8]) -> (res: Result<Vec<u8>, AppError>)
    ensures
        match p256_scalar_spki(scalar@) {
            Some(d) => (res matches Ok(v) && v@ == d),
            None => (res matches Err(AppError::X509(m)) && m@ == "invalid leaf public key"@),
        },
{
    match spki_of_p256_scalar(scalar) {
        Some(d) => Ok(d),
        None => Err(AppError::X509(String::from_str("invalid leaf public key"))),
    }
}

/// The PKCS#8 PEM text (LF line endings) of the P-256 key with the scalar.
pub uninterp spec fn p256_pkcs8_pem(scalar: Seq<u8>) -> Option<Seq<u8>>;

/// `SecretKey::from_slice` then `to_pkcs8_pem(LineEnding::LF)` of `p256`,
/// as bytes; `None` when either fails.
#[verifier::external_body]
fn pkcs8_pem_of_p256_scalar(scalar: &[u8]) -> (res: Option<Vec<u8>>)
    ensures
        match p256_pkcs8_pem(scalar@) {
            Some(t) => (res matches Some(v) && v@ == t),
            None => res is None,
        },
{
    let key = p256::SecretKey::from_slice(scalar).ok()?;
    key.to_pkcs8_pem(p256::pkcs8::LineEnding::LF).ok().map(|pem| pem.as_bytes().to_vec())
}

/// The PKCS#8 PEM bytes of a leaf key given by its scalar.
pub fn private_key_pem_bytes(scalar: &[u8]) -> (res: Result<Vec<u8>, AppError>)
    ensures
        match p256_pkcs8_pem(scalar@) {
            Some(t) => (res matches Ok(v) && v@ == t),
            None => (res matches Err(AppError::X509(m)) && m@ == "invalid leaf private key"@),
        },
{
    match pkcs8_pem_of_p256_scalar(scalar) {
        Some(t) => Ok(t),
        None => Err(AppError::X509(String::from_str("invalid leaf private key"))),
    }
}

} // verus!
