//! Issued TLS leaf certificates: their files, and how they are listed
//! (capabilities from Extended Key Usage, names from Subject Alt Name).
use vstd::prelude::*;
use der::Decode;
use x509_cert::ext::pkix::name::GeneralName;

use crate::error::AppError;
use crate::sort::{SortKey, sort_by_key, stable_sort};
use crate::store::{CertExtension, CertSummary, path_join, join_path, rfc3339_text, format_time};
use crate::table::{render_table, table_lines};
use crate::text::{
    chars_of,
    decimal,
    decimal_string,
    hex_char,
    join,
    join_strings,
    lemma_lex_total,
    lemma_lex_transitive,
    lex_le,
    lex_le_exec,
    push_char,
    string_from,
};

verus! {

/// `DER` decoding failure of the `der` crate.
#[verifier::external_type_specification]
#[verifier::external_body]
pub struct ExDerError(der::Error);

/// The private key file of a leaf: `<tls dir>/<name>.pem`.
pub fn tls_key_path(tls_dir: &str, name: &str) -> (res: String)
    ensures
        res@ == path_join(tls_dir@, name@ + ".pem"@),
{
    let file = String::from_str(name).concat(".pem");
    join_path(tls_dir, file.as_str())
}

/// The certificate file of a leaf: `<tls dir>/<name>.crt`.
pub fn tls_cert_path(tls_dir: &str, name: &str) -> (res: String)
    ensures
        res@ == path_join(tls_dir@, name@ + ".crt"@),
{
    let file = String::from_str(name).concat(".crt");
    join_path(tls_dir, file.as_str())
}

/// Index of the last `.` in the file name, if any.
pub open spec fn last_dot(f: Seq<char>) -> int
    decreases f.len(),
{
    if f.len() == 0 {
        -1
    } else if f.last() == '.' {
        f.len() - 1
    } else {
        last_dot(f.drop_last())
    }
}

/// The leaf name of a certificate file: its stem when its extension (the
/// text after the last dot that is not the first character) is `crt`.
pub open spec fn spec_tls_cert_name(file_name: Seq<char>) -> Option<Seq<char>> {
    let k = last_dot(file_name);
    if k > 0 && file_name.skip(k + 1) == "crt"@ {
        Some(file_name.take(k))
    } else {
        None
    }
}

proof fn lemma_last_dot(f: Seq<char>)
    ensures
        -1 <= last_dot(f) < f.len(),
        last_dot(f) >= 0 ==> f[last_dot(f)] == '.',
        forall|i: int| last_dot(f) < i < f.len() ==> f[i] != '.',
    decreases f.len(),
{
    if f.len() > 0 && f.last() != '.' {
        let p = f.drop_last();
        lemma_last_dot(p);
        assert forall|i: int| last_dot(f) < i < f.len() implies f[i] != '.' by {
            if i < p.len() {
                assert(f[i] == p[i]);
            }
        }
    }
}

/// Law: listing a CA's TLS directory finds each issued leaf under its own
/// name: the certificate file `<name>.crt` of a non-empty name stands for `name`.
pub proof fn lemma_cert_file_name_roundtrip(name: Seq<char>)
    requires
        name.len() > 0,
    ensures
        spec_tls_cert_name(name + ".crt"@) == Some(name),
{
    reveal_strlit(".crt");
    reveal_strlit("crt");
    let f = name + ".crt"@;
    let n = name.len() as int;
    assert(f.drop_last() =~= name + ".cr"@) by {
        reveal_strlit(".cr");
    }
    assert(f.drop_last().drop_last() =~= name + ".c"@) by {
        reveal_strlit(".c");
    }
    assert(f.drop_last().drop_last().drop_last() =~= name + "."@) by {
        reveal_strlit(".");
    }
    reveal_with_fuel(last_dot, 5);
    assert(last_dot(f) == n);
    assert(f.skip(n + 1) =~= "crt"@);
    assert(f.take(n) =~= name);
}

/// The leaf name a file in the TLS directory stands for, when it is a certificate.
pub fn tls_cert_name(file_name: &str) -> (res: Option<String>)
    ensures
        match spec_tls_cert_name(file_name@) {
            Some(n) => (res matches Some(s) && s@ == n),
            None => res is None,
        },
{
    let f = chars_of(file_name);
    let mut k = f.len();
    proof {
        lemma_last_dot(f@);
    }
    while k > 0 && f[k - 1] != '.'
        invariant
            k <= f@.len(),
            forall|i: int| k <= i < f@.len() ==> f@[i] != '.',
            f@ == file_name@,
        decreases k,
    {
        k = k - 1;
    }
    proof {
        lemma_last_dot(f@);
        if k > 0 {
            assert(last_dot(f@) == k - 1);
        } else {
            assert(last_dot(f@) == -1);
        }
    }
    if k <= 1 {
        return None;
    }
    let dot = k - 1;
    let mut ext: Vec<char> = Vec::new();
    let mut i = k;
    while i < f.len()
        invariant
            k <= i <= f@.len(),
            ext@ == f@.subrange(k as int, i as int),
        decreases f@.len() - i,
    {
        ext.push(f[i]);
        assert(ext@ =~= f@.subrange(k as int, i + 1));
        i = i + 1;
    }
    assert(ext@ =~= f@.skip(k as int));
    let ext_text = string_from(ext.as_slice());
    if !(ext_text == String::from_str("crt")) {
        return None;
    }
    let mut stem: Vec<char> = Vec::new();
    let mut j: usize = 0;
    while j < dot
        invariant
            j <= dot < f@.len(),
            stem@ == f@.take(j as int),
        decreases dot - j,
    {
        stem.push(f[j]);
        assert(stem@ =~= f@.take(j + 1));
        j = j + 1;
    }
    Some(string_from(stem.as_slice()))
}

/// OID of the Extended Key Usage extension.
pub open spec fn eku_extension_oid() -> Seq<char> {
    "2.5.29.37"@
}

/// OID of the Subject Alternative Name extension.
pub open spec fn san_extension_oid() -> Seq<char> {
    "2.5.29.17"@
}

/// OID of the TLS client authentication key purpose.
pub open spec fn client_auth_oid() -> Seq<char> {
    "1.3.6.1.5.5.7.3.2"@
}

/// OID of the TLS server authentication key purpose.
pub open spec fn server_auth_oid() -> Seq<char> {
    "1.3.6.1.5.5.7.3.1"@
}

/// The key purposes, as dotted OIDs, that an Extended Key Usage value lists.
pub uninterp spec fn eku_purposes(der: Seq<u8>) -> Option<Seq<Seq<char>>>;

/// `ExtendedKeyUsage::from_der` of `x509-cert`, each purpose as its dotted OID.
#[verifier::external_body]
fn decode_extended_key_usage(der: &[u8]) -> (res: Result<Vec<String>, der::Error>)
    ensures
        match eku_purposes(der@) {
            Some(v) => (res matches Ok(x) && x@.map_values(|s: String| s@) == v),
            None => res is Err,
        },
{
    let eku = x509_cert::ext::pkix::ExtendedKeyUsage::from_der(der)?;
    Ok(eku.0.iter().map(|oid| oid.to_string()).collect())
}

/// A subject alternative name, as far as the listing shows it.
#[derive(Debug)]
pub enum SanName {
    Dns(String),
    Ip(Vec<u8>),
    Other,
}

/// The content of a subject alternative name.
pub enum SanNameView {
    Dns(Seq<char>),
    Ip(Seq<u8>),
    Other,
}

impl SanName {
    pub open spec fn view(&self) -> SanNameView {
        match self {
            SanName::Dns(s) => SanNameView::Dns(s@),
            SanName::Ip(b) => SanNameView::Ip(b@),
            SanName::Other => SanNameView::Other,
        }
    }
}

/// The names that a Subject Alternative Name value lists.
pub uninterp spec fn san_names(der: Seq<u8>) -> Option<Seq<SanNameView>>;

/// `SubjectAltName::from_der` of `x509-cert`: DNS names as text, IP
/// addresses as their octets, other kinds of name without content.
#[verifier::external_body]
fn decode_subject_alt_name(der: &[u8]) -> (res: Result<Vec<SanName>, der::Error>)
    ensures
        match san_names(der@) {
            Some(v) => (res matches Ok(x) && x@.map_values(|n: SanName| n.view()) == v),
            None => res is Err,
        },
{
    let san = x509_cert::ext::pkix::SubjectAltName::from_der(der)?;
    Ok(san.0.into_iter().map(|name| match name {
        GeneralName::DnsName(v) => SanName::Dns(v.as_str().to_string()),
        GeneralName::IpAddress(v) => SanName::Ip(v.as_bytes().to_vec()),
        _ => SanName::Other,
    }).collect())
}

/// The `Display` text of a `der` decoding failure.
#[verifier::external_body]
pub(crate) fn der_error_text(e: &der::Error) -> String {
    e.to_string()
}

/// The label of a key purpose: `client`, `server`, or the dotted OID.
pub open spec fn purpose_label(oid: Seq<char>) -> Seq<char> {
    if oid == client_auth_oid() {
        "client"@
    } else if oid == server_auth_oid() {
        "server"@
    } else {
        oid
    }
}

/// The labels with the purposes' labels added, each label kept once.
pub open spec fn add_purpose_labels(labels: Seq<Seq<char>>, oids: Seq<Seq<char>>) -> Seq<Seq<char>>
    decreases oids.len(),
{
    if oids.len() == 0 {
        labels
    } else {
        let prev = add_purpose_labels(labels, oids.drop_last());
        let l = purpose_label(oids.last());
        if prev.contains(l) {
            prev
        } else {
            prev.push(l)
        }
    }
}

/// The capability labels of a certificate, from all its Extended Key
/// Usage extensions in order; `None` when one of them does not decode.
pub open spec fn capability_labels(exts: Seq<CertExtension>) -> Option<Seq<Seq<char>>>
    decreases exts.len(),
{
    if exts.len() == 0 {
        Some(seq![])
    } else {
        match capability_labels(exts.drop_last()) {
            None => None,
            Some(prev) => if exts.last().oid@ == eku_extension_oid() {
                match eku_purposes(exts.last().value@) {
                    None => None,
                    Some(oids) => Some(add_purpose_labels(prev, oids)),
                }
            } else {
                Some(prev)
            },
        }
    }
}

/// The items joined with `,`, or `-` when there are none.
pub open spec fn comma_list(items: Seq<Seq<char>>) -> Seq<char> {
    if items.len() == 0 {
        "-"@
    } else {
        join(items, ","@)
    }
}

/// The items joined with `,`, or `-` when there are none.
pub fn comma_list_text(items: &Vec<String>) -> (res: String)
    ensures
        res@ == comma_list(items@.map_values(|s: String| s@)),
{
    if items.len() == 0 {
        String::from_str("-")
    } else {
        join_strings(items, ",")
    }
}

/// Whether the strings hold the text.
fn contains_text(items: &Vec<String>, s: &String) -> (res: bool)
    ensures
        res == items@.map_values(|x: String| x@).contains(s@),
{
    let ghost v = items@.map_values(|x: String| x@);
    for i in 0..items.len()
        invariant
            v == items@.map_values(|x: String| x@),
            forall|j: int| 0 <= j < i ==> #[trigger] v[j] != s@,
    {
        if items[i] == *s {
            assert(v[i as int] == s@);
            return true;
        }
        assert(v[i as int] == items@[i as int]@);
    }
    false
}

/// The capabilities of a certificate for display: the labels of the key
/// purposes of its Extended Key Usage, each once, separated by `,`, or `-`.
pub fn format_tls_capabilities(cert: &CertSummary) -> (res: Result<String, AppError>)
    ensures
        match capability_labels(cert.extensions@) {
            Some(l) => (res matches Ok(s) && s@ == comma_list(l)),
            None => res matches Err(AppError::X509(_)),
        },
{
    let mut caps: Vec<String> = Vec::new();
    let exts = &cert.extensions;
    for i in 0..exts.len()
        invariant
            *exts == cert.extensions,
            capability_labels(exts@.take(i as int)) == Some(caps@.map_values(|s: String| s@)),
    {
        let ext = &exts[i];
        assert(exts@.take(i + 1).drop_last() =~= exts@.take(i as int));
        assert(exts@.take(i + 1).last() == *ext);
        if ext.oid == String::from_str("2.5.29.37") {
            let oids = match decode_extended_key_usage(ext.value.as_slice()) {
                Ok(v) => v,
                Err(e) => {
                    proof {
                        lemma_capability_labels_none(exts@, i + 1);
                    }
                    return Err(AppError::X509(der_error_text(&e)));
                },
            };
            let ghost start = caps@.map_values(|s: String| s@);
            for j in 0..oids.len()
                invariant
                    caps@.map_values(|s: String| s@) == add_purpose_labels(
                        start,
                        oids@.map_values(|s: String| s@).take(j as int),
                    ),
            {
                let oid = &oids[j];
                let label = if *oid == String::from_str("1.3.6.1.5.5.7.3.2") {
                    String::from_str("client")
                } else if *oid == String::from_str("1.3.6.1.5.5.7.3.1") {
                    String::from_str("server")
                } else {
                    oid.clone()
                };
                let ghost ov = oids@.map_values(|s: String| s@);
                assert(ov.take(j + 1).drop_last() =~= ov.take(j as int));
                assert(ov.take(j + 1).last() == oid@);
                assert(label@ == purpose_label(oid@));
                if !contains_text(&caps, &label) {
                    caps.push(label);
                    assert(caps@.map_values(|s: String| s@) =~= add_purpose_labels(
                        start,
                        ov.take(j as int),
                    ).push(purpose_label(oid@)));
                }
            }
            assert(oids@.map_values(|s: String| s@).take(oids@.len() as int) =~= oids@.map_values(
                |s: String| s@,
            ));
        }
    }
    assert(exts@.take(exts@.len() as int) =~= exts@);
    Ok(comma_list_text(&caps))
}

proof fn lemma_capability_labels_none(exts: Seq<CertExtension>, k: int)
    requires
        0 < k <= exts.len(),
        capability_labels(exts.take(k)) is None,
    ensures
        capability_labels(exts) is None,
    decreases exts.len() - k,
{
    if k < exts.len() {
        assert(exts.take(k + 1).drop_last() =~= exts.take(k));
        lemma_capability_labels_none(exts, k + 1);
    } else {
        assert(exts.take(k) =~= exts);
    }
}

/// An entry of the SAN column: text, or an IPv6 address, which the
/// caller renders with the standard library's address formatting.
#[derive(Debug)]
pub enum SanText {
    Text(String),
    Ipv6(Vec<u8>),
}

/// The content of a SAN column entry.
pub enum SanTextView {
    Text(Seq<char>),
    Ipv6(Seq<u8>),
}

impl SanText {
    pub open spec fn view(&self) -> SanTextView {
        match self {
            SanText::Text(s) => SanTextView::Text(s@),
            SanText::Ipv6(b) => SanTextView::Ipv6(b@),
        }
    }
}

/// The bytes in lower-case hexadecimal, two digits per byte.
pub open spec fn hex_bytes(b: Seq<u8>) -> Seq<char>
    decreases b.len(),
{
    if b.len() == 0 {
        seq![]
    } else {
        hex_bytes(b.drop_last()) + seq![hex_char((b.last() / 16) as nat), hex_char((b.last() % 16) as nat)]
    }
}

/// Two hexadecimal digits per byte.
pub proof fn lemma_hex_bytes_len(b: Seq<u8>)
    ensures
        hex_bytes(b).len() == 2 * b.len(),
    decreases b.len(),
{
    if b.len() > 0 {
        lemma_hex_bytes_len(b.drop_last());
    }
}

/// The bytes in lower-case hexadecimal, two digits per byte.
pub fn hex_encode(bytes: &[u8]) -> (res: String)
    ensures
        res@ == hex_bytes(bytes@),
{
    let mut out = String::new();
    for i in 0..bytes.len()
        invariant
            out@ == hex_bytes(bytes@.take(i as int)),
    {
        let b = bytes[i];
        let hi = b >> 4;
        let lo = b & 0x0f;
        assert(hi == b / 16 && lo == b % 16) by (bit_vector)
            requires
                hi == b >> 4,
                lo == b & 0x0f,
        ;
        let c1 = if hi < 10 { (hi + 48) as char } else { (hi + 87) as char };
        let c2 = if lo < 10 { (lo + 48) as char } else { (lo + 87) as char };
        push_char(&mut out, c1);
        push_char(&mut out, c2);
        assert(bytes@.take(i + 1).drop_last() =~= bytes@.take(i as int));
        assert(out@ =~= hex_bytes(bytes@.take(i + 1)));
    }
    assert(bytes@.take(bytes@.len() as int) =~= bytes@);
    out
}

/// The SAN column entry of an IP address: dotted decimal for four bytes,
/// an IPv6 address for sixteen, `ip:` and the bytes in hex otherwise.
pub open spec fn ip_address_text(b: Seq<u8>) -> SanTextView {
    if b.len() == 4 {
        SanTextView::Text(
            decimal(b[0] as nat) + "."@ + decimal(b[1] as nat) + "."@ + decimal(b[2] as nat) + "."@
                + decimal(b[3] as nat),
        )
    } else if b.len() == 16 {
        SanTextView::Ipv6(b)
    } else {
        SanTextView::Text("ip:"@ + hex_bytes(b))
    }
}

/// The SAN column entry of an IP address.
pub fn format_ip_address(bytes: &[u8]) -> (res: SanText)
    ensures
        res.view() == ip_address_text(bytes@),
{
    if bytes.len() == 4 {
        let s = decimal_string(bytes[0] as u64).concat(".").concat(
            decimal_string(bytes[1] as u64).as_str(),
        ).concat(".").concat(decimal_string(bytes[2] as u64).as_str()).concat(".").concat(
            decimal_string(bytes[3] as u64).as_str(),
        );
        SanText::Text(s)
    } else if bytes.len() == 16 {
        let mut v: Vec<u8> = Vec::new();
        for i in 0..16
            invariant
                bytes@.len() == 16,
                v@ == bytes@.take(i as int),
        {
            v.push(bytes[i]);
            assert(v@ =~= bytes@.take(i + 1));
        }
        assert(v@ =~= bytes@);
        SanText::Ipv6(v)
    } else {
        SanText::Text(String::from_str("ip:").concat(hex_encode(bytes).as_str()))
    }
}

/// The SAN column entries of some names: DNS names as they are, IP
/// addresses as `ip_address_text` gives them, other names left out.
pub open spec fn san_entries_of(names: Seq<SanNameView>) -> Seq<SanTextView>
    decreases names.len(),
{
    if names.len() == 0 {
        seq![]
    } else {
        let prev = san_entries_of(names.drop_last());
        match names.last() {
            SanNameView::Dns(s) => prev.push(SanTextView::Text(s)),
            SanNameView::Ip(b) => prev.push(ip_address_text(b)),
            SanNameView::Other => prev,
        }
    }
}

/// The SAN column entries of a certificate, from all its Subject Alt
/// Name extensions in order; `None` when one of them does not decode.
pub open spec fn san_column_entries(exts: Seq<CertExtension>) -> Option<Seq<SanTextView>>
    decreases exts.len(),
{
    if exts.len() == 0 {
        Some(seq![])
    } else {
        match san_column_entries(exts.drop_last()) {
            None => None,
            Some(prev) => if exts.last().oid@ == san_extension_oid() {
                match san_names(exts.last().value@) {
                    None => None,
                    Some(names) => Some(prev + san_entries_of(names)),
                }
            } else {
                Some(prev)
            },
        }
    }
}

proof fn lemma_san_column_none(exts: Seq<CertExtension>, k: int)
    requires
        0 < k <= exts.len(),
        san_column_entries(exts.take(k)) is None,
    ensures
        san_column_entries(exts) is None,
    decreases exts.len() - k,
{
    if k < exts.len() {
        assert(exts.take(k + 1).drop_last() =~= exts.take(k));
        lemma_san_column_none(exts, k + 1);
    } else {
        assert(exts.take(k) =~= exts);
    }
}

/// The entries of a certificate's SAN column, from all its Subject Alt
/// Name extensions; the column is `comma_list` of their rendered texts.
pub fn format_tls_sans(cert: &CertSummary) -> (res: Result<Vec<SanText>, AppError>)
    ensures
        match san_column_entries(cert.extensions@) {
            Some(e) => (res matches Ok(v) && v@.map_values(|t: SanText| t.view()) == e),
            None => res matches Err(AppError::X509(_)),
        },
{
    let mut out: Vec<SanText> = Vec::new();
    let exts = &cert.extensions;
    for i in 0..exts.len()
        invariant
            *exts == cert.extensions,
            san_column_entries(exts@.take(i as int)) == Some(
                out@.map_values(|t: SanText| t.view()),
            ),
    {
        let ext = &exts[i];
        assert(exts@.take(i + 1).drop_last() =~= exts@.take(i as int));
        assert(exts@.take(i + 1).last() == *ext);
        if ext.oid == String::from_str("2.5.29.17") {
            let names = match decode_subject_alt_name(ext.value.as_slice()) {
                Ok(v) => v,
                Err(e) => {
                    proof {
                        lemma_san_column_none(exts@, i + 1);
                    }
                    return Err(AppError::X509(der_error_text(&e)));
                },
            };
            let ghost start = out@.map_values(|t: SanText| t.view());
            let ghost nv = names@.map_values(|n: SanName| n.view());
            for j in 0..names.len()
                invariant
                    nv == names@.map_values(|n: SanName| n.view()),
                    out@.map_values(|t: SanText| t.view()) == start + san_entries_of(
                        nv.take(j as int),
                    ),
            {
                assert(nv.take(j + 1).drop_last() =~= nv.take(j as int));
                assert(nv.take(j + 1).last() == names@[j as int].view());
                let ghost before = out@.map_values(|t: SanText| t.view());
                assert(before == start + san_entries_of(nv.take(j as int)));
                match &names[j] {
                    SanName::Dns(s) => {
                        let t = SanText::Text(s.clone());
                        assert(t.view() == SanTextView::Text(s@));
                        out.push(t);
                        assert(out@.map_values(|t: SanText| t.view()) =~= before.push(
                            SanTextView::Text(s@),
                        ));
                    },
                    SanName::Ip(b) => {
                        let t = format_ip_address(b.as_slice());
                        out.push(t);
                        assert(out@.map_values(|t: SanText| t.view()) =~= before.push(
                            ip_address_text(b@),
                        ));
                    },
                    SanName::Other => {},
                }
                assert(out@.map_values(|t: SanText| t.view()) =~= start + san_entries_of(
                    nv.take(j + 1),
                ));
            }
            assert(nv.take(names@.len() as int) =~= nv);
        }
    }
    assert(exts@.take(exts@.len() as int) =~= exts@);
    Ok(out)
}

/// The parts of a TLS listing line, before the IPv6 addresses among its
/// SAN entries are rendered.
#[derive(Debug)]
pub struct TlsRowParts {
    pub name: String,
    pub capabilities: String,
    pub sans: Vec<SanText>,
    pub expires: String,
}

/// The listing parts of a leaf certificate: its expiry, its capabilities
/// and its SAN entries, each computed in that order; the first that fails
/// is the error.
pub fn format_tls_row(name: String, cert: &CertSummary) -> (res: Result<TlsRowParts, AppError>)
    ensures
        rfc3339_text(cert.not_after as int) is None ==> res matches Err(AppError::X509(_)),
        rfc3339_text(cert.not_after as int) is Some && capability_labels(cert.extensions@) is None
            ==> res matches Err(AppError::X509(_)),
        rfc3339_text(cert.not_after as int) is Some && capability_labels(cert.extensions@) is Some
            && san_column_entries(cert.extensions@) is None ==> res matches Err(AppError::X509(_)),
        rfc3339_text(cert.not_after as int) is Some && capability_labels(cert.extensions@) is Some
            && san_column_entries(cert.extensions@) is Some ==> (res matches Ok(p) && p.name@
            == name@ && p.expires@ == rfc3339_text(cert.not_after as int)->0 && p.capabilities@
            == comma_list(capability_labels(cert.extensions@)->0) && p.sans@.map_values(
            |t: SanText| t.view(),
        ) == san_column_entries(cert.extensions@)->0),
{
    let expires = format_time(cert.not_after)?;
    let capabilities = format_tls_capabilities(cert)?;
    let sans = format_tls_sans(cert)?;
    Ok(TlsRowParts { name, capabilities, sans, expires })
}

/// A line of the TLS listing.
#[derive(Debug)]
pub struct TlsRow {
    pub name: String,
    pub capabilities: String,
    pub sans: String,
    pub expires: String,
}

/// A TLS listing line from its parts, with the rendered SAN entries
/// joined by `,` (or `-` when there are none).
pub fn tls_row(parts: TlsRowParts, rendered_sans: &Vec<String>) -> (res: TlsRow)
    ensures
        res.name@ == parts.name@,
        res.capabilities@ == parts.capabilities@,
        res.expires@ == parts.expires@,
        res.sans@ == comma_list(rendered_sans@.map_values(|s: String| s@)),
{
    TlsRow {
        name: parts.name,
        capabilities: parts.capabilities,
        sans: comma_list_text(rendered_sans),
        expires: parts.expires,
    }
}

impl SortKey for TlsRow {
    /// Lines are ordered by leaf name.
    open spec fn key_le(&self, other: &Self) -> bool {
        lex_le(self.name@, other.name@)
    }

    fn key_le_exec(&self, other: &Self) -> (res: bool) {
        lex_le_exec(self.name.as_str(), other.name.as_str())
    }

    proof fn key_total(a: &Self, b: &Self) {
        lemma_lex_total(a.name@, b.name@);
    }

    proof fn key_transitive(a: &Self, b: &Self, c: &Self) {
        lemma_lex_transitive(a.name@, b.name@, c.name@);
    }
}

/// The TLS listing lines in order of leaf name, equal names keeping their order.
pub fn sort_tls_rows(rows: Vec<TlsRow>) -> (res: Vec<TlsRow>)
    ensures
        res@ == stable_sort(rows@),
{
    sort_by_key(rows)
}

/// The header cells of the TLS listing.
pub open spec fn tls_table_headers() -> Seq<Seq<char>> {
    seq!["Name"@, "Capabilities"@, "SANs"@, "Expires"@]
}

/// The cells of a TLS listing line.
pub open spec fn tls_row_cells(row: TlsRow) -> Seq<Seq<char>> {
    seq![row.name@, row.capabilities@, row.sans@, row.expires@]
}

/// The lines of the TLS listing table, as `pkm tls list` prints them.
pub fn tls_table_lines(rows: &Vec<TlsRow>) -> (res: Vec<String>)
    ensures
        res@.map_values(|s: String| s@) == table_lines(
            tls_table_headers(),
            rows@.map_values(|r: TlsRow| tls_row_cells(r)),
        ),
{
    let headers: Vec<String> = vec![
        String::from_str("Name"),
        String::from_str("Capabilities"),
        String::from_str("SANs"),
        String::from_str("Expires"),
    ];
    let mut cells: Vec<Vec<String>> = Vec::new();
    for i in 0..rows.len()
        invariant
            cells@.len() == i,
            forall|r: int| 0 <= r < i ==> (#[trigger] cells@[r])@.len() == 4,
            forall|r: int|
                0 <= r < i ==> (#[trigger] cells@[r])@.map_values(|s: String| s@) == tls_row_cells(
                    rows@[r],
                ),
    {
        let row = &rows[i];
        let line: Vec<String> = vec![
            row.name.clone(),
            row.capabilities.clone(),
            row.sans.clone(),
            row.expires.clone(),
        ];
        assert(line@.map_values(|s: String| s@) =~= tls_row_cells(rows@[i as int]));
        cells.push(line);
    }
    proof {
        reveal_strlit("Name");
        reveal_strlit("Capabilities");
        reveal_strlit("SANs");
        reveal_strlit("Expires");
        assert(headers@.map_values(|s: String| s@) =~= tls_table_headers());
    }
    let lines = render_table(&headers, &cells);
    proof {
        assert(crate::table::rows_view(cells@) =~= rows@.map_values(|r: TlsRow| tls_row_cells(r)));
        assert(crate::table::cells_view(headers) =~= tls_table_headers());
    }
    lines
}

} // verus!
