//! X.509 in DER: encoding a certificate profile as the to-be-signed
//! certificate, assembling the signed certificate, and reading
//! certificates and certificate signing requests back into plain data.
//! Encoding and decoding are done by `der`, `spki` and `x509-cert`; this
//! module decides what goes into a certificate and what is read out of one.
use vstd::prelude::*;
use core::time::Duration;
use der::asn1::{
    BitString, GeneralizedTime, Ia5StringRef, ObjectIdentifier, PrintableStringRef, TeletexStringRef,
    Utf8StringRef,
};
use der::{Decode, Encode, Tagged};
use spki::{AlgorithmIdentifierOwned, SubjectPublicKeyInfoOwned};
use x509_cert::certificate::{Certificate, TbsCertificate, Version};
use x509_cert::ext::pkix::name::GeneralName;
use x509_cert::ext::pkix::{
    AuthorityKeyIdentifier, BasicConstraints, ExtendedKeyUsage, KeyUsage, KeyUsages, SubjectAltName,
    SubjectKeyIdentifier,
};
use x509_cert::ext::{AsExtension, Extension};
use x509_cert::name::Name;
use x509_cert::serial_number::SerialNumber;
use x509_cert::time::{Time, Validity};

use crate::error::AppError;
use crate::cli::TlsAddArgs;
use crate::hsm::AsymAlgorithm;
use crate::pki::{
    build_leaf_cert, build_root_ca, build_subordinate_ca, dn_der, extension_views, leaf_result, name_from_cn_ou, signature_algorithm_identifier,
    root_ca_extensions, sha1, spec_signature_oid, spki_from_hsm_public_key, p256_hsm_key_spki, spki_from_leaf_key, p256_scalar_spki, subject_dn_text, subordinate_ca_extensions, CertProfile, ExtensionPlan, ExtensionView, HostName, HostNameView,
};
use crate::store::{CertExtension, CertSummary, NameAttribute};
use crate::tls::der_error_text;
use crate::workflow::{is_pem, pem_begin};
use crate::wrapped::has_prefix;
use vstd::utf8::encode_utf8;

verus! {

/// The DER of the BasicConstraints extension of a certificate with the
/// subject (DER), as `x509-cert` makes it.
pub uninterp spec fn basic_constraints_extension_der(ca: bool, path_len: Option<u8>, subject: Seq<u8>) -> Option<Seq<u8>>;

/// The DER of the KeyUsage extension whose flags are the bits of `bits`
/// (bit 0 digitalSignature, bit 5 keyCertSign, bit 6 cRLSign), of a
/// certificate with the subject.
pub uninterp spec fn key_usage_extension_der(bits: u16, subject: Seq<u8>) -> Option<Seq<u8>>;

/// The DER of the ExtendedKeyUsage extension with the purposes (dotted
/// OIDs), of a certificate with the subject.
pub uninterp spec fn extended_key_usage_extension_der(oids: Seq<Seq<char>>, subject: Seq<u8>) -> Option<Seq<u8>>;

/// The DER of a GeneralName that is a DNS name (an IA5String).
pub uninterp spec fn dns_name_der(name: Seq<char>) -> Option<Seq<u8>>;

/// The DER of a GeneralName that is an IP address (its octets).
pub uninterp spec fn ip_name_der(octets: Seq<u8>) -> Option<Seq<u8>>;

/// The DER of the SubjectAltName extension with the GeneralNames (each
/// given as DER), of a certificate with the subject.
pub uninterp spec fn subject_alt_name_extension_der(names: Seq<Seq<u8>>, subject: Seq<u8>) -> Option<Seq<u8>>;

/// The DER of the SubjectKeyIdentifier extension with the identifier, of
/// a certificate with the subject.
pub uninterp spec fn subject_key_identifier_extension_der(id: Seq<u8>, subject: Seq<u8>) -> Option<Seq<u8>>;

/// The DER of the AuthorityKeyIdentifier extension with only a key
/// identifier, of a certificate with the subject.
pub uninterp spec fn authority_key_identifier_extension_der(id: Seq<u8>, subject: Seq<u8>) -> Option<Seq<u8>>;

/// The DER of a version 3 `TBSCertificate` with the serial number (as
/// big-endian bytes), the signature algorithm (dotted OID, no parameters),
/// the issuer (DER), the validity (seconds since the epoch, as
/// GeneralizedTime), the subject (DER), the subject public key info (DER)
/// and the extensions (each as DER), in that order.
pub uninterp spec fn tbs_certificate_der(
    serial: Seq<u8>,
    signature_oid: Seq<char>,
    issuer: Seq<u8>,
    not_before: u64,
    not_after: u64,
    subject: Seq<u8>,
    spki: Seq<u8>,
    extensions: Seq<Seq<u8>>,
) -> Option<Seq<u8>>;

/// The DER of the signed certificate: the to-be-signed certificate (DER),
/// the signature algorithm (dotted OID, no parameters) and the signature
/// as a BIT STRING.
pub uninterp spec fn certificate_der(tbs: Seq<u8>, signature_oid: Seq<char>, signature: Seq<u8>) -> Option<Seq<u8>>;

/// The PEM text of DER data under the label, with LF line endings.
pub uninterp spec fn pem_text(label: Seq<char>, der: Seq<u8>) -> Option<Seq<char>>;

/// `BasicConstraints::to_extension` of `x509-cert` for the subject read by
/// `Name::from_der` (the extensions so far, which its impl does not read,
/// are passed empty), then `to_der`.
#[verifier::external_body]
fn encode_basic_constraints(ca: bool, path_len: Option<u8>, subject: &[u8]) -> (res: Result<Vec<u8>, der::Error>)
    ensures
        match basic_constraints_extension_der(ca, path_len, subject@) {
            Some(b) => (res matches Ok(v) && v@ == b),
            None => res is Err,
        },
{
    let value = BasicConstraints { ca, path_len_constraint: path_len };
    value.to_extension(&Name::from_der(subject)?, &[])?.to_der()
}

/// `KeyUsage::to_extension` of `x509-cert` with the flag set made by
/// `FlagSet::new_truncated` of the bits, for the subject read by
/// `Name::from_der` (the extensions so far, which its impl does not read,
/// are passed empty), then `to_der`.
#[verifier::external_body]
fn encode_key_usage(bits: u16, subject: &[u8]) -> (res: Result<Vec<u8>, der::Error>)
    ensures
        match key_usage_extension_der(bits, subject@) {
            Some(b) => (res matches Ok(v) && v@ == b),
            None => res is Err,
        },
{
    let value = KeyUsage(der::flagset::FlagSet::<KeyUsages>::new_truncated(bits));
    value.to_extension(&Name::from_der(subject)?, &[])?.to_der()
}

/// `ExtendedKeyUsage::to_extension` of `x509-cert`, each purpose read by
/// `ObjectIdentifier::new`, for the subject read by `Name::from_der` (the
/// extensions so far, which its impl does not read, are passed empty),
/// then `to_der`.
#[verifier::external_body]
fn encode_extended_key_usage(oids: &Vec<String>, subject: &[u8]) -> (res: Result<Vec<u8>, der::Error>)
    ensures
        match extended_key_usage_extension_der(oids@.map_values(|s: String| s@), subject@) {
            Some(b) => (res matches Ok(v) && v@ == b),
            None => res is Err,
        },
{
    let v = oids.iter().map(|o| ObjectIdentifier::new(o)).collect::<Result<Vec<_>, _>>()?;
    ExtendedKeyUsage(v).to_extension(&Name::from_der(subject)?, &[])?.to_der()
}

/// `GeneralName::to_der` of `x509-cert` for a DNS name made by `Ia5String::new`.
#[verifier::external_body]
fn encode_dns_name(name: &str) -> (res: Result<Vec<u8>, der::Error>)
    ensures
        match dns_name_der(name@) {
            Some(b) => (res matches Ok(v) && v@ == b),
            None => res is Err,
        },
{
    GeneralName::DnsName(der::asn1::Ia5String::new(name)?).to_der()
}

/// `GeneralName::to_der` of `x509-cert` for an IP address made by `OctetString::new`.
#[verifier::external_body]
fn encode_ip_name(octets: &[u8]) -> (res: Result<Vec<u8>, der::Error>)
    ensures
        match ip_name_der(octets@) {
            Some(b) => (res matches Ok(v) && v@ == b),
            None => res is Err,
        },
{
    GeneralName::IpAddress(der::asn1::OctetString::new(octets)?).to_der()
}

/// `SubjectAltName::to_extension` of `x509-cert`, each name read by
/// `GeneralName::from_der`, for the subject read by `Name::from_der` (the
/// extensions so far, which its impl does not read, are passed empty),
/// then `to_der`.
#[verifier::external_body]
fn encode_subject_alt_name(names: &Vec<Vec<u8>>, subject: &[u8]) -> (res: Result<Vec<u8>, der::Error>)
    ensures
        match subject_alt_name_extension_der(names@.map_values(|n: Vec<u8>| n@), subject@) {
            Some(b) => (res matches Ok(v) && v@ == b),
            None => res is Err,
        },
{
    let v = names.iter().map(|n| GeneralName::from_der(n)).collect::<der::Result<Vec<_>>>()?;
    SubjectAltName(v).to_extension(&Name::from_der(subject)?, &[])?.to_der()
}

/// `SubjectKeyIdentifier::to_extension` of `x509-cert` for the subject read
/// by `Name::from_der` (the extensions so far, which its impl does not
/// read, are passed empty), then `to_der`.
#[verifier::external_body]
fn encode_subject_key_identifier(id: &[u8], subject: &[u8]) -> (res: Result<Vec<u8>, der::Error>)
    ensures
        match subject_key_identifier_extension_der(id@, subject@) {
            Some(b) => (res matches Ok(v) && v@ == b),
            None => res is Err,
        },
{
    let value = SubjectKeyIdentifier(der::asn1::OctetString::new(id)?);
    value.to_extension(&Name::from_der(subject)?, &[])?.to_der()
}

/// `AuthorityKeyIdentifier::to_extension` of `x509-cert`, with only a key
/// identifier, for the subject read by `Name::from_der` (the extensions so
/// far, which its impl does not read, are passed empty), then `to_der`.
#[verifier::external_body]
fn encode_authority_key_identifier(id: &[u8], subject: &[u8]) -> (res: Result<Vec<u8>, der::Error>)
    ensures
        match authority_key_identifier_extension_der(id@, subject@) {
            Some(b) => (res matches Ok(v) && v@ == b),
            None => res is Err,
        },
{
    let key_identifier = Some(der::asn1::OctetString::new(id)?);
    let value = AuthorityKeyIdentifier { key_identifier, authority_cert_issuer: None, authority_cert_serial_number: None };
    value.to_extension(&Name::from_der(subject)?, &[])?.to_der()
}

/// `TbsCertificate::to_der` of `x509-cert` (version 3, no unique ids), its
/// fields made by `SerialNumber::new`, `ObjectIdentifier::new`,
/// `Name::from_der`, `GeneralizedTime::from_unix_duration`,
/// `SubjectPublicKeyInfoOwned::from_der` and `Extension::from_der`.
#[verifier::external_body]
fn encode_tbs_certificate(
    serial: &[u8],
    signature_oid: &str,
    issuer: &[u8],
    not_before: u64,
    not_after: u64,
    subject: &[u8],
    spki: &[u8],
    extensions: &Vec<Vec<u8>>,
) -> (res: Result<Vec<u8>, der::Error>)
    ensures
        match tbs_certificate_der(serial@, signature_oid@, issuer@, not_before, not_after, subject@, spki@,
            extensions@.map_values(|e: Vec<u8>| e@)) {
            Some(b) => (res matches Ok(v) && v@ == b),
            None => res is Err,
        },
{
    let time = |s: u64| GeneralizedTime::from_unix_duration(Duration::from_secs(s)).map(Time::from);
    let exts = extensions.iter().map(|e| Extension::from_der(e)).collect::<der::Result<Vec<_>>>()?;
    let signature = AlgorithmIdentifierOwned { oid: ObjectIdentifier::new(signature_oid)?, parameters: None };
    let validity = Validity { not_before: time(not_before)?, not_after: time(not_after)? };
    TbsCertificate { version: Version::V3, serial_number: SerialNumber::new(serial)?, signature,
        issuer: Name::from_der(issuer)?, validity, subject: Name::from_der(subject)?,
        subject_public_key_info: SubjectPublicKeyInfoOwned::from_der(spki)?,
        issuer_unique_id: None, subject_unique_id: None, extensions: Some(exts) }.to_der()
}

/// `Certificate::to_der` of `x509-cert`, its fields made by
/// `TbsCertificate::from_der`, `ObjectIdentifier::new` (no parameters) and
/// `BitString::from_bytes`.
#[verifier::external_body]
fn encode_certificate(tbs: &[u8], signature_oid: &str, signature: &[u8]) -> (res: Result<Vec<u8>, der::Error>)
    ensures
        match certificate_der(tbs@, signature_oid@, signature@) {
            Some(b) => (res matches Ok(v) && v@ == b),
            None => res is Err,
        },
{
    let signature_algorithm = AlgorithmIdentifierOwned { oid: ObjectIdentifier::new(signature_oid)?, parameters: None };
    let signature = BitString::from_bytes(signature)?;
    Certificate { tbs_certificate: TbsCertificate::from_der(tbs)?, signature_algorithm, signature }.to_der()
}

/// `pem::encode_string` of `der` with LF line endings.
#[verifier::external_body]
fn encode_pem(label: &str, der: &[u8]) -> (res: Result<String, der::Error>)
    ensures
        match pem_text(label@, der@) {
            Some(t) => (res matches Ok(s) && s@ == t),
            None => res is Err,
        },
{
    Ok(der::pem::encode_string(label, der::pem::LineEnding::LF, der)?)
}

/// The KeyUsage bits of the flags that the tool sets.
pub open spec fn key_usage_bits(digital_signature: bool, key_cert_sign: bool, crl_sign: bool) -> u16 {
    ((if digital_signature { 1int } else { 0int }) + (if key_cert_sign { 32int } else { 0int }) + (
    if crl_sign { 64int } else { 0int })) as u16
}

/// The KeyUsage bits of the flags that the tool sets (see `key_usage_bits`).
fn key_usage_flags(digital_signature: bool, key_cert_sign: bool, crl_sign: bool) -> (res: u16)
    ensures
        res == key_usage_bits(digital_signature, key_cert_sign, crl_sign),
{
    let mut bits: u16 = 0;
    if digital_signature {
        bits = bits + 1;
    }
    if key_cert_sign {
        bits = bits + 32;
    }
    if crl_sign {
        bits = bits + 64;
    }
    bits
}

/// The DER of the GeneralName of a host.
pub open spec fn general_name_der(h: HostNameView) -> Option<Seq<u8>> {
    match h {
        HostNameView::Dns(name) => dns_name_der(name),
        HostNameView::Ip(octets) => ip_name_der(octets),
    }
}

/// The DER of each host's GeneralName, when all encode.
pub open spec fn general_names_der(names: Seq<HostNameView>) -> Option<Seq<Seq<u8>>>
    decreases names.len(),
{
    if names.len() == 0 {
        Some(seq![])
    } else {
        match (general_names_der(names.drop_last()), general_name_der(names.last())) {
            (Some(prev), Some(n)) => Some(prev.push(n)),
            _ => None,
        }
    }
}

proof fn lemma_general_names_none(names: Seq<HostNameView>, k: int)
    requires
        0 < k <= names.len(),
        general_names_der(names.take(k)) is None,
    ensures
        general_names_der(names) is None,
    decreases names.len() - k,
{
    if k < names.len() {
        assert(names.take(k + 1).drop_last() =~= names.take(k));
        lemma_general_names_none(names, k + 1);
    } else {
        assert(names.take(k) =~= names);
    }
}

/// The DER of each host's GeneralName (see `general_names_der`).
fn encode_general_names(names: &Vec<HostName>) -> (res: Result<Vec<Vec<u8>>, der::Error>)
    ensures
        match general_names_der(names@.map_values(|h: HostName| h.view())) {
            Some(g) => (res matches Ok(v) && v@.map_values(|p: Vec<u8>| p@) == g),
            None => res is Err,
        },
{
    let ghost nv = names@.map_values(|h: HostName| h.view());
    let mut parts: Vec<Vec<u8>> = Vec::new();
    for i in 0..names.len()
        invariant
            nv == names@.map_values(|h: HostName| h.view()),
            general_names_der(nv.take(i as int)) == Some(parts@.map_values(|p: Vec<u8>| p@)),
    {
        proof {
            assert(nv.take(i + 1).drop_last() =~= nv.take(i as int));
            assert(nv.take(i + 1).last() == names@[i as int].view());
        }
        let d = match &names[i] {
            HostName::Dns(h) => encode_dns_name(h.as_str()),
            HostName::Ip(b) => encode_ip_name(b.as_slice()),
        };
        match d {
            Ok(d) => {
                let ghost before = parts@.map_values(|p: Vec<u8>| p@);
                parts.push(d);
                assert(parts@.map_values(|p: Vec<u8>| p@) =~= before.push(d@));
            },
            Err(e) => {
                proof {
                    lemma_general_names_none(nv, i + 1);
                }
                return Err(e);
            },
        }
    }
    assert(nv.take(nv.len() as int) =~= nv);
    Ok(parts)
}

/// The DER of an extension of a certificate with the subject.
pub open spec fn encoded_extension(e: ExtensionView, subject: Seq<u8>) -> Option<Seq<u8>> {
    match e {
        ExtensionView::BasicConstraints { ca, path_len } => basic_constraints_extension_der(
            ca,
            path_len,
            subject,
        ),
        ExtensionView::KeyUsage { digital_signature, key_cert_sign, crl_sign } =>
            key_usage_extension_der(key_usage_bits(digital_signature, key_cert_sign, crl_sign), subject),
        ExtensionView::ExtendedKeyUsage(oids) => extended_key_usage_extension_der(oids, subject),
        ExtensionView::SubjectAltName(names) => match general_names_der(names) {
            Some(g) => subject_alt_name_extension_der(g, subject),
            None => None,
        },
        ExtensionView::SubjectKeyIdentifier(id) => subject_key_identifier_extension_der(id, subject),
        ExtensionView::AuthorityKeyIdentifier(id) => authority_key_identifier_extension_der(id, subject),
    }
}

/// The DER of each extension, when all encode.
pub open spec fn encoded_extensions(es: Seq<ExtensionView>, subject: Seq<u8>) -> Option<Seq<Seq<u8>>>
    decreases es.len(),
{
    if es.len() == 0 {
        Some(seq![])
    } else {
        match (encoded_extensions(es.drop_last(), subject), encoded_extension(es.last(), subject)) {
            (Some(prev), Some(e)) => Some(prev.push(e)),
            _ => None,
        }
    }
}

/// The DER of the to-be-signed certificate for a profile and the subject's
/// public key info (DER): its serial number, signature algorithm, issuer,
/// validity and subject, that key, and its extensions in order.
pub open spec fn tbs_der(p: CertProfile, spki: Seq<u8>) -> Option<Seq<u8>> {
    match encoded_extensions(extension_views(p), p.subject@) {
        Some(exts) => tbs_certificate_der(
            p.serial@,
            p.signature_oid@,
            p.issuer@,
            p.not_before,
            p.not_after,
            p.subject@,
            spki,
            exts,
        ),
        None => None,
    }
}

/// An outside encoding result as a result of the tool.
fn der_result(r: Result<Vec<u8>, der::Error>) -> (res: Result<Vec<u8>, AppError>)
    ensures
        r matches Ok(v) ==> (res matches Ok(w) && w@ == v@),
        r is Err ==> res matches Err(AppError::X509(_)),
{
    match r {
        Ok(v) => Ok(v),
        Err(e) => Err(AppError::X509(der_error_text(&e))),
    }
}

/// The DER of an extension of a certificate with the subject.
fn encode_planned_extension(e: &ExtensionPlan, subject: &[u8]) -> (res: Result<Vec<u8>, AppError>)
    ensures
        match encoded_extension(e.view(), subject@) {
            Some(b) => (res matches Ok(v) && v@ == b),
            None => res matches Err(AppError::X509(_)),
        },
{
    let r = match e {
        ExtensionPlan::BasicConstraints { ca, path_len } => encode_basic_constraints(*ca, *path_len, subject),
        ExtensionPlan::KeyUsage { digital_signature, key_cert_sign, crl_sign } => encode_key_usage(
            key_usage_flags(*digital_signature, *key_cert_sign, *crl_sign),
            subject,
        ),
        ExtensionPlan::ExtendedKeyUsage(oids) => encode_extended_key_usage(oids, subject),
        ExtensionPlan::SubjectAltName(names) => match encode_general_names(names) {
            Ok(g) => encode_subject_alt_name(&g, subject),
            Err(e) => Err(e),
        },
        ExtensionPlan::SubjectKeyIdentifier(id) => encode_subject_key_identifier(id.as_slice(), subject),
        ExtensionPlan::AuthorityKeyIdentifier(id) => encode_authority_key_identifier(id.as_slice(), subject),
    };
    der_result(r)
}

/// The DER of the to-be-signed certificate for a profile and the subject's
/// public key info (see `tbs_der`). The HSM signs exactly these bytes.
pub fn encode_tbs(profile: &CertProfile, spki: &[u8]) -> (res: Result<Vec<u8>, AppError>)
    ensures
        match tbs_der(*profile, spki@) {
            Some(b) => (res matches Ok(v) && v@ == b),
            None => res matches Err(AppError::X509(_)),
        },
{
    let ghost ev = extension_views(*profile);
    let mut exts: Vec<Vec<u8>> = Vec::new();
    let mut failed = false;
    for i in 0..profile.extensions.len()
        invariant
            ev == extension_views(*profile),
            !failed ==> encoded_extensions(ev.take(i as int), profile.subject@) == Some(
                exts@.map_values(|p: Vec<u8>| p@),
            ),
            failed ==> encoded_extensions(ev, profile.subject@) is None,
    {
        if !failed {
            proof {
                assert(ev.take(i + 1).drop_last() =~= ev.take(i as int));
                assert(ev.take(i + 1).last() == profile.extensions@[i as int].view());
            }
            match encode_planned_extension(&profile.extensions[i], profile.subject.as_slice()) {
                Ok(d) => {
                    let ghost before = exts@.map_values(|p: Vec<u8>| p@);
                    exts.push(d);
                    assert(exts@.map_values(|p: Vec<u8>| p@) =~= before.push(d@));
                },
                Err(_) => {
                    failed = true;
                    proof {
                        lemma_encoded_extensions_none(ev, i + 1, profile.subject@);
                    }
                },
            }
        }
    }
    assert(ev.take(ev.len() as int) =~= ev);
    if failed {
        return Err(AppError::X509(String::from_str("certificate extension cannot be encoded")));
    }
    der_result(
        encode_tbs_certificate(
            profile.serial.as_slice(),
            profile.signature_oid.as_str(),
            profile.issuer.as_slice(),
            profile.not_before,
            profile.not_after,
            profile.subject.as_slice(),
            spki,
            &exts,
        ),
    )
}

proof fn lemma_encoded_extensions_none(es: Seq<ExtensionView>, k: int, subject: Seq<u8>)
    requires
        0 < k <= es.len(),
        encoded_extensions(es.take(k), subject) is None,
    ensures
        encoded_extensions(es, subject) is None,
    decreases es.len() - k,
{
    if k < es.len() {
        assert(es.take(k + 1).drop_last() =~= es.take(k));
        lemma_encoded_extensions_none(es, k + 1, subject);
    } else {
        assert(es.take(k) =~= es);
    }
}

/// The DER of the signed certificate (see `certificate_der`).
pub fn assemble_certificate(tbs: &[u8], signature_oid: &str, signature: &[u8]) -> (res: Result<Vec<u8>, AppError>)
    ensures
        match certificate_der(tbs@, signature_oid@, signature@) {
            Some(b) => (res matches Ok(v) && v@ == b),
            None => res matches Err(AppError::X509(_)),
        },
{
    der_result(encode_certificate(tbs, signature_oid, signature))
}

/// The PEM text of a certificate (label `CERTIFICATE`).
pub fn certificate_pem(der: &[u8]) -> (res: Result<String, AppError>)
    ensures
        match pem_text("CERTIFICATE"@, der@) {
            Some(t) => (res matches Ok(s) && s@ == t),
            None => res matches Err(AppError::X509(_)),
        },
{
    match encode_pem("CERTIFICATE", der) {
        Ok(s) => Ok(s),
        Err(e) => Err(AppError::X509(der_error_text(&e))),
    }
}

/// The text and data of a PEM document: its label and the decoded bytes.
pub uninterp spec fn pem_decoded(text: Seq<u8>) -> Option<(Seq<char>, Seq<u8>)>;

/// `pem::decode_vec` of `der`.
#[verifier::external_body]
fn decode_pem(text: &[u8]) -> (res: Result<(String, Vec<u8>), der::Error>)
    ensures
        match pem_decoded(text@) {
            Some(d) => (res matches Ok(x) && x.0@ == d.0 && x.1@ == d.1),
            None => res is Err,
        },
{
    let (label, data) = der::pem::decode_vec(text)?;
    Ok((label.to_string(), data))
}

/// What the tool reads of a certificate besides its subject's attributes.
#[derive(Debug)]
pub struct CertFields {
    pub subject_der: Vec<u8>,
    pub not_after: i64,
    pub extensions: Vec<CertExtension>,
    pub key_bits: Vec<u8>,
}

/// The content of an extension: its dotted OID and its DER value.
pub open spec fn extension_content(e: CertExtension) -> (Seq<char>, Seq<u8>) {
    (e.oid@, e.value@)
}

/// The content of `CertFields`.
pub struct CertFieldsView {
    pub subject_der: Seq<u8>,
    pub not_after: int,
    pub extensions: Seq<(Seq<char>, Seq<u8>)>,
    pub key_bits: Seq<u8>,
}

impl CertFields {
    pub open spec fn view(&self) -> CertFieldsView {
        CertFieldsView {
            subject_der: self.subject_der@,
            not_after: self.not_after as int,
            extensions: self.extensions@.map_values(|e: CertExtension| extension_content(e)),
            key_bits: self.key_bits@,
        }
    }
}

/// What a DER certificate holds: its subject (DER), the end of its validity
/// (seconds since the epoch), its extensions, and its public key's bits.
pub uninterp spec fn certificate_fields(der: Seq<u8>) -> Option<CertFieldsView>;

/// `Certificate::from_der` of `x509-cert`, read into plain fields.
#[verifier::external_body]
fn decode_certificate(der: &[u8]) -> (res: Result<CertFields, der::Error>)
    ensures
        match certificate_fields(der@) {
            Some(f) => (res matches Ok(x) && x.view() == f),
            None => res is Err,
        },
{
    let c = x509_cert::Certificate::from_der(der)?;
    let t = &c.tbs_certificate;
    let extensions = t.extensions.iter().flatten().map(|e| CertExtension {
        oid: e.extn_id.to_string(),
        value: e.extn_value.as_bytes().to_vec(),
    }).collect();
    let not_after = t.validity.not_after.to_unix_duration().as_secs() as i64;
    let key_bits = t.subject_public_key_info.subject_public_key.raw_bytes().to_vec();
    Ok(CertFields { subject_der: t.subject.to_der()?, not_after, extensions, key_bits })
}

/// One attribute of a name as encoded: its dotted OID, the tag of its value and the value's content octets.
#[derive(Debug)]
pub struct AttributePart {
    pub oid: String,
    pub tag: u8,
    pub value: Vec<u8>,
}

/// The content of an `AttributePart`.
pub open spec fn part_content(a: AttributePart) -> (Seq<char>, u8, Seq<u8>) {
    (a.oid@, a.tag, a.value@)
}

/// The attributes of each relative distinguished name of a DER name.
pub uninterp spec fn name_attribute_parts(der: Seq<u8>) -> Option<Seq<Seq<(Seq<char>, u8, Seq<u8>)>>>;

/// `Name::from_der` of `x509-cert`, each attribute read into its parts.
#[verifier::external_body]
fn decode_name(der: &[u8]) -> (res: Result<Vec<Vec<AttributePart>>, der::Error>)
    ensures
        match name_attribute_parts(der@) {
            Some(p) => (res matches Ok(x) && x@.map_values(
                |r: Vec<AttributePart>| r@.map_values(|a: AttributePart| part_content(a)),
            ) == p),
            None => res is Err,
        },
{
    let name = x509_cert::name::Name::from_der(der)?;
    Ok(name.0.iter().map(|rdn| rdn.0.iter().map(|a| AttributePart {
        oid: a.oid.to_string(),
        tag: a.value.tag().octet(),
        value: a.value.value().to_vec(),
    }).collect()).collect())
}

/// The text of an attribute value that is a printable, UTF-8, IA5 or
/// teletex string and decodes as one.
pub uninterp spec fn attribute_text(tag: u8, value: Seq<u8>) -> Option<Seq<char>>;

/// The string of an attribute value by its tag, through the `der` string
/// types (`PrintableStringRef`, `Utf8StringRef`, `Ia5StringRef`, `TeletexStringRef`).
#[verifier::external_body]
fn decode_attribute_text(tag: u8, value: &[u8]) -> (res: Option<String>)
    ensures
        match attribute_text(tag, value@) {
            Some(t) => (res matches Some(s) && s@ == t),
            None => res is None,
        },
{
    let any = der::asn1::AnyRef::new(der::Tag::try_from(tag).ok()?, value).ok()?;
    match any.tag() {
        der::Tag::PrintableString => PrintableStringRef::try_from(any).ok().map(|s| s.as_str().to_string()),
        der::Tag::Utf8String => Utf8StringRef::try_from(any).ok().map(|s| s.as_str().to_string()),
        der::Tag::Ia5String => Ia5StringRef::try_from(any).ok().map(|s| s.as_str().to_string()),
        der::Tag::TeletexString => TeletexStringRef::try_from(any).ok().map(|s| s.as_str().to_string()),
        _ => None,
    }
}

/// The content of a name attribute of a summary.
pub open spec fn attribute_content(a: NameAttribute) -> (Seq<char>, Option<Seq<char>>) {
    (a.oid@, match a.value {
        Some(v) => Some(v@),
        None => None,
    })
}

/// The content of a certificate summary.
pub struct CertSummaryView {
    pub subject: Seq<Seq<(Seq<char>, Option<Seq<char>>)>>,
    pub not_after: int,
    pub extensions: Seq<(Seq<char>, Seq<u8>)>,
    pub subject_der: Seq<u8>,
    pub key_bits: Seq<u8>,
}

/// The content of a certificate summary.
pub open spec fn summary_content(s: CertSummary) -> CertSummaryView {
    CertSummaryView {
        subject: s.subject@.map_values(
            |r: Vec<NameAttribute>| r@.map_values(|a: NameAttribute| attribute_content(a)),
        ),
        not_after: s.not_after as int,
        extensions: s.extensions@.map_values(|e: CertExtension| extension_content(e)),
        subject_der: s.subject_der@,
        key_bits: s.key_bits@,
    }
}

/// The attributes of a name with their values read as text.
pub open spec fn attributes_with_text(parts: Seq<Seq<(Seq<char>, u8, Seq<u8>)>>) -> Seq<Seq<(Seq<char>, Option<Seq<char>>)>> {
    parts.map_values(
        |r: Seq<(Seq<char>, u8, Seq<u8>)>|
            r.map_values(|a: (Seq<char>, u8, Seq<u8>)| (a.0, attribute_text(a.1, a.2))),
    )
}

/// The DER inside file contents: the contents themselves, or for PEM text
/// (starting with `-----BEGIN`) the data of a document with the given label.
pub open spec fn file_der(contents: Seq<u8>, label: Seq<char>) -> Option<Seq<u8>> {
    if has_prefix(contents, encode_utf8(pem_begin())) {
        match pem_decoded(contents) {
            Some(d) => if d.0 == label {
                Some(d.1)
            } else {
                None
            },
            None => None,
        }
    } else {
        Some(contents)
    }
}

/// What the tool reads of a certificate file (PEM or DER).
pub open spec fn spec_read_ca_cert(contents: Seq<u8>) -> Option<CertSummaryView> {
    match file_der(contents, "CERTIFICATE"@) {
        None => None,
        Some(der) => match certificate_fields(der) {
            None => None,
            Some(f) => match name_attribute_parts(f.subject_der) {
                None => None,
                Some(p) => Some(
                    CertSummaryView {
                        subject: attributes_with_text(p),
                        not_after: f.not_after,
                        extensions: f.extensions,
                        subject_der: f.subject_der,
                        key_bits: f.key_bits,
                    },
                ),
            },
        },
    }
}

/// The DER inside file contents (see `file_der`).
fn read_file_der(contents: &[u8], label: &str) -> (res: Result<Vec<u8>, AppError>)
    ensures
        match file_der(contents@, label@) {
            Some(d) => (res matches Ok(v) && v@ == d),
            None => res matches Err(AppError::X509(_)),
        },
{
    if is_pem(contents) {
        match decode_pem(contents) {
            Ok((l, d)) => if crate::hsm::str_equal(l.as_str(), label) {
                Ok(d)
            } else {
                Err(AppError::X509(String::from_str("unexpected PEM label")))
            },
            Err(e) => Err(AppError::X509(der_error_text(&e))),
        }
    } else {
        Ok(vstd::slice::slice_to_vec(contents))
    }
}

/// The attributes of a name with their values read as text.
fn attributes_from_parts(parts: &Vec<Vec<AttributePart>>) -> (res: Vec<Vec<NameAttribute>>)
    ensures
        res@.map_values(
            |r: Vec<NameAttribute>| r@.map_values(|a: NameAttribute| attribute_content(a)),
        ) == attributes_with_text(
            parts@.map_values(|r: Vec<AttributePart>| r@.map_values(|a: AttributePart| part_content(a))),
        ),
{
    let ghost pv = parts@.map_values(|r: Vec<AttributePart>| r@.map_values(|a: AttributePart| part_content(a)));
    let mut out: Vec<Vec<NameAttribute>> = Vec::new();
    for i in 0..parts.len()
        invariant
            pv == parts@.map_values(|r: Vec<AttributePart>| r@.map_values(|a: AttributePart| part_content(a))),
            out@.map_values(
                |r: Vec<NameAttribute>| r@.map_values(|a: NameAttribute| attribute_content(a)),
            ) == attributes_with_text(pv.take(i as int)),
    {
        let rdn = &parts[i];
        let ghost rv = rdn@.map_values(|a: AttributePart| part_content(a));
        assert(pv[i as int] == rv);
        let mut attrs: Vec<NameAttribute> = Vec::new();
        for j in 0..rdn.len()
            invariant
                rv == rdn@.map_values(|a: AttributePart| part_content(a)),
                attrs@.map_values(|a: NameAttribute| attribute_content(a)) == rv.take(j as int).map_values(
                    |a: (Seq<char>, u8, Seq<u8>)| (a.0, attribute_text(a.1, a.2)),
                ),
        {
            let a = &rdn[j];
            assert(rv[j as int] == part_content(*a));
            let value = decode_attribute_text(a.tag, a.value.as_slice());
            let ghost before = attrs@.map_values(|a: NameAttribute| attribute_content(a));
            let item = NameAttribute { oid: a.oid.clone(), value };
            attrs.push(item);
            assert(attrs@.map_values(|a: NameAttribute| attribute_content(a)) =~= before.push(
                attribute_content(item),
            ));
            assert(rv.take(j + 1).map_values(|a: (Seq<char>, u8, Seq<u8>)| (a.0, attribute_text(a.1, a.2)))
                =~= rv.take(j as int).map_values(
                |a: (Seq<char>, u8, Seq<u8>)| (a.0, attribute_text(a.1, a.2)),
            ).push((rv[j as int].0, attribute_text(rv[j as int].1, rv[j as int].2))));
        }
        assert(rv.take(rdn@.len() as int) =~= rv);
        let ghost before = out@.map_values(
            |r: Vec<NameAttribute>| r@.map_values(|a: NameAttribute| attribute_content(a)),
        );
        let ghost av = attrs@.map_values(|a: NameAttribute| attribute_content(a));
        out.push(attrs);
        assert(out@.map_values(
            |r: Vec<NameAttribute>| r@.map_values(|a: NameAttribute| attribute_content(a)),
        ) =~= before.push(av));
        assert(attributes_with_text(pv.take(i + 1)) =~= attributes_with_text(pv.take(i as int)).push(
            rv.map_values(|a: (Seq<char>, u8, Seq<u8>)| (a.0, attribute_text(a.1, a.2))),
        ));
    }
    assert(pv.take(parts@.len() as int) =~= pv);
    out
}

/// A certificate file (PEM or DER) read into what the tool lists and
/// issues from (see `spec_read_ca_cert`).
pub fn read_ca_cert(contents: &[u8]) -> (res: Result<CertSummary, AppError>)
    ensures
        match spec_read_ca_cert(contents@) {
            Some(v) => (res matches Ok(s) && summary_content(s) == v),
            None => res matches Err(AppError::X509(_)),
        },
{
    proof {
        reveal_strlit("CERTIFICATE");
    }
    let der = read_file_der(contents, "CERTIFICATE")?;
    let fields = match decode_certificate(der.as_slice()) {
        Ok(f) => f,
        Err(e) => {
            return Err(AppError::X509(der_error_text(&e)));
        },
    };
    let parts = match decode_name(fields.subject_der.as_slice()) {
        Ok(p) => p,
        Err(e) => {
            return Err(AppError::X509(der_error_text(&e)));
        },
    };
    let subject = attributes_from_parts(&parts);
    Ok(
        CertSummary {
            subject,
            not_after: fields.not_after,
            extensions: fields.extensions,
            subject_der: fields.subject_der,
            key_bits: fields.key_bits,
        },
    )
}

/// What a DER certificate signing request holds: the DER of its request
/// info, its signature algorithm (dotted OID) and its signature's bits.
pub uninterp spec fn csr_parts(der: Seq<u8>) -> Option<(Seq<u8>, Seq<char>, Seq<u8>)>;

/// `CertReq::from_der` of `x509-cert`, read into plain parts.
#[verifier::external_body]
fn decode_csr(der: &[u8]) -> (res: Result<(Vec<u8>, String, Vec<u8>), der::Error>)
    ensures
        match csr_parts(der@) {
            Some(p) => (res matches Ok(x) && x.0@ == p.0 && x.1@ == p.1 && x.2@ == p.2),
            None => res is Err,
        },
{
    let r = x509_cert::request::CertReq::from_der(der)?;
    Ok((r.info.to_der()?, r.algorithm.oid.to_string(), r.signature.raw_bytes().to_vec()))
}

/// What a DER request info holds: the DER of its subject and of its
/// subject public key info.
pub uninterp spec fn request_info_parts(info: Seq<u8>) -> Option<(Seq<u8>, Seq<u8>)>;

/// `CertReqInfo::from_der` of `x509-cert`, read into plain parts.
#[verifier::external_body]
fn decode_request_info(info: &[u8]) -> (res: Result<(Vec<u8>, Vec<u8>), der::Error>)
    ensures
        match request_info_parts(info@) {
            Some(p) => (res matches Ok(x) && x.0@ == p.0 && x.1@ == p.1),
            None => res is Err,
        },
{
    let i = x509_cert::request::CertReqInfo::from_der(info)?;
    Ok((i.subject.to_der()?, i.public_key.to_der()?))
}

/// What a DER subject public key info holds: its algorithm (dotted OID),
/// the DER of the algorithm's parameters if any, and the key's bits.
pub uninterp spec fn spki_parts(spki: Seq<u8>) -> Option<(Seq<char>, Option<Seq<u8>>, Seq<u8>)>;

/// `SubjectPublicKeyInfoOwned::from_der` of `spki`, read into plain parts.
#[verifier::external_body]
fn decode_spki(spki: &[u8]) -> (res: Result<(String, Option<Vec<u8>>, Vec<u8>), der::Error>)
    ensures
        match spki_parts(spki@) {
            Some(p) => (res matches Ok(x) && x.0@ == p.0 && x.2@ == p.2 && match p.1 {
                Some(b) => (x.1 matches Some(v) && v@ == b),
                None => x.1 is None,
            }),
            None => res is Err,
        },
{
    let k = spki::SubjectPublicKeyInfoOwned::from_der(spki)?;
    let params = match &k.algorithm.parameters {
        Some(p) => Some(p.to_der()?),
        None => None,
    };
    Ok((k.algorithm.oid.to_string(), params, k.subject_public_key.raw_bytes().to_vec()))
}

/// The dotted text of a DER OBJECT IDENTIFIER.
pub uninterp spec fn oid_text(der: Seq<u8>) -> Option<Seq<char>>;

/// `ObjectIdentifier::from_der` of `der`, as dotted text.
#[verifier::external_body]
fn decode_oid(der: &[u8]) -> (res: Option<String>)
    ensures
        match oid_text(der@) {
            Some(t) => (res matches Some(s) && s@ == t),
            None => res is None,
        },
{
    der::asn1::ObjectIdentifier::from_der(der).ok().map(|o| o.to_string())
}

/// The bits of the public key in a DER subject public key info, from which
/// key identifiers are made.
pub fn spki_key_bits(spki: &[u8]) -> (res: Result<Vec<u8>, AppError>)
    ensures
        match spki_parts(spki@) {
            Some(p) => (res matches Ok(v) && v@ == p.2),
            None => res matches Err(AppError::X509(_)),
        },
{
    match decode_spki(spki) {
        Ok((_, _, bits)) => Ok(bits),
        Err(e) => Err(AppError::X509(der_error_text(&e))),
    }
}

/// What the tool reads of a certificate signing request.
#[derive(Debug)]
pub struct CsrFacts {
    /// The key's algorithm, dotted.
    pub key_algorithm: String,
    /// The key's curve, dotted, when its parameters are an OID.
    pub curve: Option<String>,
    /// The signature algorithm, dotted.
    pub signature_algorithm: String,
    /// The bits of the public key.
    pub public_key: Vec<u8>,
    /// The DER of the signed request info.
    pub request_info: Vec<u8>,
    /// The bits of the signature.
    pub signature: Vec<u8>,
    /// The DER of the requested subject.
    pub subject: Vec<u8>,
    /// The DER of the subject public key info.
    pub spki: Vec<u8>,
}

/// The content of `CsrFacts`.
pub struct CsrView {
    pub key_algorithm: Seq<char>,
    pub curve: Option<Seq<char>>,
    pub signature_algorithm: Seq<char>,
    pub public_key: Seq<u8>,
    pub request_info: Seq<u8>,
    pub signature: Seq<u8>,
    pub subject: Seq<u8>,
    pub spki: Seq<u8>,
}

impl CsrFacts {
    pub open spec fn view(&self) -> CsrView {
        CsrView {
            key_algorithm: self.key_algorithm@,
            curve: match self.curve {
                Some(c) => Some(c@),
                None => None,
            },
            signature_algorithm: self.signature_algorithm@,
            public_key: self.public_key@,
            request_info: self.request_info@,
            signature: self.signature@,
            subject: self.subject@,
            spki: self.spki@,
        }
    }
}

/// What the tool reads of a certificate signing request file (PEM or DER).
pub open spec fn spec_read_csr(contents: Seq<u8>) -> Option<CsrView> {
    match file_der(contents, "CERTIFICATE REQUEST"@) {
        None => None,
        Some(der) => match csr_parts(der) {
            None => None,
            Some((info, signature_algorithm, signature)) => match request_info_parts(info) {
                None => None,
                Some((subject, spki)) => match spki_parts(spki) {
                    None => None,
                    Some((key_algorithm, params, public_key)) => Some(
                        CsrView {
                            key_algorithm,
                            curve: match params {
                                Some(p) => oid_text(p),
                                None => None,
                            },
                            signature_algorithm,
                            public_key,
                            request_info: info,
                            signature,
                            subject,
                            spki,
                        },
                    ),
                },
            },
        },
    }
}

/// A certificate signing request file (PEM or DER) read into what the
/// tool checks and signs (see `spec_read_csr`).
pub fn read_csr(contents: &[u8]) -> (res: Result<CsrFacts, AppError>)
    ensures
        match spec_read_csr(contents@) {
            Some(v) => (res matches Ok(f) && f.view() == v),
            None => res matches Err(AppError::X509(_)),
        },
{
    proof {
        reveal_strlit("CERTIFICATE REQUEST");
    }
    let der = read_file_der(contents, "CERTIFICATE REQUEST")?;
    let (request_info, signature_algorithm, signature) = match decode_csr(der.as_slice()) {
        Ok(p) => p,
        Err(e) => {
            return Err(AppError::X509(der_error_text(&e)));
        },
    };
    let (subject, spki) = match decode_request_info(request_info.as_slice()) {
        Ok(p) => p,
        Err(e) => {
            return Err(AppError::X509(der_error_text(&e)));
        },
    };
    let (key_algorithm, params, public_key) = match decode_spki(spki.as_slice()) {
        Ok(p) => p,
        Err(e) => {
            return Err(AppError::X509(der_error_text(&e)));
        },
    };
    let curve = match &params {
        Some(p) => decode_oid(p.as_slice()),
        None => None,
    };
    Ok(
        CsrFacts {
            key_algorithm,
            curve,
            signature_algorithm,
            public_key,
            request_info,
            signature,
            subject,
            spki,
        },
    )
}

/// The profile part of an outcome that also carries a subject public key info.
pub open spec fn profile_of(res: Result<(CertProfile, Vec<u8>), AppError>) -> Result<CertProfile, AppError> {
    match res {
        Ok((p, _)) => Ok(p),
        Err(e) => Err(e),
    }
}

/// The profile of a TLS leaf for the leaf key with the scalar, issued by
/// the CA whose certificate is `ca`, with the leaf key's subject public key
/// info: subject `CN=<name>,OU=<organizational unit>`, issuer the CA
/// certificate's subject, signed with the algorithm of the CA's key, with
/// the key identifiers of the leaf's key and of the CA certificate's key.
/// The leaf's public key, the subject, the signature algorithm and the
/// key's bits are settled in that order; the first that fails is the error.
pub fn leaf_profile_for_ca(
    ca: &CertSummary,
    organizational_unit: &str,
    ca_key_algorithm: AsymAlgorithm,
    args: &TlsAddArgs,
    host_addresses: &Vec<Option<Vec<u8>>>,
    leaf_key: &[u8],
    serial: Vec<u8>,
    validity: (u64, u64),
) -> (res: Result<(CertProfile, Vec<u8>), AppError>)
    requires
        host_addresses@.len() == args.hosts@.len(),
    ensures
        p256_scalar_spki(leaf_key@) is None ==> (res matches Err(AppError::X509(m)) && m@
            == "invalid leaf public key"@),
        p256_scalar_spki(leaf_key@) is Some && dn_der(subject_dn_text(args.name@, organizational_unit@))
            is None ==> (res matches Err(AppError::X509(_))),
        p256_scalar_spki(leaf_key@) is Some && dn_der(subject_dn_text(args.name@, organizational_unit@))
            is Some && spec_signature_oid(ca_key_algorithm) is None ==> (res matches Err(
            AppError::Usage(m),
        ) && m@ == "unsupported CA key algorithm for signing"@),
        p256_scalar_spki(leaf_key@) is Some && dn_der(subject_dn_text(args.name@, organizational_unit@))
            is Some && spec_signature_oid(ca_key_algorithm) is Some && spki_parts(
            p256_scalar_spki(leaf_key@)->0,
        ) is None ==> (res matches Err(AppError::X509(_))),
        p256_scalar_spki(leaf_key@) is Some && dn_der(subject_dn_text(args.name@, organizational_unit@))
            is Some && spec_signature_oid(ca_key_algorithm) is Some && spki_parts(
            p256_scalar_spki(leaf_key@)->0,
        ) is Some ==> leaf_result(
            profile_of(res),
            dn_der(subject_dn_text(args.name@, organizational_unit@))->0,
            ca.subject_der@,
            serial@,
            validity,
            spec_signature_oid(ca_key_algorithm)->0,
            args,
            host_addresses,
            (spki_parts(p256_scalar_spki(leaf_key@)->0)->0).2,
            ca.key_bits@,
        ),
        res matches Ok((_, v)) ==> v@ == p256_scalar_spki(leaf_key@)->0,
{
    let leaf_spki = spki_from_leaf_key(leaf_key)?;
    let subject = name_from_cn_ou(args.name.as_str(), organizational_unit)?;
    let signature_oid = signature_algorithm_identifier(ca_key_algorithm)?;
    let leaf_bits = spki_key_bits(leaf_spki.as_slice())?;
    let profile = build_leaf_cert(
        subject,
        ca.subject_der.clone(),
        serial,
        validity,
        leaf_bits.as_slice(),
        ca.key_bits.as_slice(),
        signature_oid,
        args,
        host_addresses,
    );
    match profile {
        Ok(p) => Ok((p, leaf_spki)),
        Err(e) => Err(e),
    }
}

/// The profile of the subordinate CA certificate that the CA whose
/// certificate is `ca` issues for a certificate signing request: the
/// request's subject, key and key identifier, the CA certificate's subject
/// as issuer and its key's identifier as authority key identifier, signed
/// with the algorithm of the CA's key.
pub fn subordinate_profile_for_csr(
    csr: &CsrFacts,
    ca: &CertSummary,
    ca_key_algorithm: AsymAlgorithm,
    serial: Vec<u8>,
    validity: (u64, u64),
    path_len: u8,
) -> (res: Result<CertProfile, AppError>)
    ensures
        spec_signature_oid(ca_key_algorithm) is None ==> (res matches Err(AppError::Usage(m)) && m@
            == "unsupported CA key algorithm for signing"@),
        spec_signature_oid(ca_key_algorithm) is Some ==> (res matches Ok(p) && p.subject@
            == csr.subject@ && p.issuer@ == ca.subject_der@ && p.serial@ == serial@ && p.not_before
            == validity.0 && p.not_after == validity.1 && p.signature_oid@ == spec_signature_oid(
            ca_key_algorithm,
        )->0 && extension_views(p) == subordinate_ca_extensions(
            path_len,
            sha1(csr.public_key@),
            sha1(ca.key_bits@),
        )),
{
    let signature_oid = signature_algorithm_identifier(ca_key_algorithm)?;
    Ok(
        build_subordinate_ca(
            csr.subject.clone(),
            ca.subject_der.clone(),
            serial,
            validity,
            csr.public_key.as_slice(),
            ca.key_bits.as_slice(),
            signature_oid,
            path_len,
        ),
    )
}

/// The profile of a self-signed root CA certificate for the HSM key with
/// the algorithm and the raw public key bytes, with the key's subject
/// public key info: subject (and issuer)
/// `CN=<common name>,OU=<organizational unit>`, signed with the algorithm
/// of the key, with the key's identifier as both key identifiers. The
/// subject, the signature algorithm and the key are settled in that order;
/// the first that fails is the error.
pub fn root_profile_for_key(
    common_name: &str,
    organizational_unit: &str,
    key_algorithm: AsymAlgorithm,
    public_key: &[u8],
    serial: Vec<u8>,
    validity: (u64, u64),
) -> (res: Result<(CertProfile, Vec<u8>), AppError>)
    ensures
        dn_der(subject_dn_text(common_name@, organizational_unit@)) is None ==> (res matches Err(
            AppError::X509(_),
        )),
        dn_der(subject_dn_text(common_name@, organizational_unit@)) is Some && spec_signature_oid(
            key_algorithm,
        ) is None ==> (res matches Err(AppError::Usage(m)) && m@
            == "unsupported CA key algorithm for signing"@),
        dn_der(subject_dn_text(common_name@, organizational_unit@)) is Some && spec_signature_oid(
            key_algorithm,
        ) is Some && key_algorithm != AsymAlgorithm::EcP256 ==> (res matches Err(AppError::Usage(m))
            && m@ == "unsupported HSM public key algorithm"@),
        dn_der(subject_dn_text(common_name@, organizational_unit@)) is Some && key_algorithm
            == AsymAlgorithm::EcP256 && p256_hsm_key_spki(public_key@) is None ==> (res matches Err(
            AppError::X509(m),
        ) && m@ == "invalid P-256 public key"@),
        dn_der(subject_dn_text(common_name@, organizational_unit@)) is Some && key_algorithm
            == AsymAlgorithm::EcP256 && p256_hsm_key_spki(public_key@) is Some && spki_parts(
            p256_hsm_key_spki(public_key@)->0,
        ) is None ==> (res matches Err(AppError::X509(_))),
        dn_der(subject_dn_text(common_name@, organizational_unit@)) is Some && key_algorithm
            == AsymAlgorithm::EcP256 && p256_hsm_key_spki(public_key@) is Some && spki_parts(
            p256_hsm_key_spki(public_key@)->0,
        ) is Some ==> (res matches Ok((p, v)) && v@ == p256_hsm_key_spki(public_key@)->0 && p.subject@
            == dn_der(subject_dn_text(common_name@, organizational_unit@))->0 && p.issuer@
            == p.subject@ && p.serial@ == serial@ && p.not_before == validity.0 && p.not_after
            == validity.1 && p.signature_oid@ == spec_signature_oid(key_algorithm)->0
            && extension_views(p) == root_ca_extensions(
            sha1((spki_parts(p256_hsm_key_spki(public_key@)->0)->0).2),
        )),
{
    let subject = name_from_cn_ou(common_name, organizational_unit)?;
    let signature_oid = signature_algorithm_identifier(key_algorithm)?;
    let spki = spki_from_hsm_public_key(key_algorithm, public_key)?;
    let key_bits = spki_key_bits(spki.as_slice())?;
    Ok((build_root_ca(subject, serial, validity, key_bits.as_slice(), signature_oid), spki))
}

} // verus!
