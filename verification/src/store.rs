//! The on-disk layout of the CA store and the listing of CAs.
use vstd::prelude::*;
use time::format_description::well_known::Rfc3339;

use crate::config::CaConfig;
use crate::error::AppError;
use crate::sort::{SortKey, sort_by_key, stable_sort};
use crate::table::{render_table, table_lines};
use crate::text::{chars_of, decimal, decimal_string, lemma_lex_total, lemma_lex_transitive, lex_le, lex_le_exec};

verus! {

/// `base` extended by `part` as `PathBuf::push` does on Unix: an absolute
/// `part` replaces `base`; otherwise a `/` is put between them unless
/// `base` is empty or already ends in `/`.
pub open spec fn path_join(base: Seq<char>, part: Seq<char>) -> Seq<char> {
    if part.len() > 0 && part[0] == '/' {
        part
    } else if base.len() > 0 && base.last() != '/' {
        base.push('/') + part
    } else {
        base + part
    }
}

/// `Path::join` on Unix paths held as text.
pub fn join_path(base: &str, part: &str) -> (res: String)
    ensures
        res@ == path_join(base@, part@),
{
    let p = chars_of(part);
    if p.len() > 0 && p[0] == '/' {
        return String::from_str(part);
    }
    let b = chars_of(base);
    proof {
        reveal_strlit("/");
    }
    if b.len() > 0 && b[b.len() - 1] != '/' {
        String::from_str(base).concat("/").concat(part)
    } else {
        String::from_str(base).concat(part)
    }
}

/// The directory of a CA: `<data>/ca/<short name>`.
pub open spec fn spec_ca_dir(data_dir: Seq<char>, short_name: Seq<char>) -> Seq<char> {
    path_join(path_join(data_dir, "ca"@), short_name)
}

/// The directory of a CA: `<data>/ca/<short name>`.
pub fn ca_dir(data_dir: &str, short_name: &str) -> (res: String)
    ensures
        res@ == spec_ca_dir(data_dir@, short_name@),
{
    let root = join_path(data_dir, "ca");
    join_path(root.as_str(), short_name)
}

/// The directory of a CA's TLS leaf keys and certificates.
pub fn ca_tls_dir(ca_dir: &str) -> (res: String)
    ensures
        res@ == path_join(ca_dir@, "tls"@),
{
    join_path(ca_dir, "tls")
}

/// The configuration file of a CA.
pub fn ca_config_path(ca_dir: &str) -> (res: String)
    ensures
        res@ == path_join(ca_dir@, "config.toml"@),
{
    join_path(ca_dir, "config.toml")
}

/// The certificate file of a CA.
pub fn ca_cert_path(ca_dir: &str) -> (res: String)
    ensures
        res@ == path_join(ca_dir@, "ca.crt"@),
{
    join_path(ca_dir, "ca.crt")
}

/// One attribute of a distinguished name: its OID in dotted form, and its
/// value when it is a text string (printable, UTF-8, IA5 or teletex).
#[derive(Debug)]
pub struct NameAttribute {
    pub oid: String,
    pub value: Option<String>,
}

/// One certificate extension: its OID in dotted form and its DER value.
#[derive(Debug)]
pub struct CertExtension {
    pub oid: String,
    pub value: Vec<u8>,
}

/// What the tool reads from a certificate.
#[derive(Debug)]
pub struct CertSummary {
    /// The subject's relative distinguished names, each a set of attributes.
    pub subject: Vec<Vec<NameAttribute>>,
    /// The end of the validity period, in seconds since the Unix epoch.
    pub not_after: i64,
    pub extensions: Vec<CertExtension>,
    /// The subject name, DER encoded.
    pub subject_der: Vec<u8>,
    /// The bits of the subject public key.
    pub key_bits: Vec<u8>,
}

/// A directory of the CA store, with what could be read of it.
#[derive(Debug)]
pub struct CaEntry {
    pub short_name: String,
    pub config: Option<CaConfig>,
    pub cert: Option<CertSummary>,
}

/// A line of the CA listing.
#[derive(Debug)]
pub struct CaRow {
    pub short_name: String,
    pub expires: String,
    pub common_name: String,
    pub organizational_unit: String,
    pub key_id: String,
    pub is_default: bool,
    pub status: String,
}

impl SortKey for CaEntry {
    /// Entries are ordered by short name.
    open spec fn key_le(&self, other: &Self) -> bool {
        lex_le(self.short_name@, other.short_name@)
    }

    fn key_le_exec(&self, other: &Self) -> (res: bool) {
        lex_le_exec(self.short_name.as_str(), other.short_name.as_str())
    }

    proof fn key_total(a: &Self, b: &Self) {
        lemma_lex_total(a.short_name@, b.short_name@);
    }

    proof fn key_transitive(a: &Self, b: &Self, c: &Self) {
        lemma_lex_transitive(a.short_name@, b.short_name@, c.short_name@);
    }
}

/// The CA entries in order of their short names.
pub fn sort_ca_entries(entries: Vec<CaEntry>) -> (res: Vec<CaEntry>)
    ensures
        res@ == stable_sort(entries@),
{
    sort_by_key(entries)
}

/// The CA's configuration names the key as its signing key.
pub open spec fn uses_key(entry: CaEntry, key_id: u16) -> bool {
    entry.config matches Some(c) && c.hsm.key_id == key_id
}

/// Whether some CA's configuration names the key as its signing key.
pub fn key_is_referenced(entries: &Vec<CaEntry>, key_id: u16) -> (res: bool)
    ensures
        res == exists|i: int| 0 <= i < entries@.len() && uses_key(#[trigger] entries@[i], key_id),
{
    for i in 0..entries.len()
        invariant
            forall|j: int| 0 <= j < i ==> !uses_key(#[trigger] entries@[j], key_id),
    {
        match &entries[i].config {
            Some(c) => {
                if c.hsm.key_id == key_id {
                    return true;
                }
            },
            None => {},
        }
    }
    false
}

/// All attributes of a name, in order.
pub open spec fn name_attributes(name: Seq<Vec<NameAttribute>>) -> Seq<NameAttribute>
    decreases name.len(),
{
    if name.len() == 0 {
        seq![]
    } else {
        name_attributes(name.drop_last()) + name.last()@
    }
}

/// The value of the first text attribute with the OID.
pub open spec fn first_attribute_value(attrs: Seq<NameAttribute>, oid: Seq<char>) -> Option<
    Seq<char>,
>
    decreases attrs.len(),
{
    if attrs.len() == 0 {
        None
    } else {
        match first_attribute_value(attrs.drop_last(), oid) {
            Some(v) => Some(v),
            None => if attrs.last().oid@ == oid && attrs.last().value is Some {
                Some(attrs.last().value->0@)
            } else {
                None
            },
        }
    }
}

/// The value of the first text attribute of the name with the OID.
pub fn find_attr_value(name: &Vec<Vec<NameAttribute>>, oid: &str) -> (res: Option<String>)
    ensures
        match first_attribute_value(name_attributes(name@), oid@) {
            Some(v) => (res matches Some(s) && s@ == v),
            None => res is None,
        },
{
    let target = String::from_str(oid);
    for i in 0..name.len()
        invariant
            target@ == oid@,
            first_attribute_value(name_attributes(name@.take(i as int)), oid@) is None,
    {
        let rdn = &name[i];
        let ghost before = name_attributes(name@.take(i as int));
        assert(name@.take(i + 1).drop_last() =~= name@.take(i as int));
        for j in 0..rdn.len()
            invariant
                target@ == oid@,
                i < name@.len(),
                *rdn == name@[i as int],
                before == name_attributes(name@.take(i as int)),
                first_attribute_value(before + rdn@.take(j as int), oid@) is None,
        {
            let attr = &rdn[j];
            assert((before + rdn@.take(j + 1)).drop_last() =~= before + rdn@.take(j as int));
            if attr.oid == target {
                match &attr.value {
                    Some(v) => {
                        proof {
                            assert(name@.take(i + 1).drop_last() =~= name@.take(i as int));
                            assert(name@.take(i + 1).last() == name@[i as int]);
                            assert(name_attributes(name@.take(i + 1)) == before + rdn@);
                            assert((before + rdn@).take((before + rdn@.take(j + 1)).len() as int)
                                =~= before + rdn@.take(j + 1));
                            lemma_first_attribute_prefix(before + rdn@.take(j + 1), before + rdn@, oid@);
                            lemma_name_attributes_prefix(name@, i + 1);
                            lemma_first_attribute_prefix(before + rdn@, name_attributes(name@), oid@);
                        }
                        return Some(v.clone());
                    },
                    None => {},
                }
            }
        }
        assert(rdn@.take(rdn@.len() as int) =~= rdn@);
    }
    assert(name@.take(name@.len() as int) =~= name@);
    None
}

proof fn lemma_name_attributes_prefix(name: Seq<Vec<NameAttribute>>, k: int)
    requires
        0 <= k <= name.len(),
    ensures
        name_attributes(name.take(k)).len() <= name_attributes(name).len(),
        name_attributes(name).take(name_attributes(name.take(k)).len() as int) == name_attributes(
            name.take(k),
        ),
    decreases name.len(),
{
    if k == name.len() {
        assert(name.take(k) =~= name);
        assert(name_attributes(name).take(name_attributes(name).len() as int) =~= name_attributes(
            name,
        ));
    } else {
        let p = name.drop_last();
        lemma_name_attributes_prefix(p, k);
        assert(p.take(k) =~= name.take(k));
        let a = name_attributes(name.take(k));
        assert(name_attributes(name).take(a.len() as int) =~= name_attributes(p).take(a.len() as int));
    }
}

proof fn lemma_first_attribute_prefix(a: Seq<NameAttribute>, b: Seq<NameAttribute>, oid: Seq<char>)
    requires
        a.len() <= b.len(),
        b.take(a.len() as int) == a,
        first_attribute_value(a, oid) is Some,
    ensures
        first_attribute_value(b, oid) == first_attribute_value(a, oid),
    decreases b.len(),
{
    if b.len() > a.len() {
        assert(b.drop_last().take(a.len() as int) =~= a);
        lemma_first_attribute_prefix(a, b.drop_last(), oid);
    } else {
        assert(b.take(a.len() as int) =~= b);
    }
}

/// The RFC 3339 text of an instant given in seconds since the Unix epoch,
/// when the `time` crate can represent and format it.
pub uninterp spec fn rfc3339_text(unix_secs: int) -> Option<Seq<char>>;

/// `OffsetDateTime::from_unix_timestamp` followed by formatting as RFC 3339
/// (`time` crate); the error is the text of whichever step failed.
#[verifier::external_body]
fn rfc3339_from_unix(unix_secs: i64) -> (res: Result<String, String>)
    ensures
        match rfc3339_text(unix_secs as int) {
            Some(t) => (res matches Ok(s) && s@ == t),
            None => res is Err,
        },
{
    let dt = time::OffsetDateTime::from_unix_timestamp(unix_secs).map_err(|e| e.to_string())?;
    dt.format(&Rfc3339).map_err(|e| e.to_string())
}

/// A certificate time for display, as RFC 3339 text.
pub fn format_time(unix_secs: i64) -> (res: Result<String, AppError>)
    ensures
        match rfc3339_text(unix_secs as int) {
            Some(t) => (res matches Ok(s) && s@ == t),
            None => res matches Err(AppError::X509(_)),
        },
{
    match rfc3339_from_unix(unix_secs) {
        Ok(s) => Ok(s),
        Err(e) => Err(AppError::X509(e)),
    }
}

/// OID of the common name attribute.
pub open spec fn common_name_oid() -> Seq<char> {
    "2.5.4.3"@
}

/// OID of the organizational unit attribute.
pub open spec fn organizational_unit_oid() -> Seq<char> {
    "2.5.4.11"@
}

/// A name attribute of the certificate for display, or `-`.
pub open spec fn shown_attribute(cert: Option<CertSummary>, oid: Seq<char>) -> Seq<char> {
    match cert {
        Some(c) => match first_attribute_value(name_attributes(c.subject@), oid) {
            Some(v) => v,
            None => "-"@,
        },
        None => "-"@,
    }
}

/// The status of a CA directory: `broken` when it holds a configuration
/// or a certificate but not both, `missing cert` when it holds neither,
/// else `ok`.
pub open spec fn spec_ca_status(entry: CaEntry) -> Seq<char> {
    if entry.cert is None && entry.config is None {
        "missing cert"@
    } else if entry.cert is None || entry.config is None {
        "broken"@
    } else {
        "ok"@
    }
}

/// The signing key of a CA for display: its id, followed by its label in
/// parentheses when the configuration records one; `-` without a configuration.
pub open spec fn spec_ca_key_id(entry: CaEntry) -> Seq<char> {
    match entry.config {
        Some(c) => decimal(c.hsm.key_id as nat) + match c.hsm.key_label {
            Some(l) => " ("@ + l@ + ")"@,
            None => seq![],
        },
        None => "-"@,
    }
}

/// The listing line of a CA directory. The expiry is the certificate's
/// `not_after` in RFC 3339 (an error when it cannot be formatted), or `-`.
pub fn format_ca_entry(entry: CaEntry, default_ca: Option<&str>) -> (res: Result<CaRow, AppError>)
    ensures
        (entry.cert matches Some(c) && rfc3339_text(c.not_after as int) is None) ==> (res matches Err(
            AppError::X509(_),
        )),
        !(entry.cert matches Some(c) && rfc3339_text(c.not_after as int) is None) ==> (res matches Ok(
            row,
        ) && row.short_name@ == entry.short_name@ && row.status@ == spec_ca_status(entry)
            && row.key_id@ == spec_ca_key_id(entry) && row.common_name@ == shown_attribute(
            entry.cert,
            common_name_oid(),
        ) && row.organizational_unit@ == shown_attribute(entry.cert, organizational_unit_oid())
            && row.expires@ == match entry.cert {
            Some(c) => rfc3339_text(c.not_after as int)->0,
            None => "-"@,
        } && row.is_default == (default_ca matches Some(d) && d@ == entry.short_name@)),
{
    let mut status = String::from_str("ok");
    let mut common_name = String::from_str("-");
    let mut organizational_unit = String::from_str("-");
    let mut expires = String::from_str("-");
    let mut key_id = String::from_str("-");
    if entry.cert.is_none() && entry.config.is_none() {
        status = String::from_str("missing cert");
    } else if entry.cert.is_none() || entry.config.is_none() {
        status = String::from_str("broken");
    }
    match &entry.config {
        Some(config) => {
            let id = decimal_string(config.hsm.key_id as u64);
            key_id = match &config.hsm.key_label {
                Some(l) => id.concat(" (").concat(l.as_str()).concat(")"),
                None => id,
            };
            proof {
                reveal_strlit(" (");
                reveal_strlit(")");
            }
        },
        None => {},
    }
    match &entry.cert {
        Some(cert) => {
            match find_attr_value(&cert.subject, "2.5.4.3") {
                Some(v) => {
                    common_name = v;
                },
                None => {},
            }
            match find_attr_value(&cert.subject, "2.5.4.11") {
                Some(v) => {
                    organizational_unit = v;
                },
                None => {},
            }
            expires = format_time(cert.not_after)?;
        },
        None => {},
    }
    let is_default = match default_ca {
        Some(d) => String::from_str(d) == entry.short_name,
        None => false,
    };
    Ok(
        CaRow {
            short_name: entry.short_name,
            expires,
            common_name,
            organizational_unit,
            key_id,
            is_default,
            status,
        },
    )
}

/// The header cells of the CA listing.
pub open spec fn ca_table_headers() -> Seq<Seq<char>> {
    seq!["CA"@, "Default"@, "Expires"@, "CN"@, "OU"@, "Key"@, "Status"@]
}

/// The cells of a CA listing line.
pub open spec fn ca_row_cells(row: CaRow) -> Seq<Seq<char>> {
    seq![
        row.short_name@,
        if row.is_default {
            "yes"@
        } else {
            "-"@
        },
        row.expires@,
        row.common_name@,
        row.organizational_unit@,
        row.key_id@,
        row.status@,
    ]
}

/// The lines of the CA listing table, as `pkm ca list` prints them.
pub fn ca_table_lines(rows: &Vec<CaRow>) -> (res: Vec<String>)
    ensures
        res@.map_values(|s: String| s@) == table_lines(
            ca_table_headers(),
            rows@.map_values(|r: CaRow| ca_row_cells(r)),
        ),
{
    let headers: Vec<String> = vec![
        String::from_str("CA"),
        String::from_str("Default"),
        String::from_str("Expires"),
        String::from_str("CN"),
        String::from_str("OU"),
        String::from_str("Key"),
        String::from_str("Status"),
    ];
    let mut cells: Vec<Vec<String>> = Vec::new();
    for i in 0..rows.len()
        invariant
            cells@.len() == i,
            forall|r: int| 0 <= r < i ==> (#[trigger] cells@[r])@.len() == 7,
            forall|r: int|
                0 <= r < i ==> (#[trigger] cells@[r])@.map_values(|s: String| s@) == ca_row_cells(
                    rows@[r],
                ),
    {
        let row = &rows[i];
        let flag = if row.is_default {
            String::from_str("yes")
        } else {
            String::from_str("-")
        };
        let line: Vec<String> = vec![
            row.short_name.clone(),
            flag,
            row.expires.clone(),
            row.common_name.clone(),
            row.organizational_unit.clone(),
            row.key_id.clone(),
            row.status.clone(),
        ];
        assert(line@.map_values(|s: String| s@) =~= ca_row_cells(rows@[i as int]));
        cells.push(line);
    }
    proof {
        reveal_strlit("CA");
        reveal_strlit("Default");
        reveal_strlit("Expires");
        reveal_strlit("CN");
        reveal_strlit("OU");
        reveal_strlit("Key");
        reveal_strlit("Status");
        assert(headers@.map_values(|s: String| s@) =~= ca_table_headers());
    }
    let lines = render_table(&headers, &cells);
    proof {
        assert(crate::table::rows_view(cells@) =~= rows@.map_values(|r: CaRow| ca_row_cells(r)));
        assert(crate::table::cells_view(headers) =~= ca_table_headers());
    }
    lines
}

} // verus!
