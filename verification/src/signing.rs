//! Preparing data for the HSM's ECDSA signing and turning its raw
//! `r || s` signatures into DER.
use vstd::prelude::*;
use sha2::Digest;

use crate::error::AppError;
use crate::hsm::AsymAlgorithm;

verus! {

/// The SHA-256 digest of the data.
pub uninterp spec fn sha256(data: Seq<u8>) -> Seq<u8>;

/// The SHA-384 digest of the data.
pub uninterp spec fn sha384(data: Seq<u8>) -> Seq<u8>;

/// `Sha256::digest` of the `sha2` crate: 32 bytes.
#[verifier::external_body]
fn sha256_digest(data: &[u8]) -> (res: Vec<u8>)
    ensures
        res@ == sha256(data@),
        res@.len() == 32,
{
    sha2::Sha256::digest(data).to_vec()
}

/// `Sha384::digest` of the `sha2` crate: 48 bytes.
#[verifier::external_body]
fn sha384_digest(data: &[u8]) -> (res: Vec<u8>)
    ensures
        res@ == sha384(data@),
        res@.len() == 48,
{
    sha2::Sha384::digest(data).to_vec()
}

/// The digest the HSM signs for a key of the algorithm: SHA-256 for P-256,
/// SHA-384 for P-384; other algorithms cannot sign certificates.
pub fn signing_digest(algorithm: AsymAlgorithm, tbs: &[u8]) -> (res: Result<Vec<u8>, AppError>)
    ensures
        algorithm == AsymAlgorithm::EcP256 ==> (res matches Ok(d) && d@ == sha256(tbs@)),
        algorithm == AsymAlgorithm::EcP384 ==> (res matches Ok(d) && d@ == sha384(tbs@)),
        algorithm != AsymAlgorithm::EcP256 && algorithm != AsymAlgorithm::EcP384 ==> (res matches Err(
            AppError::Usage(m),
        ) && m@ == "unsupported CA key algorithm for signing"@),
{
    match algorithm {
        AsymAlgorithm::EcP256 => Ok(sha256_digest(tbs)),
        AsymAlgorithm::EcP384 => Ok(sha384_digest(tbs)),
        _ => Err(AppError::Usage(String::from_str("unsupported CA key algorithm for signing"))),
    }
}

/// The bytes with leading zero bytes dropped, keeping at least one byte.
pub open spec fn strip_leading_zeros(s: Seq<u8>) -> Seq<u8>
    decreases s.len(),
{
    if s.len() > 1 && s[0] == 0 {
        strip_leading_zeros(s.drop_first())
    } else {
        s
    }
}

/// The content octets of the DER INTEGER for an unsigned big-endian
/// number: minimal, with a zero byte in front when the top bit is set.
pub open spec fn der_integer_content(s: Seq<u8>) -> Seq<u8> {
    let t = strip_leading_zeros(s);
    if t.len() > 0 && t[0] >= 0x80 {
        seq![0u8] + t
    } else {
        t
    }
}

/// The minimal big-endian bytes of a number (none for zero).
pub open spec fn be_bytes(n: nat) -> Seq<u8>
    decreases n,
{
    if n == 0 {
        seq![]
    } else {
        be_bytes(n / 256).push((n % 256) as u8)
    }
}

/// The DER length octets for a content length: one byte below 128, else
/// `0x80` plus the number of length bytes, followed by those bytes.
pub open spec fn der_length(n: nat) -> Seq<u8> {
    if n < 128 {
        seq![n as u8]
    } else {
        seq![(0x80 + be_bytes(n).len()) as u8] + be_bytes(n)
    }
}

/// A DER element with the tag and content.
pub open spec fn der_element(tag: u8, content: Seq<u8>) -> Seq<u8> {
    seq![tag] + der_length(content.len()) + content
}

/// DER `SEQUENCE { INTEGER r, INTEGER s }` for a raw signature whose
/// first half is `r` and second half is `s`.
pub open spec fn der_signature(raw: Seq<u8>) -> Seq<u8> {
    let n = raw.len() / 2;
    let r = der_integer_content(raw.take(n as int));
    let s = der_integer_content(raw.skip(n as int));
    der_element(0x30, der_element(0x02, r) + der_element(0x02, s))
}

/// `256` to the power `k`.
pub open spec fn pow256(k: nat) -> nat
    decreases k,
{
    if k == 0 {
        1
    } else {
        256 * pow256((k - 1) as nat)
    }
}

proof fn lemma_be_bytes_len(n: nat, k: nat)
    requires
        n < pow256(k),
    ensures
        be_bytes(n).len() <= k,
    decreases k,
{
    if n > 0 {
        assert(k > 0);
        let p = pow256((k - 1) as nat);
        assert(n / 256 < p) by (nonlinear_arith)
            requires
                n < 256 * p,
        ;
        lemma_be_bytes_len(n / 256, (k - 1) as nat);
    }
}

/// The DER length octets for `n` (see `der_length`).
pub fn der_length_bytes(n: usize) -> (res: Vec<u8>)
    ensures
        res@ == der_length(n as nat),
{
    let mut out: Vec<u8> = Vec::new();
    if n < 128 {
        out.push(n as u8);
        return out;
    }
    let mut digits: Vec<u8> = Vec::new();
    let mut m: usize = n;
    while m > 0
        invariant
            be_bytes(n as nat) == be_bytes(m as nat) + digits@,
        decreases m,
    {
        let ghost before = digits@;
        digits.insert(0, (m % 256) as u8);
        assert(be_bytes(m as nat) == be_bytes((m / 256) as nat).push((m % 256) as u8));
        assert(be_bytes(m as nat) + before =~= be_bytes((m / 256) as nat) + digits@);
        m = m / 256;
    }
    assert(be_bytes(0) == Seq::<u8>::empty());
    assert(digits@ =~= be_bytes(n as nat));
    proof {
        reveal_with_fuel(pow256, 9);
        assert(pow256(8) == 0x1_0000_0000_0000_0000);
        lemma_be_bytes_len(n as nat, 8);
    }
    out.push(0x80 + digits.len() as u8);
    out.append(&mut digits);
    out
}

/// The DER element with the tag and content (see `der_element`).
pub fn encode_der_element(tag: u8, content: Vec<u8>) -> (res: Vec<u8>)
    ensures
        res@ == der_element(tag, content@),
{
    let mut out: Vec<u8> = Vec::new();
    out.push(tag);
    let mut len = der_length_bytes(content.len());
    out.append(&mut len);
    let mut content = content;
    out.append(&mut content);
    out
}

/// The number a big-endian byte string stands for.
pub open spec fn be_value(s: Seq<u8>) -> nat
    decreases s.len(),
{
    if s.len() == 0 {
        0
    } else {
        be_value(s.drop_last()) * 256 + s.last() as nat
    }
}

/// The DER INTEGER content octets for an unsigned big-endian number.
pub fn encode_der_integer(input: &[u8]) -> (res: Vec<u8>)
    requires
        input@.len() > 0,
    ensures
        res@ == der_integer_content(input@),
{
    let mut start: usize = 0;
    assert(input@.skip(0) =~= input@);
    while input.len() - start > 1 && input[start] == 0
        invariant
            start < input@.len(),
            strip_leading_zeros(input@) == strip_leading_zeros(input@.skip(start as int)),
        decreases input@.len() - start,
    {
        assert(input@.skip(start as int).drop_first() =~= input@.skip(start + 1));
        start = start + 1;
    }
    let ghost t = input@.skip(start as int);
    assert(strip_leading_zeros(t) == t);
    let mut out: Vec<u8> = Vec::new();
    if input[start] >= 0x80 {
        out.push(0);
    }
    let ghost lead = out@;
    let mut k = start;
    while k < input.len()
        invariant
            start <= k <= input@.len(),
            out@ == lead + input@.subrange(start as int, k as int),
        decreases input@.len() - k,
    {
        out.push(input[k]);
        assert(out@ =~= lead + input@.subrange(start as int, k + 1));
        k = k + 1;
    }
    assert(input@.subrange(start as int, input@.len() as int) =~= t);
    assert(out@ =~= der_integer_content(input@));
    out
}

/// The raw `r || s` signature from the HSM as DER; an odd length is an error.
pub fn raw_ecdsa_to_der(raw: &[u8]) -> (res: Result<Vec<u8>, AppError>)
    requires
        raw@.len() > 0,
    ensures
        raw@.len() % 2 != 0 ==> (res matches Err(AppError::X509(m)) && m@
            == "invalid ECDSA signature length"@),
        raw@.len() % 2 == 0 ==> (res matches Ok(d) && d@ == der_signature(raw@)),
{
    if raw.len() % 2 != 0 {
        return Err(AppError::X509(String::from_str("invalid ECDSA signature length")));
    }
    let n = raw.len() / 2;
    let (r, s) = raw.split_at(n);
    assert(r@ =~= raw@.take(n as int));
    assert(s@ =~= raw@.skip(n as int));
    let mut body = encode_der_element(0x02, encode_der_integer(r));
    let mut second = encode_der_element(0x02, encode_der_integer(s));
    body.append(&mut second);
    Ok(encode_der_element(0x30, body))
}

proof fn lemma_be_value_zero_front(s: Seq<u8>)
    ensures
        be_value(seq![0u8] + s) == be_value(s),
    decreases s.len(),
{
    if s.len() == 0 {
        assert(seq![0u8] + s =~= seq![0u8]);
        assert(seq![0u8].drop_last() =~= Seq::<u8>::empty());
        assert(be_value(seq![0u8].drop_last()) == 0);
        assert(be_value(s) == 0);
    } else {
        lemma_be_value_zero_front(s.drop_last());
        assert((seq![0u8] + s).drop_last() =~= seq![0u8] + s.drop_last());
        assert((seq![0u8] + s).last() == s.last());
    }
}

proof fn lemma_strip_value(s: Seq<u8>)
    requires
        s.len() > 0,
    ensures
        be_value(strip_leading_zeros(s)) == be_value(s),
        strip_leading_zeros(s).len() > 0,
        strip_leading_zeros(s).len() <= s.len(),
        strip_leading_zeros(s).len() == 1 || strip_leading_zeros(s)[0] != 0,
    decreases s.len(),
{
    if s.len() > 1 && s[0] == 0 {
        lemma_strip_value(s.drop_first());
        assert(seq![0u8] + s.drop_first() =~= s);
        lemma_be_value_zero_front(s.drop_first());
    }
}

/// Law: the DER INTEGER content octets stand for the same number as the
/// input, are non-negative (top bit clear), minimal (no redundant leading
/// zero byte), and at most one byte longer than the input.
pub proof fn lemma_der_integer(s: Seq<u8>)
    requires
        s.len() > 0,
    ensures
        be_value(der_integer_content(s)) == be_value(s),
        der_integer_content(s)[0] < 0x80,
        der_integer_content(s).len() == 1 || der_integer_content(s)[0] != 0
            || der_integer_content(s)[1] >= 0x80,
        0 < der_integer_content(s).len() <= s.len() + 1,
{
    lemma_strip_value(s);
    let t = strip_leading_zeros(s);
    if t[0] >= 0x80 {
        lemma_be_value_zero_front(t);
        assert((seq![0u8] + t)[1] == t[0]);
    }
}

/// Law: the DER of a raw signature is a SEQUENCE holding exactly two
/// INTEGERs, the first carrying `r` and the second `s`, each minimal and
/// non-negative, with lengths in DER form whatever their size.
pub proof fn lemma_der_signature_layout(raw: Seq<u8>)
    requires
        raw.len() % 2 == 0,
        raw.len() >= 2,
    ensures
        ({
            let n = raw.len() / 2;
            let r = der_integer_content(raw.take(n as int));
            let s = der_integer_content(raw.skip(n as int));
            &&& der_signature(raw) == der_element(0x30, der_element(0x02, r) + der_element(0x02, s))
            &&& be_value(r) == be_value(raw.take(n as int)) && r[0] < 0x80
            &&& be_value(s) == be_value(raw.skip(n as int)) && s[0] < 0x80
        }),
{
    let n = raw.len() / 2;
    lemma_der_integer(raw.take(n as int));
    lemma_der_integer(raw.skip(n as int));
}

/// Law: DER length octets stand for the length: a single byte below 128,
/// else a count byte `0x80 + k` followed by `k` minimal big-endian bytes
/// whose value is the length.
pub proof fn lemma_der_length(n: nat)
    ensures
        n < 128 ==> der_length(n) == seq![n as u8],
        n >= 128 ==> ({
            let k = be_bytes(n).len();
            &&& der_length(n).len() == k + 1
            &&& der_length(n)[0] == (0x80 + k) as u8
            &&& der_length(n).skip(1) == be_bytes(n)
            &&& be_value(be_bytes(n)) == n
            &&& be_bytes(n)[0] != 0
        }),
{
    if n >= 128 {
        lemma_be_bytes_value(n);
        assert((seq![(0x80 + be_bytes(n).len()) as u8] + be_bytes(n)).skip(1) =~= be_bytes(n));
    }
}

proof fn lemma_be_bytes_value(n: nat)
    requires
        n > 0,
    ensures
        be_value(be_bytes(n)) == n,
        be_bytes(n).len() > 0,
        be_bytes(n)[0] != 0,
    decreases n,
{
    let q = n / 256;
    let b = be_bytes(n);
    assert(b.drop_last() =~= be_bytes(q));
    if q > 0 {
        lemma_be_bytes_value(q);
        assert(b[0] == be_bytes(q)[0]);
    } else {
        assert(be_bytes(q) =~= Seq::<u8>::empty());
        assert(b[0] == (n % 256) as u8);
        assert(n % 256 == n);
    }
    assert(be_value(b) == be_value(be_bytes(q)) * 256 + b.last() as nat);
    assert(q * 256 + n % 256 == n);
}

} // verus!
