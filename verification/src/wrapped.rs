//! The ASCII armour in which HSM-wrapped TLS private keys are stored:
//! a header line, the Base64 of the wrap message in lines of 64
//! characters, and a footer line.
use vstd::prelude::*;
use vstd::utf8::*;
use yubihsm::wrap::Message;
use base64::Engine;

use crate::error::AppError;
use crate::text::{chars_of, is_white_space, push_char, string_from, trim, trim_chars, trim_end, trim_start};

verus! {

/// A message encrypted under an HSM wrap key (nonce followed by ciphertext).
#[verifier::external_type_specification]
#[verifier::external_body]
pub struct ExWrapMessage(yubihsm::wrap::Message);

/// Base64 decoding failure of the `base64` crate.
#[verifier::external_type_specification]
#[verifier::external_body]
pub struct ExBase64DecodeError(base64::DecodeError);

/// The bytes a wrap message consists of: its 13-byte nonce followed by its ciphertext.
pub uninterp spec fn wrap_message_bytes(m: Message) -> Seq<u8>;

/// What the standard Base64 engine (RFC 4648 alphabet, with padding)
/// produces for the given bytes.
pub uninterp spec fn base64_text(data: Seq<u8>) -> Seq<char>;

/// What the standard Base64 engine decodes the given bytes to, if they are valid.
pub uninterp spec fn base64_data(text: Seq<u8>) -> Option<Seq<u8>>;

/// Length of a wrap message nonce; shorter messages are invalid.
pub open spec fn wrap_nonce_len() -> nat {
    13
}

/// A character of the standard Base64 alphabet, or the padding character.
pub open spec fn is_base64_char(c: char) -> bool {
    ||| ('A' <= c && c <= 'Z')
    ||| ('a' <= c && c <= 'z')
    ||| ('0' <= c && c <= '9')
    ||| c == '+'
    ||| c == '/'
    ||| c == '='
}

/// `Message::from_vec`: accepts the bytes when they hold at least a nonce,
/// and the message then consists of exactly those bytes.
#[verifier::external_body]
fn message_from_vec(v: Vec<u8>) -> (res: Result<Message, String>)
    ensures
        res is Ok <==> v@.len() >= wrap_nonce_len(),
        res matches Ok(m) ==> wrap_message_bytes(m) == v@,
{
    Message::from_vec(v).map_err(|e| e.to_string())
}

/// `Message::into_vec`: the 13-byte nonce followed by the ciphertext.
#[verifier::external_body]
fn message_into_vec(m: Message) -> (res: Vec<u8>)
    ensures
        res@ == wrap_message_bytes(m),
        res@.len() >= wrap_nonce_len(),
{
    m.into_vec()
}

/// `Message::clone`: a message with the same nonce and ciphertext.
#[verifier::external_body]
fn message_clone(m: &Message) -> (res: Message)
    ensures
        wrap_message_bytes(res) == wrap_message_bytes(*m),
{
    m.clone()
}

/// `STANDARD.encode` of the `base64` crate. Its output uses only the
/// Base64 alphabet and padding, and `STANDARD.decode` gives the input back.
#[verifier::external_body]
fn base64_encode(data: &[u8]) -> (res: String)
    ensures
        res@ == base64_text(data@),
        forall|i: int| 0 <= i < res@.len() ==> is_base64_char(#[trigger] res@[i]),
        base64_data(encode_utf8(res@)) == Some(data@),
{
    base64::engine::general_purpose::STANDARD.encode(data)
}

/// `STANDARD.decode` of the `base64` crate.
#[verifier::external_body]
fn base64_decode(text: &[u8]) -> (res: Result<Vec<u8>, base64::DecodeError>)
    ensures
        res is Ok <==> base64_data(text@) is Some,
        res matches Ok(v) ==> base64_data(text@) == Some(v@),
{
    base64::engine::general_purpose::STANDARD.decode(text)
}

/// The `Display` text of a Base64 decoding failure.
#[verifier::external_body]
fn base64_error_text(e: &base64::DecodeError) -> String {
    e.to_string()
}

/// `std::str::from_utf8`: the text when the bytes are valid UTF-8.
#[verifier::external_body]
fn utf8_text(bytes: &[u8]) -> (res: Option<&str>)
    ensures
        res is Some <==> valid_utf8(bytes@),
        res matches Some(s) ==> s@ == decode_utf8(bytes@),
{
    std::str::from_utf8(bytes).ok()
}

/// First line of a wrapped key file.
pub open spec fn wrapped_key_header() -> Seq<char> {
    "-----BEGIN PKM WRAPPED KEY-----"@
}

/// Last line of a wrapped key file.
pub open spec fn wrapped_key_footer() -> Seq<char> {
    "-----END PKM WRAPPED KEY-----"@
}

/// `s` begins with `p`.
pub open spec fn has_prefix<T>(s: Seq<T>, p: Seq<T>) -> bool {
    p.len() <= s.len() && s.take(p.len() as int) == p
}

/// The pieces of `t` between `'\n'` characters (as `str::split('\n')`).
pub open spec fn split_newlines(t: Seq<char>) -> Seq<Seq<char>>
    decreases t.len(),
{
    if t.len() == 0 {
        seq![seq![]]
    } else if t.last() == '\n' {
        split_newlines(t.drop_last()).push(seq![])
    } else {
        let s = split_newlines(t.drop_last());
        s.update(s.len() - 1, s.last().push(t.last()))
    }
}

/// The lines of `t` (as `str::lines`, up to a carriage return before
/// each newline, which trimming removes anyway): no line for the empty
/// text, and no empty last line after a final newline.
pub open spec fn text_lines(t: Seq<char>) -> Seq<Seq<char>> {
    if t.len() == 0 {
        seq![]
    } else if t.last() == '\n' {
        split_newlines(t).drop_last()
    } else {
        split_newlines(t)
    }
}

/// Index of the first line at or after `i` that is the footer once trimmed.
pub open spec fn footer_line(lines: Seq<Seq<char>>, i: int) -> Option<int>
    decreases lines.len() - i,
{
    if i < 0 || i >= lines.len() {
        None
    } else if trim(lines[i]) == wrapped_key_footer() {
        Some(i)
    } else {
        footer_line(lines, i + 1)
    }
}

/// The trimmed lines `from..to` run together.
pub open spec fn joined_lines(lines: Seq<Seq<char>>, from: int, to: int) -> Seq<char>
    decreases to - from,
{
    if to <= from {
        seq![]
    } else {
        joined_lines(lines, from, to - 1) + trim(lines[to - 1])
    }
}

/// Why an armoured key could not be read.
#[derive(Debug, Clone, Copy, PartialEq, Eq)]
pub enum WrappedKeyFault {
    /// The text holds no line.
    Empty,
    /// The first line is not the header.
    InvalidHeader,
    /// No line after the header is the footer.
    InvalidFooter,
    /// The Base64 between header and footer does not decode.
    InvalidData,
    /// The decoded bytes are too short for a wrap message.
    InvalidMessage,
}

/// The Base64 text between the header and the first footer line.
pub open spec fn wrapped_key_body(text: Seq<char>) -> Result<Seq<char>, WrappedKeyFault> {
    let lines = text_lines(text);
    if lines.len() == 0 {
        Err(WrappedKeyFault::Empty)
    } else if trim(lines[0]) != wrapped_key_header() {
        Err(WrappedKeyFault::InvalidHeader)
    } else {
        match footer_line(lines, 1) {
            None => Err(WrappedKeyFault::InvalidFooter),
            Some(f) => Ok(joined_lines(lines, 1, f)),
        }
    }
}

/// The wrap message bytes an armoured key holds.
pub open spec fn wrapped_key_payload(text: Seq<char>) -> Result<Seq<u8>, WrappedKeyFault> {
    match wrapped_key_body(text) {
        Err(f) => Err(f),
        Ok(body) => match base64_data(encode_utf8(body)) {
            None => Err(WrappedKeyFault::InvalidData),
            Some(b) => if b.len() >= wrap_nonce_len() {
                Ok(b)
            } else {
                Err(WrappedKeyFault::InvalidMessage)
            },
        },
    }
}

/// The message text of the usage error for a structural fault.
pub open spec fn fault_text(f: WrappedKeyFault) -> Seq<char> {
    match f {
        WrappedKeyFault::Empty => "wrapped key is empty"@,
        WrappedKeyFault::InvalidHeader => "wrapped key has an invalid header"@,
        WrappedKeyFault::InvalidFooter => "wrapped key has an invalid footer"@,
        WrappedKeyFault::InvalidData => "invalid wrapped key data: "@,
        WrappedKeyFault::InvalidMessage => "invalid wrapped key message: "@,
    }
}

/// The error for a fault: its text, followed for the last two faults by
/// the text of the outside error.
pub open spec fn is_fault_error(e: AppError, f: WrappedKeyFault) -> bool {
    &&& e matches AppError::Usage(m)
    &&& match f {
        WrappedKeyFault::InvalidData | WrappedKeyFault::InvalidMessage => has_prefix(
            m@,
            fault_text(f),
        ),
        _ => m@ == fault_text(f),
    }
}

/// The Base64 text cut into pieces of 64 characters (the last one shorter).
pub open spec fn base64_chunks(e: Seq<char>) -> Seq<Seq<char>>
    decreases e.len(),
{
    if e.len() == 0 {
        seq![]
    } else if e.len() <= 64 {
        seq![e]
    } else {
        seq![e.take(64)] + base64_chunks(e.skip(64))
    }
}

/// The lines written one after another, each followed by a newline.
pub open spec fn line_text(lines: Seq<Seq<char>>) -> Seq<char>
    decreases lines.len(),
{
    if lines.len() == 0 {
        seq![]
    } else {
        line_text(lines.drop_last()) + lines.last().push('\n')
    }
}

/// The lines of the armour of a wrap message: the header, the Base64 of
/// the message in pieces of 64 characters, and the footer.
pub open spec fn armour_lines(payload: Seq<u8>) -> Seq<Seq<char>> {
    seq![wrapped_key_header()] + base64_chunks(base64_text(payload)) + seq![wrapped_key_footer()]
}

/// The armoured text of a wrap message: its armour lines, each ended by a
/// newline.
pub open spec fn wrapped_key_text(payload: Seq<u8>) -> Seq<char> {
    line_text(armour_lines(payload))
}

/// Whether the contents start with the wrapped-key header.
pub fn is_wrapped_key(contents: &[u8]) -> (res: bool)
    ensures
        res == has_prefix(contents@, encode_utf8(wrapped_key_header())),
{
    let header = "-----BEGIN PKM WRAPPED KEY-----".as_bytes();
    let n = header.len();
    if contents.len() < n {
        return false;
    }
    for i in 0..n
        invariant
            n == header@.len(),
            n <= contents@.len(),
            header@ == encode_utf8(wrapped_key_header()),
            forall|j: int| 0 <= j < i ==> contents@[j] == header@[j],
    {
        if contents[i] != header[i] {
            assert(contents@.take(n as int)[i as int] != header@[i as int]);
            return false;
        }
    }
    assert(contents@.take(n as int) =~= header@);
    true
}

/// Whether the characters are exactly those of `s`.
fn chars_are(a: &[char], s: &str) -> (res: bool)
    ensures
        res == (a@ == s@),
{
    let x = string_from(a);
    let y = String::from_str(s);
    x == y
}

/// The lines of the text, as `text_lines` describes them.
fn split_lines(t: &[char]) -> (res: Vec<Vec<char>>)
    ensures
        res@.map_values(|l: Vec<char>| l@) == text_lines(t@),
{
    let mut done: Vec<Vec<char>> = Vec::new();
    let mut cur: Vec<char> = Vec::new();
    assert(t@.take(0) =~= Seq::<char>::empty());
    for i in 0..t.len()
        invariant
            split_newlines(t@.take(i as int)) == done@.map_values(|l: Vec<char>| l@).push(cur@),
    {
        let c = t[i];
        assert(t@.take(i + 1).drop_last() =~= t@.take(i as int));
        if c == '\n' {
            let line = cur;
            done.push(line);
            cur = Vec::new();
        } else {
            cur.push(c);
        }
        proof {
            let s = split_newlines(t@.take(i as int));
            assert(split_newlines(t@.take(i + 1)) =~= done@.map_values(|l: Vec<char>| l@).push(cur@))
                by {
                assert(t@.take(i + 1).last() == c);
            }
        }
    }
    assert(t@.take(t@.len() as int) =~= t@);
    let ghost whole = split_newlines(t@);
    if t.len() == 0 {
        assert(done@.map_values(|l: Vec<char>| l@) =~= text_lines(t@));
        done
    } else if t[t.len() - 1] == '\n' {
        proof {
            assert(whole.drop_last() =~= done@.map_values(|l: Vec<char>| l@));
        }
        done
    } else {
        done.push(cur);
        assert(done@.map_values(|l: Vec<char>| l@) =~= whole);
        done
    }
}

proof fn lemma_footer_line_skip(lines: Seq<Seq<char>>, i: int, j: int)
    requires
        1 <= i <= j <= lines.len(),
        forall|k: int| i <= k < j ==> trim(#[trigger] lines[k]) != wrapped_key_footer(),
    ensures
        footer_line(lines, i) == footer_line(lines, j),
    decreases j - i,
{
    if i < j {
        lemma_footer_line_skip(lines, i + 1, j);
    }
}

/// Reads the armoured text back into the wrap message it holds.
pub fn decode_wrapped_key(text: &str) -> (res: Result<Message, AppError>)
    ensures
        match wrapped_key_payload(text@) {
            Ok(b) => (res matches Ok(m) && wrap_message_bytes(m) == b),
            Err(f) => (res matches Err(e) && is_fault_error(e, f)),
        },
{
    let chars = chars_of(text);
    let lines = split_lines(chars.as_slice());
    let ghost lv = lines@.map_values(|l: Vec<char>| l@);
    assert(lv == text_lines(text@));
    if lines.len() == 0 {
        return Err(AppError::Usage(String::from_str("wrapped key is empty")));
    }
    let header = trim_chars(lines[0].as_slice());
    assert(lv[0] == lines@[0]@);
    if !chars_are(header.as_slice(), "-----BEGIN PKM WRAPPED KEY-----") {
        return Err(AppError::Usage(String::from_str("wrapped key has an invalid header")));
    }
    let mut data = String::new();
    let mut footer_found = false;
    let mut i: usize = 1;
    while i < lines.len()
        invariant_except_break
            1 <= i <= lines@.len(),
            lv == lines@.map_values(|l: Vec<char>| l@),
            !footer_found,
            forall|k: int| 1 <= k < i ==> trim(#[trigger] lv[k]) != wrapped_key_footer(),
            data@ == joined_lines(lv, 1, i as int),
        ensures
            1 <= i <= lines@.len(),
            forall|k: int| 1 <= k < i ==> trim(#[trigger] lv[k]) != wrapped_key_footer(),
            data@ == joined_lines(lv, 1, i as int),
            footer_found ==> i < lines@.len() && trim(lv[i as int]) == wrapped_key_footer(),
            !footer_found ==> i == lines@.len(),
        decreases lines@.len() - i,
    {
        let line = trim_chars(lines[i].as_slice());
        assert(lv[i as int] == lines@[i as int]@);
        if line.len() == 0 {
            proof {
                reveal_strlit("-----END PKM WRAPPED KEY-----");
            }
            assert(line@ != wrapped_key_footer());
            assert(joined_lines(lv, 1, i + 1) =~= joined_lines(lv, 1, i as int));
            i = i + 1;
            continue;
        }
        if chars_are(line.as_slice(), "-----END PKM WRAPPED KEY-----") {
            footer_found = true;
            break;
        }
        let piece = string_from(line.as_slice());
        data.append(piece.as_str());
        assert(data@ =~= joined_lines(lv, 1, i + 1));
        i = i + 1;
    }
    proof {
        if footer_found {
            lemma_footer_line_skip(lv, 1, i as int);
        } else {
            lemma_footer_line_skip(lv, 1, i as int);
        }
    }
    if !footer_found {
        return Err(AppError::Usage(String::from_str("wrapped key has an invalid footer")));
    }
    assert(wrapped_key_body(text@) == Ok::<Seq<char>, WrappedKeyFault>(data@));
    let decoded = match base64_decode(data.as_str().as_bytes()) {
        Ok(d) => d,
        Err(e) => {
            let detail = base64_error_text(&e);
            let msg = String::from_str("invalid wrapped key data: ").concat(detail.as_str());
            assert(msg@.take(fault_text(WrappedKeyFault::InvalidData).len() as int)
                =~= fault_text(WrappedKeyFault::InvalidData));
            return Err(AppError::Usage(msg));
        },
    };
    match message_from_vec(decoded) {
        Ok(m) => Ok(m),
        Err(detail) => {
            let msg = String::from_str("invalid wrapped key message: ").concat(detail.as_str());
            assert(msg@.take(fault_text(WrappedKeyFault::InvalidMessage).len() as int)
                =~= fault_text(WrappedKeyFault::InvalidMessage));
            Err(AppError::Usage(msg))
        },
    }
}

/// Reads a wrapped key file's contents back into its wrap message.
pub fn read_wrapped_key_bytes(contents: &[u8]) -> (res: Result<Message, AppError>)
    ensures
        !valid_utf8(contents@) ==> (res matches Err(AppError::Usage(m)) && m@
            == "wrapped key is not valid UTF-8"@),
        valid_utf8(contents@) ==> match wrapped_key_payload(decode_utf8(contents@)) {
            Ok(b) => (res matches Ok(m) && wrap_message_bytes(m) == b),
            Err(f) => (res matches Err(e) && is_fault_error(e, f)),
        },
{
    match utf8_text(contents) {
        None => Err(AppError::Usage(String::from_str("wrapped key is not valid UTF-8"))),
        Some(text) => decode_wrapped_key(text),
    }
}

/// All the pieces run together.
pub open spec fn concat_all(pieces: Seq<Seq<char>>) -> Seq<char>
    decreases pieces.len(),
{
    if pieces.len() == 0 {
        seq![]
    } else {
        concat_all(pieces.drop_last()) + pieces.last()
    }
}

proof fn lemma_line_text_concat(a: Seq<Seq<char>>, b: Seq<Seq<char>>)
    ensures
        line_text(a + b) == line_text(a) + line_text(b),
    decreases b.len(),
{
    if b.len() == 0 {
        assert(a + b =~= a);
        assert(line_text(a) + line_text(b) =~= line_text(a));
    } else {
        lemma_line_text_concat(a, b.drop_last());
        assert((a + b).drop_last() =~= a + b.drop_last());
        assert((a + b).last() == b.last());
        assert(line_text(a + b) =~= line_text(a) + line_text(b));
    }
}

proof fn lemma_concat_all_front(a: Seq<char>, rest: Seq<Seq<char>>)
    ensures
        concat_all(seq![a] + rest) == a + concat_all(rest),
    decreases rest.len(),
{
    if rest.len() == 0 {
        assert(seq![a] + rest =~= seq![a]);
        assert(seq![a].drop_last() =~= Seq::<Seq<char>>::empty());
        assert(concat_all(seq![a].drop_last()) =~= Seq::<char>::empty());
        assert(concat_all(seq![a]) =~= a);
        assert(a + concat_all(rest) =~= a);
    } else {
        lemma_concat_all_front(a, rest.drop_last());
        assert((seq![a] + rest).drop_last() =~= seq![a] + rest.drop_last());
        assert((seq![a] + rest).last() == rest.last());
        assert(concat_all(seq![a] + rest) =~= a + concat_all(rest));
    }
}

proof fn lemma_split_len(t: Seq<char>)
    ensures
        split_newlines(t).len() >= 1,
    decreases t.len(),
{
    if t.len() > 0 {
        lemma_split_len(t.drop_last());
    }
}

proof fn lemma_split_no_newline(x: Seq<char>, l: Seq<char>)
    requires
        forall|i: int| 0 <= i < l.len() ==> l[i] != '\n',
    ensures
        split_newlines(x + l) == split_newlines(x).update(
            split_newlines(x).len() - 1,
            split_newlines(x).last() + l,
        ),
    decreases l.len(),
{
    lemma_split_len(x);
    if l.len() == 0 {
        assert(x + l =~= x);
        assert(split_newlines(x).last() + l =~= split_newlines(x).last());
        assert(split_newlines(x).update(split_newlines(x).len() - 1, split_newlines(x).last() + l)
            =~= split_newlines(x));
    } else {
        lemma_split_no_newline(x, l.drop_last());
        assert((x + l).drop_last() =~= x + l.drop_last());
        assert((x + l).last() == l.last());
        let s = split_newlines(x);
        let s1 = s.update(s.len() - 1, s.last() + l.drop_last());
        assert(s1.last() == s.last() + l.drop_last());
        assert((s.last() + l.drop_last()).push(l.last()) =~= s.last() + l);
        assert(s1.update(s1.len() - 1, s1.last().push(l.last())) =~= s.update(
            s.len() - 1,
            s.last() + l,
        ));
    }
}

proof fn lemma_lines_of_line_text(ls: Seq<Seq<char>>)
    requires
        forall|k: int, i: int| 0 <= k < ls.len() && 0 <= i < ls[k].len() ==> ls[k][i] != '\n',
    ensures
        split_newlines(line_text(ls)) == ls.push(seq![]),
        text_lines(line_text(ls)) == ls,
    decreases ls.len(),
{
    if ls.len() == 0 {
        assert(line_text(ls) =~= Seq::<char>::empty());
        assert(ls.push(seq![]) =~= seq![Seq::<char>::empty()]);
    } else {
        let p = ls.drop_last();
        let l = ls.last();
        lemma_lines_of_line_text(p);
        let x = line_text(p);
        assert forall|i: int| 0 <= i < l.len() implies l[i] != '\n' by {
            assert(ls[ls.len() - 1] == l);
        }
        lemma_split_no_newline(x, l);
        assert(line_text(ls) == x + l.push('\n'));
        assert(x + l.push('\n') =~= (x + l).push('\n'));
        let t = (x + l).push('\n');
        assert(t.drop_last() =~= x + l);
        assert(t.last() == '\n');
        assert(split_newlines(x + l) =~= p.push(l));
        assert(p.push(l) =~= ls);
        assert(split_newlines(line_text(ls)) =~= ls.push(seq![]));
        assert(ls.push(seq![]).drop_last() =~= ls);
    }
}

proof fn lemma_chunks(e: Seq<char>)
    requires
        forall|i: int| 0 <= i < e.len() ==> is_base64_char(#[trigger] e[i]),
    ensures
        concat_all(base64_chunks(e)) == e,
        forall|k: int|
            0 <= k < base64_chunks(e).len() ==> (#[trigger] base64_chunks(e)[k]).len() > 0
                && forall|i: int|
                0 <= i < base64_chunks(e)[k].len() ==> is_base64_char(base64_chunks(e)[k][i]),
    decreases e.len(),
{
    if e.len() == 0 {
        assert(concat_all(base64_chunks(e)) =~= e);
    } else if e.len() <= 64 {
        assert(seq![e].drop_last() =~= Seq::<Seq<char>>::empty());
        assert(concat_all(seq![e].drop_last()) =~= Seq::<char>::empty());
        assert(concat_all(seq![e]) =~= e);
    } else {
        let rest = e.skip(64);
        lemma_chunks(rest);
        lemma_concat_all_front(e.take(64), base64_chunks(rest));
        assert(e.take(64) + rest =~= e);
        let c = base64_chunks(e);
        assert forall|k: int| 0 <= k < c.len() implies (#[trigger] c[k]).len() > 0 && forall|i: int|
            0 <= i < c[k].len() ==> is_base64_char(c[k][i]) by {
            if k > 0 {
                assert(c[k] == base64_chunks(rest)[k - 1]);
            } else {
                assert(c[0] == e.take(64));
            }
        }
    }
}

proof fn lemma_trim_plain(l: Seq<char>)
    requires
        l.len() > 0,
        !is_white_space(l[0]),
        !is_white_space(l.last()),
    ensures
        trim(l) == l,
{
    assert(trim_start(l) == l);
    assert(trim_end(l) == l);
}

proof fn lemma_joined_chunks(lines: Seq<Seq<char>>, c: Seq<Seq<char>>, k: int)
    requires
        0 <= k <= c.len(),
        lines.len() >= c.len() + 1,
        forall|j: int| 0 <= j < c.len() ==> lines[j + 1] == c[j] && trim(#[trigger] c[j]) == c[j],
    ensures
        joined_lines(lines, 1, k + 1) == concat_all(c.take(k)),
    decreases k,
{
    if k == 0 {
        assert(c.take(0) =~= Seq::<Seq<char>>::empty());
    } else {
        lemma_joined_chunks(lines, c, k - 1);
        assert(c.take(k).drop_last() =~= c.take(k - 1));
        assert(c.take(k).last() == c[k - 1]);
        assert(lines[k] == c[k - 1]);
    }
}

/// Law: the armoured text of a payload reads back as that payload,
/// whenever its Base64 text keeps to the Base64 alphabet and decodes back
/// to the payload (which `STANDARD.encode` guarantees) and the payload holds
/// at least a nonce (which every wrap message does).
pub proof fn lemma_wrapped_key_roundtrip(payload: Seq<u8>)
    requires
        payload.len() >= wrap_nonce_len(),
        forall|i: int|
            0 <= i < base64_text(payload).len() ==> is_base64_char(#[trigger] base64_text(payload)[i]),
        base64_data(encode_utf8(base64_text(payload))) == Some(payload),
    ensures
        wrapped_key_payload(wrapped_key_text(payload)) == Ok::<Seq<u8>, WrappedKeyFault>(payload),
{
    reveal_strlit("-----BEGIN PKM WRAPPED KEY-----");
    reveal_strlit("-----END PKM WRAPPED KEY-----");
    let e = base64_text(payload);
    let h = wrapped_key_header();
    let f = wrapped_key_footer();
    let c = base64_chunks(e);
    lemma_chunks(e);
    let ls = seq![h] + c + seq![f];
    assert forall|k: int, i: int| 0 <= k < ls.len() && 0 <= i < ls[k].len() implies ls[k][i]
        != '\n' by {
        if k == 0 {
            assert(ls[k] == h);
        } else if k == ls.len() - 1 {
            assert(ls[k] == f);
        } else {
            assert(ls[k] == c[k - 1]);
            assert(is_base64_char(c[k - 1][i]));
        }
    }
    lemma_lines_of_line_text(ls);
    let lines = text_lines(wrapped_key_text(payload));
    assert(lines == ls);
    assert(lines[0] == h);
    lemma_trim_plain(h);
    assert forall|j: int| 0 <= j < c.len() implies lines[j + 1] == c[j] && trim(#[trigger] c[j])
        == c[j] by {
        assert(c[j].len() > 0);
        assert(is_base64_char(c[j][0]));
        assert(is_base64_char(c[j][c[j].len() - 1]));
        lemma_trim_plain(c[j]);
    }
    assert forall|k: int| 1 <= k < c.len() + 1 implies trim(#[trigger] lines[k]) != f by {
        assert(lines[k] == c[k - 1]);
        assert(is_base64_char(c[k - 1][0]));
        assert(trim(lines[k])[0] != f[0]);
    }
    lemma_footer_line_skip(lines, 1, c.len() as int + 1);
    assert(lines[c.len() as int + 1] == f);
    lemma_trim_plain(f);
    assert(footer_line(lines, 1) == Some(c.len() as int + 1));
    lemma_joined_chunks(lines, c, c.len() as int);
    assert(c.take(c.len() as int) =~= c);
    assert(wrapped_key_body(wrapped_key_text(payload)) == Ok::<Seq<char>, WrappedKeyFault>(e));
}

/// The armoured text of a wrap message. Reading the text back with
/// `decode_wrapped_key` gives a message with the same bytes.
pub fn format_wrapped_key(message: &Message) -> (res: String)
    ensures
        res@ == wrapped_key_text(wrap_message_bytes(*message)),
        wrapped_key_payload(res@) == Ok::<Seq<u8>, WrappedKeyFault>(wrap_message_bytes(*message)),
        armourable(wrap_message_bytes(*message)),
{
    let bytes = message_into_vec(message_clone(message));
    let encoded = base64_encode(bytes.as_slice());
    let e = chars_of(encoded.as_str());
    let ghost target = line_text(seq![wrapped_key_header()] + base64_chunks(e@));
    let mut out = String::from_str("-----BEGIN PKM WRAPPED KEY-----");
    push_char(&mut out, '\n');
    proof {
        assert(seq![wrapped_key_header()].drop_last() =~= Seq::<Seq<char>>::empty());
        assert(line_text(seq![wrapped_key_header()].drop_last()) =~= Seq::<char>::empty());
        assert(line_text(seq![wrapped_key_header()]) =~= out@);
        lemma_line_text_concat(seq![wrapped_key_header()], base64_chunks(e@));
        assert(e@.skip(0) =~= e@);
    }
    let n = e.len();
    let mut p: usize = 0;
    while p < n
        invariant
            p <= n,
            n == e@.len(),
            out@ + line_text(base64_chunks(e@.skip(p as int))) == target,
        decreases n - p,
    {
        let end = if n - p > 64 {
            p + 64
        } else {
            n
        };
        let ghost before = out@;
        let mut k = p;
        while k < end
            invariant
                p <= k <= end <= n,
                n == e@.len(),
                out@ == before + e@.subrange(p as int, k as int),
            decreases end - k,
        {
            push_char(&mut out, e[k]);
            assert(out@ =~= before + e@.subrange(p as int, k + 1));
            k = k + 1;
        }
        push_char(&mut out, '\n');
        proof {
            let chunk = e@.subrange(p as int, end as int);
            let rest = base64_chunks(e@.skip(end as int));
            if n - p > 64 {
                assert(e@.skip(p as int).take(64) =~= chunk);
                assert(e@.skip(p as int).skip(64) =~= e@.skip(end as int));
            } else {
                assert(e@.skip(p as int) =~= chunk);
                assert(e@.skip(end as int) =~= Seq::<char>::empty());
                assert(seq![chunk] + rest =~= seq![chunk]);
            }
            assert(base64_chunks(e@.skip(p as int)) == seq![chunk] + rest);
            lemma_line_text_concat(seq![chunk], rest);
            assert(seq![chunk].drop_last() =~= Seq::<Seq<char>>::empty());
            assert(line_text(seq![chunk].drop_last()) =~= Seq::<char>::empty());
            assert(line_text(seq![chunk]) =~= chunk.push('\n'));
            assert(out@ =~= before + chunk.push('\n'));
        }
        p = end;
    }
    proof {
        assert(e@.skip(n as int) =~= Seq::<char>::empty());
        assert(out@ =~= target);
    }
    out.append("-----END PKM WRAPPED KEY-----");
    push_char(&mut out, '\n');
    proof {
        let ls = seq![wrapped_key_header()] + base64_chunks(e@) + seq![wrapped_key_footer()];
        assert(ls.drop_last() =~= seq![wrapped_key_header()] + base64_chunks(e@));
        assert(out@ =~= line_text(ls));
        lemma_wrapped_key_roundtrip(wrap_message_bytes(*message));
    }
    out
}

/// No line holds a newline.
pub open spec fn plain_lines(lines: Seq<Seq<char>>) -> bool {
    forall|k: int, i: int| 0 <= k < lines.len() && 0 <= i < lines[k].len() ==> lines[k][i] != '\n'
}

proof fn lemma_split_append(t: Seq<char>, s: Seq<char>)
    requires
        t.len() > 0,
        t.last() == '\n',
    ensures
        split_newlines(t + s) == split_newlines(t).drop_last() + split_newlines(s),
    decreases s.len(),
{
    let p = split_newlines(t).drop_last();
    assert(t.drop_last() + seq!['\n'] =~= t);
    if s.len() == 0 {
        assert(t + s =~= t);
        assert(split_newlines(t) == split_newlines(t.drop_last()).push(seq![]));
        assert(p + split_newlines(s) =~= split_newlines(t));
    } else {
        let s1 = s.drop_last();
        lemma_split_append(t, s1);
        lemma_split_len(s1);
        assert((t + s).drop_last() =~= t + s1);
        assert((t + s).last() == s.last());
        let r = split_newlines(s1);
        if s.last() == '\n' {
            assert((p + r).push(seq![]) =~= p + r.push(seq![]));
        } else {
            let c = s.last();
            assert((p + r).update(p.len() + r.len() - 1, (p + r).last().push(c)) =~= p + r.update(
                r.len() - 1,
                r.last().push(c),
            ));
        }
    }
}

proof fn lemma_lines_append(lines: Seq<Seq<char>>, s: Seq<char>)
    requires
        plain_lines(lines),
        lines.len() > 0,
    ensures
        text_lines(line_text(lines) + s) == lines + text_lines(s),
{
    lemma_lines_of_line_text(lines);
    let t = line_text(lines);
    assert(lines.drop_last().push(lines.last()) =~= lines);
    assert(t == line_text(lines.drop_last()) + lines.last().push('\n'));
    assert(t.len() > 0 && t.last() == '\n');
    assert(split_newlines(t).drop_last() =~= lines);
    if s.len() == 0 {
        assert(t + s =~= t);
        assert(lines + text_lines(s) =~= lines);
    } else {
        lemma_split_append(t, s);
        assert((t + s).last() == s.last());
        let r = split_newlines(s);
        lemma_split_len(s);
        assert((lines + r).drop_last() =~= lines + r.drop_last());
    }
}

proof fn lemma_footer_prefix(a: Seq<Seq<char>>, b: Seq<Seq<char>>, i: int)
    requires
        0 <= i,
        footer_line(a, i) is Some,
    ensures
        footer_line(a + b, i) == footer_line(a, i),
    decreases a.len() - i,
{
    if i < a.len() && trim(a[i]) != wrapped_key_footer() {
        lemma_footer_prefix(a, b, i + 1);
    }
}

proof fn lemma_joined_prefix(a: Seq<Seq<char>>, b: Seq<Seq<char>>, from: int, to: int)
    requires
        0 <= from,
        to <= a.len(),
    ensures
        joined_lines(a + b, from, to) == joined_lines(a, from, to),
    decreases to - from,
{
    if from < to {
        lemma_joined_prefix(a, b, from, to - 1);
    }
}

/// Law: once an armoured key's footer line has been written, whatever text
/// follows it leaves what the key reads as unchanged.
pub proof fn lemma_armour_trailing_text(lines: Seq<Seq<char>>, trailing: Seq<char>)
    requires
        plain_lines(lines),
        wrapped_key_body(line_text(lines)) is Ok,
    ensures
        wrapped_key_payload(line_text(lines) + trailing) == wrapped_key_payload(line_text(lines)),
{
    lemma_lines_of_line_text(lines);
    let more = text_lines(trailing);
    lemma_lines_append(lines, trailing);
    assert((lines + more)[0] == lines[0]);
    let f = footer_line(lines, 1)->0;
    lemma_footer_prefix(lines, more, 1);
    lemma_footer_in_range(lines, 1);
    lemma_joined_prefix(lines, more, 1, f);
}

proof fn lemma_footer_in_range(lines: Seq<Seq<char>>, i: int)
    requires
        0 <= i,
    ensures
        footer_line(lines, i) matches Some(f) ==> i <= f < lines.len(),
    decreases lines.len() - i,
{
    if i < lines.len() && trim(lines[i]) != wrapped_key_footer() {
        lemma_footer_in_range(lines, i + 1);
    }
}

proof fn lemma_footer_same_trims(a: Seq<Seq<char>>, b: Seq<Seq<char>>, i: int)
    requires
        0 <= i,
        a.len() == b.len(),
        forall|k: int| 0 <= k < a.len() ==> trim(#[trigger] a[k]) == trim(b[k]),
    ensures
        footer_line(a, i) == footer_line(b, i),
    decreases a.len() - i,
{
    if i < a.len() {
        lemma_footer_same_trims(a, b, i + 1);
    }
}

proof fn lemma_joined_same_trims(a: Seq<Seq<char>>, b: Seq<Seq<char>>, from: int, to: int)
    requires
        0 <= from,
        to <= a.len(),
        a.len() == b.len(),
        forall|k: int| 0 <= k < a.len() ==> trim(#[trigger] a[k]) == trim(b[k]),
    ensures
        joined_lines(a, from, to) == joined_lines(b, from, to),
    decreases to - from,
{
    if from < to {
        lemma_joined_same_trims(a, b, from, to - 1);
    }
}

/// Law: white space around the lines of an armoured key (a carriage return
/// before each newline among it) leaves what the key reads as unchanged.
pub proof fn lemma_armour_line_padding(lines: Seq<Seq<char>>, padded: Seq<Seq<char>>)
    requires
        plain_lines(lines),
        plain_lines(padded),
        padded.len() == lines.len(),
        forall|k: int| 0 <= k < lines.len() ==> trim(#[trigger] padded[k]) == trim(lines[k]),
    ensures
        wrapped_key_payload(line_text(padded)) == wrapped_key_payload(line_text(lines)),
{
    lemma_lines_of_line_text(lines);
    lemma_lines_of_line_text(padded);
    lemma_footer_same_trims(padded, lines, 1);
    lemma_footer_in_range(lines, 1);
    if footer_line(lines, 1) is Some {
        lemma_joined_same_trims(padded, lines, 1, footer_line(lines, 1)->0);
    }
}

/// Where a footer found at `f` lands once a line is put in at `k`.
pub open spec fn shifted(f: int, k: int) -> int {
    if f < k {
        f
    } else {
        f + 1
    }
}

proof fn lemma_footer_insert(lines: Seq<Seq<char>>, k: int, blank: Seq<char>, i: int)
    requires
        0 <= i <= lines.len(),
        1 <= k <= lines.len(),
        trim(blank) != wrapped_key_footer(),
    ensures
        footer_line(lines.insert(k, blank), shifted(i, k) - if i == k { 1int } else { 0int })
            == match footer_line(lines, i) {
            Some(f) => Some(shifted(f, k)),
            None => None::<int>,
        },
    decreases lines.len() - i,
{
    let m = lines.insert(k, blank);
    if i < lines.len() {
        lemma_footer_insert(lines, k, blank, i + 1);
        if i == k {
            assert(m[k] == blank);
            assert(m[k + 1] == lines[k]);
            assert(footer_line(m, k) == footer_line(m, k + 1));
        } else if i < k {
            assert(m[i] == lines[i]);
        } else {
            assert(m[i + 1] == lines[i]);
        }
    } else if i == k {
        assert(m[k] == blank);
        assert(footer_line(m, k) == footer_line(m, k + 1));
    }
}

proof fn lemma_joined_insert(lines: Seq<Seq<char>>, k: int, blank: Seq<char>, to: int)
    requires
        1 <= to <= lines.len(),
        1 <= k <= lines.len(),
        trim(blank) == Seq::<char>::empty(),
    ensures
        joined_lines(lines.insert(k, blank), 1, shifted(to, k)) == joined_lines(lines, 1, to),
    decreases to,
{
    let m = lines.insert(k, blank);
    if to < k {
        lemma_joined_plain_prefix(lines, k, blank, to);
    } else if to == k {
        lemma_joined_plain_prefix(lines, k, blank, to);
        assert(m[k] == blank);
        assert(joined_lines(m, 1, k + 1) == joined_lines(m, 1, k) + trim(blank));
        assert(joined_lines(m, 1, k) + trim(blank) =~= joined_lines(m, 1, k));
    } else {
        lemma_joined_insert(lines, k, blank, to - 1);
        assert(m[to] == lines[to - 1]);
        assert(joined_lines(m, 1, to + 1) == joined_lines(m, 1, to) + trim(m[to]));
    }
}

proof fn lemma_joined_plain_prefix(lines: Seq<Seq<char>>, k: int, blank: Seq<char>, to: int)
    requires
        1 <= to <= k <= lines.len(),
    ensures
        joined_lines(lines.insert(k, blank), 1, to) == joined_lines(lines, 1, to),
    decreases to,
{
    if to > 1 {
        lemma_joined_plain_prefix(lines, k, blank, to - 1);
        assert(lines.insert(k, blank)[to - 1] == lines[to - 1]);
    }
}

/// Law: a blank line (empty, or white space only) put in anywhere after the
/// header of an armoured key leaves what the key reads as unchanged.
pub proof fn lemma_armour_blank_line(lines: Seq<Seq<char>>, k: int, blank: Seq<char>)
    requires
        plain_lines(lines),
        1 <= k <= lines.len(),
        forall|i: int| 0 <= i < blank.len() ==> blank[i] != '\n',
        trim(blank) == Seq::<char>::empty(),
    ensures
        wrapped_key_payload(line_text(lines.insert(k, blank))) == wrapped_key_payload(line_text(lines)),
        plain_lines(lines.insert(k, blank)),
{
    let m = lines.insert(k, blank);
    assert(plain_lines(m)) by {
        assert forall|j: int, i: int| 0 <= j < m.len() && 0 <= i < m[j].len() implies m[j][i] != '\n' by {
            if j < k {
                assert(m[j] == lines[j]);
            } else if j > k {
                assert(m[j] == lines[j - 1]);
            }
        }
    }
    lemma_lines_of_line_text(lines);
    lemma_lines_of_line_text(m);
    reveal_strlit("-----END PKM WRAPPED KEY-----");
    assert(trim(blank) != wrapped_key_footer()) by {
        assert(wrapped_key_footer().len() > 0);
    }
    assert(m[0] == lines[0]);
    lemma_footer_insert(lines, k, blank, 1);
    lemma_footer_in_range(lines, 1);
    if footer_line(lines, 1) is Some {
        lemma_joined_insert(lines, k, blank, footer_line(lines, 1)->0);
    }
}

/// The Base64 text of the payload keeps to the Base64 alphabet and
/// decodes back to the payload, which holds at least a nonce.
pub open spec fn armourable(payload: Seq<u8>) -> bool {
    &&& payload.len() >= wrap_nonce_len()
    &&& forall|i: int|
        0 <= i < base64_text(payload).len() ==> is_base64_char(#[trigger] base64_text(payload)[i])
    &&& base64_data(encode_utf8(base64_text(payload))) == Some(payload)
}

proof fn lemma_armour_lines_plain(payload: Seq<u8>)
    requires
        forall|i: int|
            0 <= i < base64_text(payload).len() ==> is_base64_char(#[trigger] base64_text(payload)[i]),
    ensures
        plain_lines(armour_lines(payload)),
{
    reveal_strlit("-----BEGIN PKM WRAPPED KEY-----");
    reveal_strlit("-----END PKM WRAPPED KEY-----");
    let e = base64_text(payload);
    let c = base64_chunks(e);
    lemma_chunks(e);
    let ls = armour_lines(payload);
    assert forall|k: int, i: int| 0 <= k < ls.len() && 0 <= i < ls[k].len() implies ls[k][i]
        != '\n' by {
        if k == 0 {
            assert(ls[k] == wrapped_key_header());
        } else if k == ls.len() - 1 {
            assert(ls[k] == wrapped_key_footer());
        } else {
            assert(ls[k] == c[k - 1]);
            assert(is_base64_char(c[k - 1][i]));
        }
    }
}

/// A blank line: no newline in it, and nothing but white space.
pub open spec fn is_blank_line(l: Seq<char>) -> bool {
    &&& forall|i: int| 0 <= i < l.len() ==> l[i] != '\n'
    &&& trim(l) == Seq::<char>::empty()
}

/// The lines with `blanks[i]` put in at `at[i]`, one after another.
pub open spec fn with_blank_lines(lines: Seq<Seq<char>>, at: Seq<int>, blanks: Seq<Seq<char>>) -> Seq<Seq<char>>
    decreases at.len(),
{
    if at.len() == 0 || blanks.len() == 0 {
        lines
    } else {
        with_blank_lines(lines, at.drop_last(), blanks.drop_last()).insert(at.last(), blanks.last())
    }
}

/// Law: any number of blank lines put in after the header of an armoured
/// key, each at a place after the header in the lines as they stand by
/// then, leave what the key reads as unchanged.
pub proof fn lemma_armour_blank_lines(lines: Seq<Seq<char>>, at: Seq<int>, blanks: Seq<Seq<char>>)
    requires
        plain_lines(lines),
        at.len() == blanks.len(),
        forall|i: int| 0 <= i < at.len() ==> 1 <= #[trigger] at[i] <= lines.len() + i,
        forall|i: int| 0 <= i < blanks.len() ==> is_blank_line(#[trigger] blanks[i]),
    ensures
        plain_lines(with_blank_lines(lines, at, blanks)),
        with_blank_lines(lines, at, blanks).len() == lines.len() + at.len(),
        wrapped_key_payload(line_text(with_blank_lines(lines, at, blanks))) == wrapped_key_payload(
            line_text(lines),
        ),
    decreases at.len(),
{
    if at.len() > 0 {
        let a0 = at.drop_last();
        let b0 = blanks.drop_last();
        assert forall|i: int| 0 <= i < a0.len() implies 1 <= #[trigger] a0[i] <= lines.len() + i by {
            assert(a0[i] == at[i]);
        }
        assert forall|i: int| 0 <= i < b0.len() implies is_blank_line(#[trigger] b0[i]) by {
            assert(b0[i] == blanks[i]);
        }
        lemma_armour_blank_lines(lines, a0, b0);
        let w = with_blank_lines(lines, a0, b0);
        let n = at.len() - 1;
        assert(at.last() == at[n] && blanks.last() == blanks[n]);
        assert(is_blank_line(blanks[n]));
        lemma_armour_blank_line(w, at.last(), blanks.last());
    }
}

/// Law: the armoured text of a wrap message still reads back as that
/// message after white space is added around its lines (a carriage return
/// before each newline among it), blank lines are put in anywhere after
/// the header, and any text is appended after the footer line, all
/// together. `padded` holds the armour lines with white space added; the
/// blank line `blanks[i]` is put in at `at[i]`.
pub proof fn lemma_wrapped_key_variants(
    payload: Seq<u8>,
    padded: Seq<Seq<char>>,
    at: Seq<int>,
    blanks: Seq<Seq<char>>,
    trailing: Seq<char>,
)
    requires
        armourable(payload),
        plain_lines(padded),
        padded.len() == armour_lines(payload).len(),
        forall|j: int| 0 <= j < padded.len() ==> trim(#[trigger] padded[j]) == trim(armour_lines(payload)[j]),
        at.len() == blanks.len(),
        forall|i: int| 0 <= i < at.len() ==> 1 <= #[trigger] at[i] <= padded.len() + i,
        forall|i: int| 0 <= i < blanks.len() ==> is_blank_line(#[trigger] blanks[i]),
    ensures
        wrapped_key_payload(line_text(with_blank_lines(padded, at, blanks)) + trailing)
            == Ok::<Seq<u8>, WrappedKeyFault>(payload),
{
    lemma_wrapped_key_roundtrip(payload);
    lemma_armour_lines_plain(payload);
    lemma_armour_line_padding(armour_lines(payload), padded);
    lemma_armour_blank_lines(padded, at, blanks);
    lemma_armour_trailing_text(with_blank_lines(padded, at, blanks), trailing);
}

} // verus!
