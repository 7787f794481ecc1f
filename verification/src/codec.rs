//! The embed codec: wraps arbitrary text in a delimited, base64-encoded
//! marker, locates such a marker inside larger text, and decodes it back.
//!
//! The delimiter is matched literally, and the payload is whatever stands
//! between the first delimiter occurrence and the next one after it, so a
//! marker followed by unrelated trailing text is never over-consumed.

use vstd::prelude::*;
use base64::prelude::{Engine, BASE64_STANDARD};

verus! {

/// Error returned when no embed marker is present in the text.
#[derive(Debug, Clone, Copy, PartialEq, Eq, Structural)]
pub struct NotFoundError;

/// Error returned when a payload is not base64, or decodes to bytes that are
/// not valid UTF-8 text.
#[derive(Debug, Clone, Copy, PartialEq, Eq, Structural)]
pub struct DecodeError;

/// The fixed delimiter token that encloses an embedded payload.
pub open spec fn delim() -> Seq<char> {
    seq!['$', '%', '$']
}

/// What the standard base64 encoder returns for given text: a pure function
/// of the text alone.
pub uninterp spec fn b64_of(s: Seq<char>) -> Seq<char>;

/// What base64-decoding a payload and reading the bytes as UTF-8 yields;
/// `None` when the payload is not base64 or the bytes are not valid UTF-8.
pub uninterp spec fn b64_text_of(s: Seq<char>) -> Option<Seq<char>>;

/// A literal delimiter occurrence starts at position `i` of `s`.
pub open spec fn delim_at(s: Seq<char>, i: int) -> bool {
    0 <= i && i + 3 <= s.len() && s[i] == '$' && s[i + 1] == '%' && s[i + 2] == '$'
}

/// The position of the first delimiter occurrence at or after `k`, if any.
pub open spec fn first_delim_at_or_after(s: Seq<char>, k: int) -> Option<int>
    decreases s.len() - k,
    when 0 <= k
{
    if k + 3 > s.len() {
        None
    } else if delim_at(s, k) {
        Some(k)
    } else {
        first_delim_at_or_after(s, k + 1)
    }
}

/// The payload of the first embed marker in `s`: the text between the first
/// delimiter occurrence and the next one after it, if both exist.
pub open spec fn find_payload(s: Seq<char>) -> Option<Seq<char>> {
    match first_delim_at_or_after(s, 0) {
        Some(i) => match first_delim_at_or_after(s, i + 3) {
            Some(j) => Some(s.subrange(i + 3, j)),
            None => None,
        },
        None => None,
    }
}

/// A full embed marker for given text: delimiter, encoded payload, delimiter.
pub open spec fn marker_of(t: Seq<char>) -> Seq<char> {
    delim() + b64_of(t) + delim()
}

/// Relies on `base64`'s `Engine::encode` with the `BASE64_STANDARD` engine:
/// it returns the RFC 4648 standard-alphabet encoding of the input bytes, a
/// pure function of the input made only of the characters `A`-`Z`, `a`-`z`,
/// `0`-`9`, `+`, `/` and the padding `=` — never `$` — and decoding it with
/// the same engine recovers exactly the input.
#[verifier::external_body]
fn b64_encode(text: &str) -> (res: String)
    ensures
        res@ == b64_of(text@),
        forall|i: int| 0 <= i < res@.len() ==> res@[i] != '$',
        b64_text_of(res@) == Some(text@),
{
    BASE64_STANDARD.encode(text)
}

/// Relies on `base64`'s `Engine::decode` with the `BASE64_STANDARD` engine
/// and on `String::from_utf8`: together they succeed exactly when the payload
/// is standard base64 whose decoded bytes are valid UTF-8, and then return
/// that text.
#[verifier::external_body]
fn b64_decode_text(payload: &str) -> (res: Result<String, DecodeError>)
    ensures
        match res {
            Ok(s) => b64_text_of(payload@) == Some(s@),
            Err(_) => b64_text_of(payload@) is None,
        },
{
    match BASE64_STANDARD.decode(payload) {
        Ok(bytes) => match String::from_utf8(bytes) {
            Ok(s) => Ok(s),
            Err(_) => Err(DecodeError),
        },
        Err(_) => Err(DecodeError),
    }
}

/// If a delimiter stands at `i` and none stands in `[k, i)`, the first
/// occurrence at or after `k` is `i`.
proof fn lemma_first_delim_some(s: Seq<char>, k: int, i: int)
    requires
        0 <= k <= i,
        delim_at(s, i),
        forall|p: int| k <= p < i ==> !delim_at(s, p),
    ensures
        first_delim_at_or_after(s, k) == Some(i),
    decreases i - k,
{
    if k < i {
        lemma_first_delim_some(s, k + 1, i);
    }
}

/// If no delimiter stands at or after `k`, there is no first occurrence.
proof fn lemma_first_delim_none(s: Seq<char>, k: int)
    requires
        0 <= k,
        forall|p: int| k <= p ==> !delim_at(s, p),
    ensures
        first_delim_at_or_after(s, k) is None,
    decreases s.len() - k,
{
    if k + 3 <= s.len() {
        lemma_first_delim_none(s, k + 1);
    }
}

/// The position of the first delimiter occurrence at or after `k`, if any.
fn find_delim_from(text: &str, k: usize, len: usize) -> (res: Option<usize>)
    requires
        len == text@.len(),
        k <= len,
    ensures
        match res {
            Some(i) => first_delim_at_or_after(text@, k as int) == Some(i as int) && delim_at(
                text@,
                i as int,
            ) && k <= i,
            None => first_delim_at_or_after(text@, k as int) is None,
        },
{
    let mut m = k;
    while len - m >= 3
        invariant
            len == text@.len(),
            k <= m <= len,
            forall|p: int| k <= p < m ==> !delim_at(text@, p),
        decreases len - m,
    {
        if text.get_char(m) == '$' && text.get_char(m + 1) == '%' && text.get_char(m + 2) == '$' {
            proof {
                lemma_first_delim_some(text@, k as int, m as int);
            }
            return Some(m);
        }
        m += 1;
    }
    proof {
        lemma_first_delim_none(text@, k as int);
    }
    None
}

/// Creates an embed marker: the delimiter, the base64 encoding of `text`,
/// the delimiter again. The two trailing postconditions state the round
/// trip: the marker's first payload is exactly the encoding, and decoding
/// that payload recovers `text` — whatever `text` is.
pub fn create_embed_marker(text: &str) -> (res: String)
    ensures
        res@ == marker_of(text@),
        find_payload(res@) == Some(b64_of(text@)),
        b64_text_of(b64_of(text@)) == Some(text@),
{
    let payload = b64_encode(text);
    let mut out = "$%$".to_owned();
    out.append(payload.as_str());
    out.append("$%$");
    proof {
        reveal_strlit("$%$");
        assert(out@ =~= delim() + b64_of(text@) + delim() + Seq::<char>::empty());
        lemma_find_payload_between_delims(b64_of(text@), Seq::<char>::empty());
        assert(out@ =~= marker_of(text@));
    }
    out
}

/// Finds the first embed marker in `text` and returns its payload, the text
/// between the first delimiter occurrence and the next one after it; fails
/// with `NotFoundError` exactly when no such pair of delimiters exists.
pub fn find_embed_marker(text: &str) -> (res: Result<String, NotFoundError>)
    ensures
        match res {
            Ok(p) => find_payload(text@) == Some(p@),
            Err(_) => find_payload(text@) is None,
        },
{
    let len = text.unicode_len();
    match find_delim_from(text, 0, len) {
        None => Err(NotFoundError),
        Some(i) => match find_delim_from(text, i + 3, len) {
            None => Err(NotFoundError),
            Some(j) => {
                let payload = text.substring_char(i + 3, j);
                Ok(payload.to_owned())
            },
        },
    }
}

/// Base64-decodes a payload and validates that the bytes are UTF-8 text;
/// fails with `DecodeError` exactly when either step does.
pub fn read_embed_marker(text: &str) -> (res: Result<String, DecodeError>)
    ensures
        match res {
            Ok(p) => b64_text_of(text@) == Some(p@),
            Err(_) => b64_text_of(text@) is None,
        },
{
    b64_decode_text(text)
}

/// The non-greedy scan law: in text made of a delimiter, a payload free of
/// `$`, a second delimiter, and arbitrary trailing text, the first marker's
/// payload is exactly that payload — the scan never consumes past the second
/// literal delimiter occurrence.
pub proof fn lemma_find_payload_between_delims(p: Seq<char>, rest: Seq<char>)
    requires
        forall|i: int| 0 <= i < p.len() ==> p[i] != '$',
    ensures
        find_payload(delim() + p + delim() + rest) == Some(p),
{
    let s = delim() + p + delim() + rest;
    assert(delim_at(s, 0));
    lemma_first_delim_some(s, 0, 0);
    let j = 3 + p.len() as int;
    assert(delim_at(s, j));
    assert forall|q: int| 3 <= q < j implies !delim_at(s, q) by {
        assert(s[q] == p[q - 3]);
    }
    lemma_first_delim_some(s, 3, j);
    assert(s.subrange(3, j) =~= p);
}

/// Text with no delimiter occurrence holds no marker: the scan fails.
pub proof fn lemma_no_delim_no_marker(s: Seq<char>)
    requires
        forall|i: int| !delim_at(s, i),
    ensures
        find_payload(s) is None,
{
    lemma_first_delim_none(s, 0);
}

} // verus!
