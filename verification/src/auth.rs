//! The authentication header framing: a message travels as the literal
//! scheme name, one space, and the base64 of its wire bytes; the
//! challenge comes back as the second space-delimited token of such a
//! header value.

use vstd::prelude::*;
use vstd::string::StringExecFns;
use base64::Engine;
use crate::bytes::copy_range;

verus! {

/// The base64 (standard alphabet, padded) text of a byte sequence.
pub uninterp spec fn b64_of(data: Seq<u8>) -> Seq<char>;

/// The bytes a base64 text decodes to, or `None` if it is not valid
/// base64.
pub uninterp spec fn b64_decode_of(text: Seq<u8>) -> Option<Seq<u8>>;

/// Relies on base64's standard engine: the text is a function of the
/// bytes alone.
#[verifier::external_body]
fn base64_encode(data: &[u8]) -> (r: String)
    ensures
        r@ == b64_of(data@),
{
    base64::prelude::BASE64_STANDARD.encode(data)
}

/// Relies on base64's standard engine: the result is a function of the
/// input alone, `None` exactly on invalid base64.
#[verifier::external_body]
fn base64_decode(text: &[u8]) -> (r: Option<Vec<u8>>)
    ensures
        r matches Some(v) ==> b64_decode_of(text@) == Some(v@),
        r is None ==> b64_decode_of(text@) is None,
{
    base64::prelude::BASE64_STANDARD.decode(text).ok()
}

/// The first index at or after `i` holding a space, or the length.
pub open spec fn spec_find_space(s: Seq<u8>, i: int) -> int
    recommends
        0 <= i <= s.len(),
    decreases s.len() - i,
{
    if i < 0 || i >= s.len() {
        s.len() as int
    } else if s[i] == 32 {
        i
    } else {
        spec_find_space(s, i + 1)
    }
}

fn find_space(s: &[u8], start: usize) -> (r: usize)
    requires
        start <= s@.len(),
    ensures
        r == spec_find_space(s@, start as int),
        start <= r <= s@.len(),
    decreases s@.len() - start,
{
    if start >= s.len() {
        s.len()
    } else if s[start] == 32 {
        start
    } else {
        find_space(s, start + 1)
    }
}

/// The second space-delimited token of `s`: the bytes between the first
/// space and the following space or the end; `None` when `s` holds no
/// space at all.
pub open spec fn spec_second_token(s: Seq<u8>) -> Option<Seq<u8>> {
    let i = spec_find_space(s, 0);
    if i == s.len() {
        None
    } else {
        Some(s.subrange(i + 1, spec_find_space(s, i + 1)))
    }
}

/// The second space-delimited token of a header value.
pub fn second_token(header: &[u8]) -> (r: Option<Vec<u8>>)
    ensures
        match r {
            Some(v) => spec_second_token(header@) == Some(v@),
            None => spec_second_token(header@) is None,
        },
{
    let i = find_space(header, 0);
    if i == header.len() {
        return None;
    }
    let j = find_space(header, i + 1);
    Some(copy_range(header, i + 1, j))
}

/// The header value that carries a message: the scheme name, a space,
/// and the base64 of the message bytes.
pub open spec fn spec_auth_header_value(message: Seq<u8>) -> Seq<char> {
    "NTLM "@ + b64_of(message)
}

/// Builds the authentication header value for encoded message bytes.
pub fn auth_header_value(message_bytes: &[u8]) -> (r: String)
    ensures
        r@ == spec_auth_header_value(message_bytes@),
{
    let mut s = String::from_str("NTLM ");
    let b = base64_encode(message_bytes);
    s.append(b.as_str());
    s
}

/// Extracts the challenge message bytes from a header value: the second
/// space-delimited token, base64-decoded.  `None` when there is no
/// second token or it is not valid base64.
pub fn challenge_from_header(header: &[u8]) -> (r: Option<Vec<u8>>)
    ensures
        spec_second_token(header@) is None ==> r is None,
        spec_second_token(header@) matches Some(tok) ==> match r {
            Some(v) => b64_decode_of(tok) == Some(v@),
            None => b64_decode_of(tok) is None,
        },
{
    match second_token(header) {
        Some(tok) => base64_decode(tok.as_slice()),
        None => None,
    }
}

} // verus!
