//! Text codecs used by the protocol: UTF-16LE for Unicode-negotiated
//! fields, the platform's narrow ("OEM"/"ANSI") encoding otherwise.
//!
//! The UTF-16 transformation and case folding are functions of the
//! characters alone, so their results carry names (`utf16le_of`,
//! `utf16_chars_of`, `upper_of`) that contracts can speak about.  The
//! narrow encodings depend on the platform's code page, so nothing is
//! assumed of their results.

use vstd::prelude::*;
use vstd::slice::slice_to_vec;
use vstd::string::StringExecFns;
use local_encoding::{Encoder, Encoding};
use crate::bytes::spec_u16_of;
use crate::error::{NtlmParsingError, ParseErrModel};
use crate::flags::NtlmFlags;

verus! {

/// The UTF-16LE bytes of a character sequence.
pub uninterp spec fn utf16le_of(s: Seq<char>) -> Seq<u8>;

/// The characters encoded by a sequence of UTF-16 code units, or `None`
/// if the units are not valid UTF-16.
pub uninterp spec fn utf16_chars_of(ws: Seq<u16>) -> Option<Seq<char>>;

/// The Unicode-uppercased form of a character sequence.
pub uninterp spec fn upper_of(s: Seq<char>) -> Seq<char>;

/// The 16-bit words read from consecutive little-endian byte pairs;
/// a trailing odd byte is dropped.
pub open spec fn spec_words_le(b: Seq<u8>) -> Seq<u16>
    decreases b.len(),
{
    if b.len() < 2 {
        Seq::empty()
    } else {
        seq![spec_u16_of(b[0], b[1])] + spec_words_le(b.skip(2))
    }
}

/// Relies on str::encode_utf16 and String::from_utf16: the code units
/// are a function of the characters alone, each unit contributes two
/// bytes, and from_utf16 decodes the units back to the same string.
#[verifier::external_body]
pub fn utf16le_bytes(s: &str) -> (r: Vec<u8>)
    ensures
        r@ == utf16le_of(s@),
        r@.len() % 2 == 0,
        s@.len() == 0 ==> r@.len() == 0,
        utf16_chars_of(spec_words_le(r@)) == Some(s@),
{
    s.encode_utf16().flat_map(|w| w.to_le_bytes()).collect()
}

/// Relies on String::from_utf16: the result is a function of the code
/// units alone, `None` exactly on invalid UTF-16.
#[verifier::external_body]
pub fn utf16_string(ws: &Vec<u16>) -> (r: Option<String>)
    ensures
        r matches Some(s) ==> utf16_chars_of(ws@) == Some(s@),
        r is None ==> utf16_chars_of(ws@) is None,
{
    String::from_utf16(ws.as_slice()).ok()
}

/// Relies on str::to_uppercase: the result depends on the characters
/// alone.
#[verifier::external_body]
pub fn uppercase(s: &str) -> (r: String)
    ensures
        r@ == upper_of(s@),
{
    s.to_uppercase()
}

/// Relies on local_encoding's ANSI encoder.  The bytes depend on the
/// platform's code page, so nothing is assumed of them.
#[verifier::external_body]
pub fn ansi_bytes(s: &str) -> (r: Option<Vec<u8>>) {
    Encoding::ANSI.to_bytes(s).ok()
}

/// Relies on local_encoding's OEM encoder.  The bytes depend on the
/// platform's code page, so nothing is assumed of them.
#[verifier::external_body]
pub fn oem_bytes(s: &str) -> (r: Option<Vec<u8>>) {
    Encoding::OEM.to_bytes(s).ok()
}

/// Relies on local_encoding's OEM decoder.  The text depends on the
/// platform's code page, so nothing is assumed of it.
#[verifier::external_body]
pub fn oem_string(bytes: &[u8]) -> (r: Option<String>) {
    Encoding::OEM.to_string(bytes).ok()
}

/// The words of `bytes`, read as little-endian pairs.
pub fn words_from_le_bytes(bytes: &[u8]) -> (r: Vec<u16>)
    ensures
        r@ == spec_words_le(bytes@),
    decreases bytes@.len(),
{
    if bytes.len() < 2 {
        let r: Vec<u16> = Vec::new();
        assert(r@ =~= spec_words_le(bytes@));
        r
    } else {
        let w = crate::bytes::read_u16_le(bytes, 0);
        let rest = crate::bytes::copy_range(bytes, 2, bytes.len());
        assert(rest@ =~= bytes@.skip(2));
        let mut tail = words_from_le_bytes(rest.as_slice());
        let mut r: Vec<u16> = Vec::new();
        r.push(w);
        r.append(&mut tail);
        assert(r@ =~= spec_words_le(bytes@));
        r
    }
}

/// Decodes UTF-16LE bytes to a string: the length must be even and the
/// words must be valid UTF-16.
pub fn utf16_le_bytes_to_string(bytes: &[u8]) -> (r: Result<String, NtlmParsingError>)
    ensures
        bytes@.len() % 2 != 0 ==> (r matches Err(e) && e@ == (ParseErrModel::ItemLengthNotDivisible {
            expected_divisor: 2,
            obtained_length: bytes@.len() as int,
        })),
        bytes@.len() % 2 == 0 ==> match r {
            Ok(s) => utf16_chars_of(spec_words_le(bytes@)) == Some(s@),
            Err(e) => utf16_chars_of(spec_words_le(bytes@)) is None && e@ == (
            ParseErrModel::InvalidUtf16 { value: spec_words_le(bytes@) }),
        },
{
    if bytes.len() % 2 != 0 {
        return Err(
            NtlmParsingError::ItemLengthNotDivisible {
                expected_divisor: 2,
                obtained_length: bytes.len(),
            },
        );
    }
    let words = words_from_le_bytes(bytes);
    match utf16_string(&words) {
        Some(s) => Ok(s),
        None => Err(NtlmParsingError::InvalidUtf16 { value: words }),
    }
}

/// What decoding a text field must yield, for the encodings whose
/// outcome is a function of the bytes alone.  The OEM case depends on
/// the platform's code page, so it is left unspecified here; callers
/// guard on the flags before relying on this function.
pub open spec fn spec_text_decode(flags: NtlmFlags, b: Seq<u8>) -> Result<
    Seq<char>,
    ParseErrModel,
> {
    if flags.has_unicode() {
        if b.len() % 2 != 0 {
            Err(
                ParseErrModel::ItemLengthNotDivisible {
                    expected_divisor: 2,
                    obtained_length: b.len() as int,
                },
            )
        } else {
            match utf16_chars_of(spec_words_le(b)) {
                Some(s) => Ok(s),
                None => Err(ParseErrModel::InvalidUtf16 { value: spec_words_le(b) }),
            }
        }
    } else if flags.has_oem() {
        arbitrary()
    } else {
        Err(ParseErrModel::NeitherUnicodeNorOem)
    }
}

/// Decodes a text field's bytes under the negotiated encoding.
pub fn ntlm_bytes_to_string(flags: NtlmFlags, bytes: &[u8]) -> (r: Result<
    String,
    NtlmParsingError,
>)
    ensures
        flags.has_unicode() || !flags.has_oem() ==> match r {
            Ok(s) => spec_text_decode(flags, bytes@) == Ok::<Seq<char>, ParseErrModel>(s@),
            Err(e) => spec_text_decode(flags, bytes@) == Err::<Seq<char>, ParseErrModel>(e@),
        },
        !flags.has_unicode() && flags.has_oem() ==> (r matches Err(e) ==> e@ == (
        ParseErrModel::InvalidOemEncoding { value: bytes@ })),
{
    if flags.is_unicode() {
        utf16_le_bytes_to_string(bytes)
    } else if flags.is_oem() {
        match oem_string(bytes) {
            Some(s) => Ok(s),
            None => Err(NtlmParsingError::InvalidOemEncoding { value: slice_to_vec(bytes) }),
        }
    } else {
        Err(NtlmParsingError::NeitherUnicodeNorOem)
    }
}

/// Encodes a text field under the negotiated encoding.
pub fn ntlm_string_to_bytes(flags: NtlmFlags, s: &str) -> (r: Result<
    Vec<u8>,
    crate::error::NtlmStoringError,
>)
    ensures
        flags.has_unicode() ==> (r matches Ok(v) && v@ == utf16le_of(s@) && v@.len() % 2 == 0
            && utf16_chars_of(spec_words_le(v@)) == Some(s@)),
        !flags.has_unicode() && flags.has_oem() ==> (r matches Err(e) ==> e@ == (
        crate::error::StoreErrModel::NonOemEncodable { string: s@ })),
        !flags.has_unicode() && !flags.has_oem() ==> (r matches Err(e) && e@
            == crate::error::StoreErrModel::NeitherUnicodeNorOem),
{
    if flags.is_unicode() {
        Ok(utf16le_bytes(s))
    } else if flags.is_oem() {
        match ansi_bytes(s) {
            Some(v) => Ok(v),
            None => Err(
                crate::error::NtlmStoringError::NonOemEncodable { string: String::from_str(s) },
            ),
        }
    } else {
        Err(crate::error::NtlmStoringError::NeitherUnicodeNorOem)
    }
}

} // verus!
