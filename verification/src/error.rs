//! Error types for decoding (parsing) and encoding (storing) messages,
//! together with their mathematical models.
//!
//! The models replace `Vec` and `String` payloads with `Seq` so that spec
//! functions can construct and compare error values.

use vstd::prelude::*;

verus! {

/// Why a byte buffer could not be decoded.
#[derive(Clone, Debug, PartialEq, Eq, Hash)]
pub enum NtlmParsingError {
    ShortHeader { expected_min_len: usize, obtained_len: usize },
    MagicMismatch { expected: [u8; 8], obtained: Vec<u8> },
    ItemLengthMismatch { expected: usize, obtained: usize },
    ItemMinLengthMismatch { expected_at_least: usize, obtained: usize },
    ItemLengthNotDivisible { expected_divisor: usize, obtained_length: usize },
    InvalidOemEncoding { value: Vec<u8> },
    InvalidUtf16 { value: Vec<u16> },
    StartOutOfRange { start: i64, length: usize },
    EndOutOfRange { end: i64, length: usize },
    NeitherUnicodeNorOem,
}

/// The model of `NtlmParsingError`.
pub enum ParseErrModel {
    ShortHeader { expected_min_len: int, obtained_len: int },
    MagicMismatch { expected: Seq<u8>, obtained: Seq<u8> },
    ItemLengthMismatch { expected: int, obtained: int },
    ItemMinLengthMismatch { expected_at_least: int, obtained: int },
    ItemLengthNotDivisible { expected_divisor: int, obtained_length: int },
    InvalidOemEncoding { value: Seq<u8> },
    InvalidUtf16 { value: Seq<u16> },
    StartOutOfRange { start: int, length: int },
    EndOutOfRange { end: int, length: int },
    NeitherUnicodeNorOem,
}

impl View for NtlmParsingError {
    type V = ParseErrModel;

    open spec fn view(&self) -> ParseErrModel {
        match self {
            NtlmParsingError::ShortHeader { expected_min_len, obtained_len } => {
                ParseErrModel::ShortHeader {
                    expected_min_len: *expected_min_len as int,
                    obtained_len: *obtained_len as int,
                }
            },
            NtlmParsingError::MagicMismatch { expected, obtained } => {
                ParseErrModel::MagicMismatch { expected: expected@, obtained: obtained@ }
            },
            NtlmParsingError::ItemLengthMismatch { expected, obtained } => {
                ParseErrModel::ItemLengthMismatch {
                    expected: *expected as int,
                    obtained: *obtained as int,
                }
            },
            NtlmParsingError::ItemMinLengthMismatch { expected_at_least, obtained } => {
                ParseErrModel::ItemMinLengthMismatch {
                    expected_at_least: *expected_at_least as int,
                    obtained: *obtained as int,
                }
            },
            NtlmParsingError::ItemLengthNotDivisible { expected_divisor, obtained_length } => {
                ParseErrModel::ItemLengthNotDivisible {
                    expected_divisor: *expected_divisor as int,
                    obtained_length: *obtained_length as int,
                }
            },
            NtlmParsingError::InvalidOemEncoding { value } => {
                ParseErrModel::InvalidOemEncoding { value: value@ }
            },
            NtlmParsingError::InvalidUtf16 { value } => {
                ParseErrModel::InvalidUtf16 { value: value@ }
            },
            NtlmParsingError::StartOutOfRange { start, length } => {
                ParseErrModel::StartOutOfRange { start: *start as int, length: *length as int }
            },
            NtlmParsingError::EndOutOfRange { end, length } => {
                ParseErrModel::EndOutOfRange { end: *end as int, length: *length as int }
            },
            NtlmParsingError::NeitherUnicodeNorOem => ParseErrModel::NeitherUnicodeNorOem,
        }
    }
}

/// Why an in-memory message could not be encoded to bytes.
#[derive(Clone, Debug, PartialEq, Eq, Hash)]
pub enum NtlmStoringError {
    NonOemEncodable { string: String },
    NeitherUnicodeNorOem,
    FieldTooLong { obtained: usize },
}

/// The model of `NtlmStoringError`.
pub enum StoreErrModel {
    NonOemEncodable { string: Seq<char> },
    NeitherUnicodeNorOem,
    FieldTooLong { obtained: int },
}

impl View for NtlmStoringError {
    type V = StoreErrModel;

    open spec fn view(&self) -> StoreErrModel {
        match self {
            NtlmStoringError::NonOemEncodable { string } => {
                StoreErrModel::NonOemEncodable { string: string@ }
            },
            NtlmStoringError::NeitherUnicodeNorOem => StoreErrModel::NeitherUnicodeNorOem,
            NtlmStoringError::FieldTooLong { obtained } => {
                StoreErrModel::FieldTooLong { obtained: *obtained as int }
            },
        }
    }
}

} // verus!
