//! The binary layout of stored values: an integer is its eight bytes, least
//! significant first; a text is its length in bytes, written as four bytes,
//! least significant first, and then its UTF-8 bytes.

use vstd::prelude::*;
use vstd::slice::slice_subrange;
use vstd::utf8::{decode_utf8, valid_utf8};

verus! {

/// Why some bytes are not the stored form of a value.
#[derive(Clone, Copy, Debug, PartialEq, Eq, Structural)]
pub enum DecodeError {
    /// There are fewer or more bytes than the value takes.
    UnexpectedLength,
    /// The bytes of a text are not UTF-8.
    InvalidText,
}

/// The words for a decoding error.
pub open spec fn decode_error_text(e: DecodeError) -> Seq<char> {
    match e {
        DecodeError::UnexpectedLength => "unexpected length of the stored value"@,
        DecodeError::InvalidText => "the stored text is not valid UTF-8"@,
    }
}

impl DecodeError {
    /// The words for this error.
    pub fn to_text(&self) -> (text: String)
        ensures
            text@ == decode_error_text(*self),
    {
        match self {
            DecodeError::UnexpectedLength => "unexpected length of the stored value".to_owned(),
            DecodeError::InvalidText => "the stored text is not valid UTF-8".to_owned(),
        }
    }
}

/// The number that four bytes denote, least significant first.
pub open spec fn le_u32(bytes: Seq<u8>) -> nat
    recommends
        bytes.len() == 4,
{
    (bytes[0] + 256 * (bytes[1] + 256 * (bytes[2] + 256 * bytes[3]))) as nat
}

/// The number that eight bytes denote, least significant first.
pub open spec fn le_u64(bytes: Seq<u8>) -> nat
    recommends
        bytes.len() == 8,
{
    (bytes[0] + 256 * (bytes[1] + 256 * (bytes[2] + 256 * (bytes[3] + 256 * (bytes[4] + 256 * (
    bytes[5] + 256 * (bytes[6] + 256 * bytes[7]))))))) as nat
}

/// The integer that some bytes store.
pub open spec fn decoded_u64(bytes: Seq<u8>) -> Result<u64, DecodeError> {
    if bytes.len() == 8 {
        Ok(le_u64(bytes) as u64)
    } else {
        Err(DecodeError::UnexpectedLength)
    }
}

/// The text that some bytes store.
pub open spec fn decoded_text(bytes: Seq<u8>) -> Result<Seq<char>, DecodeError> {
    if bytes.len() < 4 || bytes.len() - 4 != le_u32(bytes.take(4)) {
        Err(DecodeError::UnexpectedLength)
    } else if !valid_utf8(bytes.skip(4)) {
        Err(DecodeError::InvalidText)
    } else {
        Ok(decode_utf8(bytes.skip(4)))
    }
}

/// The model of a decoded text.
pub open spec fn text_view(r: Result<String, DecodeError>) -> Result<Seq<char>, DecodeError> {
    match r {
        Ok(text) => Ok(text@),
        Err(e) => Err(e),
    }
}

/// Reads bytes as text with `std::str::from_utf8`. Nothing is proved of this
/// function: it is believed that the standard library accepts exactly the
/// well-formed UTF-8 encodings and yields the characters that they encode.
#[verifier::external_body]
fn text_from_utf8(bytes: &[u8]) -> (text: Option<String>)
    ensures
        text is Some <==> valid_utf8(bytes@),
        text matches Some(s) ==> s@ == decode_utf8(bytes@),
{
    match std::str::from_utf8(bytes) {
        Ok(s) => Some(s.to_owned()),
        Err(_) => None,
    }
}

/// Decodes a stored integer.
pub fn decode_u64(bytes: &[u8]) -> (r: Result<u64, DecodeError>)
    ensures
        r == decoded_u64(bytes@),
{
    if bytes.len() != 8 {
        return Err(DecodeError::UnexpectedLength);
    }
    let b7: u64 = bytes[7] as u64;
    let b6: u64 = bytes[6] as u64 + 256 * b7;
    let b5: u64 = bytes[5] as u64 + 256 * b6;
    let b4: u64 = bytes[4] as u64 + 256 * b5;
    let b3: u64 = bytes[3] as u64 + 256 * b4;
    let b2: u64 = bytes[2] as u64 + 256 * b3;
    let b1: u64 = bytes[1] as u64 + 256 * b2;
    let b0: u64 = bytes[0] as u64 + 256 * b1;
    Ok(b0)
}

/// Decodes a stored text.
pub fn decode_text(bytes: &[u8]) -> (r: Result<String, DecodeError>)
    ensures
        text_view(r) == decoded_text(bytes@),
{
    let n = bytes.len();
    if n < 4 {
        return Err(DecodeError::UnexpectedLength);
    }
    let l3: u64 = bytes[3] as u64;
    let l2: u64 = bytes[2] as u64 + 256 * l3;
    let l1: u64 = bytes[1] as u64 + 256 * l2;
    let l0: u64 = bytes[0] as u64 + 256 * l1;
    if (n - 4) as u64 != l0 {
        return Err(DecodeError::UnexpectedLength);
    }
    let body = slice_subrange(bytes, 4, n);
    match text_from_utf8(body) {
        Some(text) => Ok(text),
        None => Err(DecodeError::InvalidText),
    }
}

} // verus!
