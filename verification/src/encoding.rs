use vstd::prelude::*;
use vstd::utf8::{decode_utf8, valid_utf8};

use crate::error::Error;

verus! {

/// The error of `base64::decode`, carried through without a look inside.
#[verifier::external_type_specification]
#[verifier::external_body]
pub struct ExDecodeError(base64::DecodeError);

/// The error of `String::from_utf8`, carried through without a look
/// inside.
#[verifier::external_type_specification]
#[verifier::external_body]
pub struct ExFromUtf8Error(std::string::FromUtf8Error);

/// The bytes that `text` stands for in standard base64 with padding, or
/// `None` where `text` is no such encoding.
pub uninterp spec fn base64_decoded(text: Seq<char>) -> Option<Seq<u8>>;

/// Calls `base64::decode`, the decoder of the standard alphabet with
/// padding.
///
/// The contract names what the decoder makes of its input: the call
/// succeeds exactly where `base64_decoded` is `Some`, with the bytes that
/// it holds. Which error a refused input gets is left open.
#[verifier::external_body]
#[allow(deprecated)]
fn base64_decode(text: &str) -> (result: Result<Vec<u8>, base64::DecodeError>)
    ensures
        match result {
            Ok(bytes) => base64_decoded(text@) == Some(bytes@),
            Err(_) => base64_decoded(text@) is None,
        },
{
    base64::decode(text)
}

/// The text that standard base64 with padding gives for the UTF-8 bytes of
/// `text`.
pub uninterp spec fn base64_encoded(text: Seq<char>) -> Seq<char>;

/// Calls `base64::encode`, the encoder of the standard alphabet with
/// padding, on the bytes of `text`.
///
/// The contract names what the encoder gives: the result is
/// `base64_encoded` of the text. The encoder fails only where the length
/// of its result does not fit a `usize`, which no text in memory reaches.
#[verifier::external_body]
#[allow(deprecated)]
fn base64_encode(text: &str) -> (result: String)
    ensures
        result@ == base64_encoded(text@),
{
    base64::encode(text)
}

/// Calls `String::from_utf8`.
///
/// The contract says what the standard library documents: the call
/// succeeds exactly on valid UTF-8, and the string then holds the
/// characters that the bytes encode.
#[verifier::external_body]
fn string_from_utf8(bytes: Vec<u8>) -> (result: Result<String, std::string::FromUtf8Error>)
    ensures
        match result {
            Ok(text) => valid_utf8(bytes@) && text@ == decode_utf8(bytes@),
            Err(_) => !valid_utf8(bytes@),
        },
{
    String::from_utf8(bytes)
}

/// The text that `bytes` encode in UTF-8.
pub open spec fn text_of(bytes: Seq<u8>) -> Result<Seq<char>, Error> {
    if valid_utf8(bytes) {
        Ok(decode_utf8(bytes))
    } else {
        Err(Error::InvalidUtf8)
    }
}

/// The text behind a base64 `text`: its bytes, read as UTF-8.
pub open spec fn decoded_text(text: Seq<char>) -> Result<Seq<char>, Error> {
    match base64_decoded(text) {
        Some(bytes) => text_of(bytes),
        None => Err(Error::InvalidBase64),
    }
}

/// Reads `bytes` as UTF-8 text.
pub fn text_from_bytes(bytes: Vec<u8>) -> (result: Result<String, Error>)
    ensures
        match result {
            Ok(text) => text_of(bytes@) == Ok::<Seq<char>, Error>(text@),
            Err(error) => text_of(bytes@) == Err::<Seq<char>, Error>(error),
        },
{
    match string_from_utf8(bytes) {
        Ok(text) => Ok(text),
        Err(_) => Err(Error::InvalidUtf8),
    }
}

/// Decodes a session description that was handed over as base64 text.
pub fn decode(s: &str) -> (result: Result<String, Error>)
    ensures
        match result {
            Ok(text) => decoded_text(s@) == Ok::<Seq<char>, Error>(text@),
            Err(error) => decoded_text(s@) == Err::<Seq<char>, Error>(error),
        },
{
    match base64_decode(s) {
        Ok(bytes) => text_from_bytes(bytes),
        Err(_) => Err(Error::InvalidBase64),
    }
}

/// Encodes a session description as base64 text, to be handed over on one
/// line.
pub fn encode(s: &str) -> (result: String)
    ensures
        result@ == base64_encoded(s@),
{
    base64_encode(s)
}

} // verus!
