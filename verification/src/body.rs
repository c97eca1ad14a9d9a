//! Bodies as they are stored in cassettes: UTF-8 text as is, anything else in base64.

use vstd::prelude::*;
use vstd::utf8::{decode_utf8, encode_utf8, valid_utf8};
use base64::Engine;
use crate::cassette::types::BodyEncoding;

verus! {

/// The `base64` crate's decoding error, carried through opaquely.
#[verifier::external_type_specification]
#[verifier::external_body]
pub struct ExDecodeError(base64::DecodeError);

/// The standard base64 encoding (with padding) of some bytes, as the `base64` crate's
/// `STANDARD` engine writes it.
pub uninterp spec fn base64_text(bytes: Seq<u8>) -> Seq<char>;

/// What the `base64` crate's `STANDARD` engine's `decode` gives for a text: the bytes,
/// or its error when the text is not valid padded base64.
pub uninterp spec fn base64_decoded(text: Seq<char>) -> Result<Seq<u8>, base64::DecodeError>;

/// The bytes a text decodes to in base64: `None` when it is not valid padded base64.
pub open spec fn base64_bytes(text: Seq<char>) -> Option<Seq<u8>> {
    match base64_decoded(text) {
        Ok(b) => Some(b),
        Err(_) => None,
    }
}

/// How the `base64` crate displays one of its decoding errors.
pub uninterp spec fn decode_error_display(e: base64::DecodeError) -> Seq<char>;

/// The message of the error decoding a text gives (empty when it decodes).
pub open spec fn base64_error_text(text: Seq<char>) -> Seq<char> {
    match base64_decoded(text) {
        Ok(_) => Seq::empty(),
        Err(e) => decode_error_display(e),
    }
}

/// Encodes bytes with `base64::engine::general_purpose::STANDARD.encode`. Decoding what
/// that engine encodes gives back the same bytes.
#[verifier::external_body]
pub(crate) fn base64_encode(bytes: &[u8]) -> (r: String)
    ensures
        r@ == base64_text(bytes@),
        base64_bytes(r@) == Some(bytes@),
{
    base64::engine::general_purpose::STANDARD.encode(bytes)
}

/// Decodes text with `base64::engine::general_purpose::STANDARD.decode`; the result is
/// named `base64_decoded` of the text.
#[verifier::external_body]
pub(crate) fn base64_decode(text: &str) -> (r: Result<Vec<u8>, base64::DecodeError>)
    ensures
        match r {
            Ok(b) => base64_decoded(text@) == Ok::<Seq<u8>, base64::DecodeError>(b@),
            Err(e) => base64_decoded(text@) == Err::<Seq<u8>, base64::DecodeError>(e),
        },
{
    base64::engine::general_purpose::STANDARD.decode(text)
}

/// The message of a base64 decoding error, as the `base64` crate displays it; the
/// result is named `decode_error_display` of the error.
#[verifier::external_body]
pub(crate) fn decode_error_text(e: &base64::DecodeError) -> (r: String)
    ensures
        r@ == decode_error_display(*e),
{
    format!("{}", e)
}

/// std's error for bytes that are not UTF-8, carried through opaquely.
#[verifier::external_type_specification]
#[verifier::external_body]
pub struct ExUtf8Error(std::str::Utf8Error);

/// The error std's `str::from_utf8` gives for bytes that are not UTF-8.
pub uninterp spec fn utf8_error_of(bytes: Seq<u8>) -> std::str::Utf8Error;

/// How std displays a UTF-8 error.
pub uninterp spec fn utf8_error_display(e: std::str::Utf8Error) -> Seq<char>;

/// Converts bytes to text with std's `str::from_utf8`: text exactly when the bytes
/// are valid UTF-8, and then the characters they encode; otherwise its error, named
/// `utf8_error_of` of the bytes.
#[verifier::external_body]
pub(crate) fn utf8_decode(bytes: &[u8]) -> (r: Result<String, std::str::Utf8Error>)
    ensures
        match r {
            Ok(s) => valid_utf8(bytes@) && s@ == decode_utf8(bytes@),
            Err(e) => !valid_utf8(bytes@) && e == utf8_error_of(bytes@),
        },
{
    match std::str::from_utf8(bytes) {
        Ok(s) => Ok(s.to_owned()),
        Err(e) => Err(e),
    }
}

/// The message of a UTF-8 error, as std displays it; the result is named
/// `utf8_error_display` of the error.
#[verifier::external_body]
pub(crate) fn utf8_error_text(e: &std::str::Utf8Error) -> (r: String)
    ensures
        r@ == utf8_error_display(*e),
{
    format!("{}", e)
}

/// The UTF-8 bytes of a text.
pub fn text_bytes(s: &str) -> (r: Vec<u8>)
    ensures
        r@ == encode_utf8(s@),
{
    vstd::slice::slice_to_vec(s.as_bytes())
}

/// How bytes are stored: as text when they are valid UTF-8, otherwise in base64.
pub open spec fn stored_body(bytes: Seq<u8>) -> (Seq<char>, BodyEncoding) {
    if valid_utf8(bytes) {
        (decode_utf8(bytes), BodyEncoding::Text)
    } else {
        (base64_text(bytes), BodyEncoding::Base64)
    }
}

/// The bytes a stored body stands for: the UTF-8 encoding of text, the decoding of
/// base64 (`None` when it is not valid base64).
pub open spec fn body_bytes(text: Seq<char>, encoding: BodyEncoding) -> Option<Seq<u8>> {
    match encoding {
        BodyEncoding::Text => Some(encode_utf8(text)),
        BodyEncoding::Base64 => base64_bytes(text),
    }
}

/// Stores bytes as a body. What is stored decodes back to the same bytes.
pub fn store_body(bytes: &[u8]) -> (r: (String, BodyEncoding))
    ensures
        (r.0@, r.1) == stored_body(bytes@),
        body_bytes(r.0@, r.1) == Some(bytes@),
{
    match utf8_decode(bytes) {
        Ok(text) => {
            proof {
                vstd::utf8::decode_utf8_encode_utf8(bytes@);
            }
            (text, BodyEncoding::Text)
        },
        Err(_) => (base64_encode(bytes), BodyEncoding::Base64),
    }
}

/// The bytes of a stored body; `Err` with the decoder's error when base64 is invalid.
pub fn load_body(text: &str, encoding: BodyEncoding) -> (r: Result<Vec<u8>, base64::DecodeError>)
    ensures
        match r {
            Ok(b) => body_bytes(text@, encoding) == Some(b@),
            Err(e) => body_bytes(text@, encoding) is None && encoding == BodyEncoding::Base64
                && base64_decoded(text@) == Err::<Seq<u8>, base64::DecodeError>(e),
        },
{
    match encoding {
        BodyEncoding::Text => Ok(text_bytes(text)),
        BodyEncoding::Base64 => base64_decode(text),
    }
}

/// Stored text reads back as itself: the UTF-8 bytes of a text are stored as that text.
pub proof fn lemma_text_round_trip(text: Seq<char>)
    ensures
        stored_body(encode_utf8(text)) == (text, BodyEncoding::Text),
{
    vstd::utf8::encode_utf8_valid_utf8(text);
    vstd::utf8::encode_utf8_decode_utf8(text);
}

} // verus!
