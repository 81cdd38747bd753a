//! Standard-alphabet, padded base64, as the `base64` crate implements it.
use vstd::prelude::*;
use vstd::utf8::*;
use crate::text::utf8_string;

verus! {

/// The error type of `base64::Engine::decode`, carried through opaquely.
#[verifier::external_type_specification]
#[verifier::external_body]
pub struct ExDecodeError(::base64::DecodeError);

/// What the standard engine decodes a text to, or `None` where it refuses it.
pub uninterp spec fn base64_decoded(s: Seq<char>) -> Option<Seq<u8>>;

/// What the standard engine encodes a byte sequence to.
pub uninterp spec fn base64_encoded(b: Seq<u8>) -> Seq<char>;

/// Relies on `base64::Engine::decode` of `general_purpose::STANDARD`: a pure
/// function of the input text.
#[verifier::external_body]
pub(crate) fn standard_decode(s: &str) -> (r: Result<Vec<u8>, ::base64::DecodeError>)
    ensures
        match r {
            Ok(v) => base64_decoded(s@) == Some(v@),
            Err(_) => base64_decoded(s@) is None,
        },
{
    ::base64::Engine::decode(&::base64::engine::general_purpose::STANDARD, s)
}

/// Relies on `base64::Engine::encode` of `general_purpose::STANDARD`: a pure
/// function of the input bytes. It panics only when the output length
/// overflows `usize`, which the bound on the input rules out.
#[verifier::external_body]
pub(crate) fn standard_encode(b: &[u8]) -> (r: String)
    requires
        b@.len() <= usize::MAX / 2,
    ensures
        r@ == base64_encoded(b@),
{
    ::base64::Engine::encode(&::base64::engine::general_purpose::STANDARD, b)
}

/// The text a base64 input stands for, when it decodes to valid UTF-8.
pub open spec fn decoded_text(s: Seq<char>) -> Option<Seq<char>> {
    match base64_decoded(s) {
        Some(b) => if valid_utf8(b) {
            Some(decode_utf8(b))
        } else {
            None
        },
        None => None,
    }
}

/// Failure to read a base64 input as UTF-8 text.
#[derive(Debug)]
pub struct Base64Error {}

impl Base64Error {
    fn new() -> (r: Base64Error) {
        Base64Error {  }
    }
}

/// Decodes base64 `input` and reads the bytes as UTF-8 text.
pub fn decode(input: &String) -> (r: Result<String, Base64Error>)
    ensures
        r is Ok <==> decoded_text(input@) is Some,
        r matches Ok(t) ==> decoded_text(input@) == Some(t@),
{
    let bytes = match standard_decode(input.as_str()) {
        Ok(v) => v,
        Err(_) => {
            return Err(Base64Error::new());
        },
    };
    match utf8_string(bytes.as_slice()) {
        Some(t) => {
            proof {
                encode_utf8_decode_utf8(t@);
            }
            Ok(t)
        },
        None => Err(Base64Error::new()),
    }
}

/// Encodes `input` as base64.
pub fn encode(input: &[u8]) -> (r: String)
    requires
        input@.len() <= usize::MAX / 2,
    ensures
        r@ == base64_encoded(input@),
{
    standard_encode(input)
}

} // verus!
