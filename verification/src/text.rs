//! Text in modified UTF-8, the encoding of NBT strings: like UTF-8, but the null
//! character takes two bytes and a character beyond the Basic Multilingual Plane takes
//! six, as a pair of surrogates.

use crate::error::Error;
use vstd::prelude::*;

verus! {

/// The error of the `cesu8` crate's decoders. It carries no detail.
#[verifier::external_type_specification]
#[verifier::external_body]
pub struct ExCesu8DecodingError(cesu8::Cesu8DecodingError);

/// The modified UTF-8 bytes of a text: what `cesu8::to_java_cesu8` returns for it.
pub uninterp spec fn java_cesu8(text: Seq<char>) -> Seq<u8>;

/// The text that bytes decode to as modified UTF-8, if any: what
/// `cesu8::from_java_cesu8` returns for them.
pub uninterp spec fn java_cesu8_text(bytes: Seq<u8>) -> Option<Seq<char>>;

/// `cesu8::to_java_cesu8`, with its result copied into a vector. The contract names the
/// result and claims two things of it that are not proved here. One is that
/// `cesu8::from_java_cesu8` decodes it to the text it came from: the encoder emits
/// nothing but ASCII other than null, `C0 80` for null, two- and three-byte UTF-8 as it
/// stands and a pair of surrogates for each four-byte character, and the decoder turns
/// each of these back into what it came from. The other is that it holds at least one
/// byte for each character.
#[verifier::external_body]
pub(crate) fn to_java_cesu8(text: &str) -> (r: Vec<u8>)
    ensures
        r@ == java_cesu8(text@),
        java_cesu8_text(r@) == Some(text@),
        r@.len() >= text@.len(),
{
    cesu8::to_java_cesu8(text).into_owned()
}

/// `cesu8::from_java_cesu8`, with a decoded text copied into a `String`. The contract
/// names the result: the text on success, none on failure.
#[verifier::external_body]
fn from_java_cesu8(bytes: &[u8]) -> (r: Result<String, cesu8::Cesu8DecodingError>)
    ensures
        match r {
            Ok(text) => java_cesu8_text(bytes@) == Some(text@),
            Err(_) => java_cesu8_text(bytes@) is None,
        },
{
    match cesu8::from_java_cesu8(bytes) {
        Ok(text) => Ok(text.into_owned()),
        Err(e) => Err(e),
    }
}

/// The text that `bytes` decode to as modified UTF-8, or `InvalidCesu8` where they
/// decode to none.
pub fn decode_text(bytes: &[u8]) -> (r: Result<String, Error>)
    ensures
        match r {
            Ok(text) => java_cesu8_text(bytes@) == Some(text@),
            Err(e) => e == Error::InvalidCesu8 && java_cesu8_text(bytes@) is None,
        },
{
    match from_java_cesu8(bytes) {
        Ok(text) => Ok(text),
        Err(_) => Err(Error::InvalidCesu8),
    }
}

} // verus!
