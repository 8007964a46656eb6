//! Bytes as base64 text, the form in which salts, nonces and ciphertexts are
//! stored.

use vstd::prelude::*;

verus! {

/// The base64 text of `bytes`, in the standard alphabet and padded: what the
/// `encode` of `base64::engine::general_purpose::STANDARD` returns for them.
pub uninterp spec fn base64_encoding(bytes: Seq<u8>) -> Seq<char>;

/// What the `decode` of `base64::engine::general_purpose::STANDARD` makes of
/// `text`: the bytes that it stands for, or, where it is no base64 text, the
/// words in which the decoder says why.
pub uninterp spec fn base64_decoding(text: Seq<char>) -> Result<Seq<u8>, Seq<char>>;

/// The outcome of decoding a text that stands for `bytes`.
pub open spec fn decoded(bytes: Seq<u8>) -> Result<Seq<u8>, Seq<char>> {
    Ok(bytes)
}

/// The outcome of decoding a text that the decoder refuses in the words
/// `fault`.
pub open spec fn refused(fault: Seq<char>) -> Result<Seq<u8>, Seq<char>> {
    Err(fault)
}

/// The number of characters of the base64 text of `len` bytes: four for
/// every three bytes, a remainder counting as three.
pub open spec fn encoded_len(len: nat) -> nat {
    (len + 2) / 3 * 4
}

/// Whether the base64 text of `len` bytes can be as long as it has to be:
/// four characters for every three bytes, and four more for a remainder.
pub open spec fn encodable(len: nat) -> bool {
    len / 3 * 4 + 4 <= usize::MAX
}

/// Encodes bytes with the `encode` of
/// `base64::engine::general_purpose::STANDARD`. The result is the base64 text
/// of the bytes, it has `encoded_len` characters for them, and decoding it
/// gives the bytes back. The bytes must
/// be few enough for the length of the text to be a `usize`: `encode` panics
/// otherwise.
#[verifier::external_body]
pub(crate) fn encode_base64(bytes: &[u8]) -> (text: String)
    requires
        encodable(bytes@.len()),
    ensures
        text@ == base64_encoding(bytes@),
        text@.len() == encoded_len(bytes@.len()),
        base64_decoding(text@) == decoded(bytes@),
{
    base64::Engine::encode(&base64::engine::general_purpose::STANDARD, bytes)
}

/// Decodes a text with the `decode` of
/// `base64::engine::general_purpose::STANDARD`. The result is what
/// `base64_decoding` names: the bytes, or the decoder's error in the words of
/// its `to_string`.
#[verifier::external_body]
pub(crate) fn decode_base64(text: &str) -> (r: Result<Vec<u8>, String>)
    ensures
        match r {
            Ok(bytes) => base64_decoding(text@) == decoded(bytes@),
            Err(fault) => base64_decoding(text@) == refused(fault@),
        },
{
    match base64::Engine::decode(&base64::engine::general_purpose::STANDARD, text) {
        Ok(bytes) => Ok(bytes),
        Err(e) => Err(e.to_string()),
    }
}

} // verus!
