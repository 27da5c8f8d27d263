//! Keys, tokens and ciphertexts travel as base-64 text.

use base64::engine::general_purpose::STANDARD;
use base64::Engine;
use vstd::prelude::*;

verus! {

/// The standard base-64 text of a byte string, with padding, as the
/// `base64` crate writes it.
pub uninterp spec fn base64_encoded(data: Seq<u8>) -> Seq<char>;

/// The bytes that a standard base-64 text stands for, or `None` where the
/// `base64` crate does not accept the text.
pub uninterp spec fn base64_decoded(text: Seq<char>) -> Option<Seq<u8>>;

/// `Engine::encode` of the `base64` crate on its `STANDARD` engine: the
/// result is the base-64 text of `data`.
#[verifier::external_body]
fn base64_encode(data: &[u8]) -> (text: String)
    ensures
        text@ == base64_encoded(data@),
{
    STANDARD.encode(data)
}

/// `Engine::decode` of the `base64` crate on its `STANDARD` engine: the
/// result is the bytes that `text` stands for, and `None` where the crate
/// reports an error.
#[verifier::external_body]
fn base64_decode(text: &str) -> (data: Option<Vec<u8>>)
    ensures
        match data {
            Some(bytes) => base64_decoded(text@) == Some(bytes@),
            None => base64_decoded(text@) is None,
        },
{
    match STANDARD.decode(text) {
        Ok(bytes) => Some(bytes),
        Err(_) => None,
    }
}

/// Writes a key as base-64 text.
pub fn export_key_base64(key: &[u8]) -> (text: String)
    ensures
        text@ == base64_encoded(key@),
{
    base64_encode(key)
}

/// Reads a key from base-64 text, or gives `None` where the text is not
/// base 64.
pub fn import_key_base64(key: &str) -> (bytes: Option<Vec<u8>>)
    ensures
        match bytes {
            Some(b) => base64_decoded(key@) == Some(b@),
            None => base64_decoded(key@) is None,
        },
{
    base64_decode(key)
}

} // verus!
