//! The turn token: 32 random bytes that stand for "it is my turn". The chain
//! keeps the hash of the token and the token itself encrypted to the RSA key
//! of its holder; whoever can decrypt it can prove the turn.

use crate::digest::{sha256, Digest};
use crate::encoding::{base64_decoded, base64_encoded, export_key_base64, import_key_base64};
use rand::rngs::OsRng;
use rand::RngCore;
use rsa::pkcs1v15::Pkcs1v15Encrypt;
use rsa::pkcs8::{DecodePrivateKey, DecodePublicKey, EncodePrivateKey, EncodePublicKey, LineEnding};
use rsa::traits::PublicKeyParts;
use rsa::{RsaPrivateKey, RsaPublicKey};
use vstd::prelude::*;
use vstd::string::StrSliceExecFns;
use vstd::utf8::{encode_utf8_decode_utf8, encode_utf8_valid_utf8, valid_utf8};

verus! {

/// Number of bytes in a turn token.
pub const TOKEN_BYTES: usize = 32;

/// Number of bits in the modulus of a freshly generated RSA key.
pub const RSA_KEY_BITS: usize = 2048;

/// Whether the `rsa` crate reads the text as a public key in PEM.
pub uninterp spec fn is_rsa_public_key(pem: Seq<char>) -> bool;

/// Whether the `rsa` crate reads the text as a PKCS#8 private key in PEM.
pub uninterp spec fn is_rsa_private_key(pem: Seq<char>) -> bool;

/// The size in bytes of the modulus of the public key that the PEM text
/// holds, as the `rsa` crate gives it.
pub uninterp spec fn rsa_modulus_bytes(public_key_pem: Seq<char>) -> nat;

/// Bytes that PKCS#1 v1.5 padding adds to a message at the least.
pub const PKCS1_PADDING_BYTES: usize = 11;

/// What the `rsa` crate decrypts the ciphertext to with the private key of
/// the PEM text and PKCS#1 v1.5 padding, or `None` where it reports an
/// error.
pub uninterp spec fn rsa_decrypted(private_key_pem: Seq<char>, ciphertext: Seq<u8>) -> Option<
    Seq<u8>,
>;

/// The text that the bytes spell in UTF-8, if they spell one.
pub open spec fn utf8_text(bytes: Seq<u8>) -> Option<Seq<char>> {
    if valid_utf8(bytes) {
        Some(vstd::utf8::decode_utf8(bytes))
    } else {
        None
    }
}

/// `String::from_utf8` of std: the result is the text that the bytes spell,
/// and `None` where they are not valid UTF-8.
#[verifier::external_body]
fn text_from_utf8(bytes: Vec<u8>) -> (text: Option<String>)
    ensures
        match text {
            Some(t) => utf8_text(bytes@) == Some(t@),
            None => utf8_text(bytes@) is None,
        },
{
    String::from_utf8(bytes).ok()
}

/// `RsaPublicKey::from_public_key_pem` of the `rsa` crate: the result says
/// whether the crate reads the text as a public key.
#[verifier::external_body]
fn reads_as_public_key(pem: &str) -> (ok: bool)
    ensures
        ok == is_rsa_public_key(pem@),
{
    RsaPublicKey::from_public_key_pem(pem).is_ok()
}

/// `RsaPrivateKey::from_pkcs8_pem` of the `rsa` crate: the result says
/// whether the crate reads the text as a private key.
#[verifier::external_body]
fn reads_as_private_key(pem: &str) -> (ok: bool)
    ensures
        ok == is_rsa_private_key(pem@),
{
    RsaPrivateKey::from_pkcs8_pem(pem).is_ok()
}

/// `PublicKeyParts::size` of the `rsa` crate, on the public key that the
/// text holds: the result is the size of the key's modulus in bytes.
#[verifier::external_body]
fn rsa_modulus_size(public_key_pem: &str) -> (size: usize)
    requires
        is_rsa_public_key(public_key_pem@),
    ensures
        size == rsa_modulus_bytes(public_key_pem@),
{
    match RsaPublicKey::from_public_key_pem(public_key_pem) {
        Ok(key) => key.size(),
        Err(_) => 0,
    }
}

/// `RsaPublicKey::encrypt` of the `rsa` crate with PKCS#1 v1.5 padding and
/// the random numbers of the operating system, on the key that the text
/// holds. The padding is random, so nothing is said of what the ciphertext
/// holds. The crate reports an error where the message with eleven bytes of
/// padding is longer than the modulus, and for a key that it has read in no
/// other case; a ciphertext is as long as the modulus. `None` stands for
/// the error.
#[verifier::external_body]
fn rsa_encrypt(public_key_pem: &str, message: &[u8]) -> (ciphertext: Option<Vec<u8>>)
    requires
        is_rsa_public_key(public_key_pem@),
    ensures
        ciphertext is Some <==> message@.len() + PKCS1_PADDING_BYTES <= rsa_modulus_bytes(
            public_key_pem@,
        ),
        ciphertext matches Some(c) ==> c@.len() == rsa_modulus_bytes(public_key_pem@),
{
    match RsaPublicKey::from_public_key_pem(public_key_pem) {
        Ok(key) => key.encrypt(&mut OsRng, Pkcs1v15Encrypt, message).ok(),
        Err(_) => None,
    }
}

/// `RsaPrivateKey::decrypt` of the `rsa` crate with PKCS#1 v1.5 padding, on
/// the key that the text holds: the result is what the crate decrypts the
/// ciphertext to, and `None` where it reports an error.
#[verifier::external_body]
fn rsa_decrypt(private_key_pem: &str, ciphertext: &[u8]) -> (plain: Option<Vec<u8>>)
    requires
        is_rsa_private_key(private_key_pem@),
    ensures
        match plain {
            Some(p) => rsa_decrypted(private_key_pem@, ciphertext@) == Some(p@),
            None => rsa_decrypted(private_key_pem@, ciphertext@) is None,
        },
{
    match RsaPrivateKey::from_pkcs8_pem(private_key_pem) {
        Ok(key) => key.decrypt(Pkcs1v15Encrypt, ciphertext).ok(),
        Err(_) => None,
    }
}

/// `OsRng::try_fill_bytes` of the `rand` crate on `count` bytes: that
/// many random bytes from the operating system, or `None` where it has none
/// to give.
#[verifier::external_body]
fn random_bytes(count: usize) -> (bytes: Option<Vec<u8>>)
    ensures
        bytes matches Some(b) ==> b@.len() == count,
{
    let mut bytes = vec![0u8; count];
    match OsRng.try_fill_bytes(&mut bytes) {
        Ok(()) => Some(bytes),
        Err(_) => None,
    }
}

/// `RsaPrivateKey::new` of the `rsa` crate for a modulus of `bits` bits,
/// with the key and its public half written as PEM by `to_pkcs8_pem` and
/// `to_public_key_pem`: the private key's text and the public key's text,
/// or `None` where the crate reports an error. The crate takes any size
/// from 64 bits on. Nothing is said of the texts.
#[verifier::external_body]
fn rsa_keypair_pem(bits: usize) -> (keys: Option<(String, String)>)
    requires
        bits >= 64,
{
    let private_key = RsaPrivateKey::new(&mut OsRng, bits).ok()?;
    let public_key = RsaPublicKey::from(&private_key);
    let private_pem = private_key.to_pkcs8_pem(LineEnding::default()).ok()?;
    let public_pem = public_key.to_public_key_pem(LineEnding::default()).ok()?;
    Some((private_pem.as_str().to_owned(), public_pem))
}

/// The two byte strings are the PEM texts of an RSA key pair as it is
/// generated: the `rsa` crate reads the first as a PKCS#8 private key and
/// the second as a public key with a modulus of 2048 bits.
pub open spec fn is_rsa_keypair_text(private_pem: Seq<u8>, public_pem: Seq<u8>) -> bool {
    &&& utf8_text(private_pem) is Some
    &&& is_rsa_private_key(utf8_text(private_pem).unwrap())
    &&& utf8_text(public_pem) is Some
    &&& is_rsa_public_key(utf8_text(public_pem).unwrap())
    &&& rsa_modulus_bytes(utf8_text(public_pem).unwrap()) * 8 == RSA_KEY_BITS
}

/// The bytes of a text.
fn text_bytes(text: &String) -> (bytes: Vec<u8>)
    ensures
        utf8_text(bytes@) == Some(text@),
{
    proof {
        encode_utf8_valid_utf8(text@);
        encode_utf8_decode_utf8(text@);
    }
    text.as_str().as_bytes_vec()
}

/// Generates an RSA key pair of 2048 bits: the private key as the bytes of
/// its PKCS#8 PEM text, and the public key as the bytes of its PEM text.
/// Both texts are read back before they are handed out. Gives `None`
/// where the generation fails or a text does not read back as the key it
/// is meant to be.
pub fn generate_rsa_keypair() -> (keys: Option<(Vec<u8>, Vec<u8>)>)
    ensures
        keys matches Some(pair) ==> is_rsa_keypair_text(pair.0@, pair.1@),
{
    let (private_pem, public_pem) = match rsa_keypair_pem(RSA_KEY_BITS) {
        Some(pair) => pair,
        None => {
            return None;
        },
    };
    if !reads_as_private_key(private_pem.as_str()) {
        return None;
    }
    if !reads_as_public_key(public_pem.as_str()) {
        return None;
    }
    if rsa_modulus_size(public_pem.as_str()) != RSA_KEY_BITS / 8 {
        return None;
    }
    Some((text_bytes(&private_pem), text_bytes(&public_pem)))
}

/// A token as it is handed to a form: the base-64 text of `token`.
pub fn token_text(token: &[u8]) -> (text: String)
    ensures
        text@ == base64_encoded(token@),
{
    export_key_base64(token)
}

/// A token that the operating system gave, or did not give, as it is
/// handed to a form: the base-64 text of the bytes, where there are any.
pub fn raw_token_text(bytes: Option<Vec<u8>>) -> (text: Option<String>)
    ensures
        match bytes {
            Some(b) => text matches Some(t) && t@ == base64_encoded(b@),
            None => text is None,
        },
{
    match bytes {
        Some(token) => Some(token_text(token.as_slice())),
        None => None,
    }
}

/// Generates a fresh turn token of 32 random bytes and gives it as base-64
/// text, or `None` where the operating system has no random bytes to give.
pub fn generate_raw_token_base64() -> (text: Option<String>)
    ensures
        text matches Some(t) ==> exists|token: Seq<u8>|
            token.len() == TOKEN_BYTES && t@ == #[trigger] base64_encoded(token),
{
    let bytes = random_bytes(TOKEN_BYTES);
    let text = raw_token_text(bytes);
    proof {
        if bytes is Some {
            assert(bytes.unwrap()@.len() == TOKEN_BYTES);
        }
    }
    text
}

/// The PEM text of an RSA key that is given as base-64 text, if the text is
/// base 64 of valid UTF-8.
pub open spec fn pem_of(key_b64: Seq<char>) -> Option<Seq<char>> {
    match base64_decoded(key_b64) {
        Some(bytes) => utf8_text(bytes),
        None => None,
    }
}

/// Reads the PEM text of a key that is given as base-64 text.
pub fn read_pem(key_b64: &str) -> (pem: Option<String>)
    ensures
        match pem {
            Some(text) => pem_of(key_b64@) == Some(text@),
            None => pem_of(key_b64@) is None,
        },
{
    match import_key_base64(key_b64) {
        Some(bytes) => text_from_utf8(bytes),
        None => None,
    }
}

/// Wraps up what the encryption gave: the ciphertext as base-64 text, with
/// the hash of the token. Where the encryption failed there is nothing to
/// hand on.
pub fn seal_turn_token(ciphertext: Option<Vec<u8>>, token: &[u8]) -> (sealed: Option<
    (String, [u8; 32]),
>)
    ensures
        sealed is Some <==> ciphertext is Some,
        sealed matches Some(pair) ==> pair.0@ == base64_encoded(ciphertext.unwrap()@) && pair.1@
            == sha256(token@),
{
    match ciphertext {
        Some(enc) => {
            let token_hash = Digest::of(token);
            Some((export_key_base64(enc.as_slice()), token_hash.bytes))
        },
        None => None,
    }
}

/// The key and the token, given as base-64 text, are such that the token
/// can be encrypted to the key: the key is the PEM text of an RSA public
/// key, and the token with its padding is no longer than the key's modulus.
pub open spec fn turn_token_fits(rsa_pubkey_base64: Seq<char>, token_b64: Seq<char>) -> bool {
    match (pem_of(rsa_pubkey_base64), base64_decoded(token_b64)) {
        (Some(pem), Some(token)) => is_rsa_public_key(pem) && token.len() + PKCS1_PADDING_BYTES
            <= rsa_modulus_bytes(pem),
        _ => false,
    }
}

/// `sealed` is a turn token prepared for the key: the base-64 text of a
/// ciphertext as long as the key's modulus, and the SHA-256 hash of the
/// plain token.
pub open spec fn is_prepared_token(
    sealed: (String, [u8; 32]),
    rsa_pubkey_base64: Seq<char>,
    token_b64: Seq<char>,
) -> bool {
    &&& sealed.1@ == sha256(base64_decoded(token_b64).unwrap())
    &&& exists|ciphertext: Seq<u8>|
        ciphertext.len() == rsa_modulus_bytes(pem_of(rsa_pubkey_base64).unwrap()) && sealed.0@
            == #[trigger] base64_encoded(ciphertext)
}

/// Encrypts a turn token to the RSA public key of its next holder. Key and
/// token come as base-64 text. Gives the ciphertext as base-64 text and the
/// SHA-256 hash of the token. Gives `None` where a text is not base 64,
/// the key is not a public key in PEM, or the token is too long for the
/// key, and in no other case.
pub fn prepare_turn_token(rsa_pubkey_base64: &str, token_b64: &str) -> (prepared: Option<
    (String, [u8; 32]),
>)
    ensures
        prepared is Some <==> turn_token_fits(rsa_pubkey_base64@, token_b64@),
        prepared matches Some(pair) ==> is_prepared_token(pair, rsa_pubkey_base64@, token_b64@),
{
    let rsa_pem = match read_pem(rsa_pubkey_base64) {
        Some(pem) => pem,
        None => {
            return None;
        },
    };
    if !reads_as_public_key(rsa_pem.as_str()) {
        return None;
    }
    let token = match import_key_base64(token_b64) {
        Some(token) => token,
        None => {
            return None;
        },
    };
    let enc = rsa_encrypt(rsa_pem.as_str(), token.as_slice());
    let sealed = seal_turn_token(enc, token.as_slice());
    proof {
        if sealed is Some {
            assert(sealed.unwrap().0@ == base64_encoded(enc.unwrap()@));
        }
    }
    sealed
}

/// The token that the ciphertext holds for the owner of the private key,
/// or the first thing that stands against opening it. Key and ciphertext
/// come as base-64 text.
pub open spec fn open_turn_token_spec(private_key_b64: Seq<char>, enc_token: Seq<char>) -> Result<
    Seq<u8>,
    Seq<char>,
> {
    match base64_decoded(private_key_b64) {
        None => Err("Base64 decode failed"@),
        Some(key_bytes) => match utf8_text(key_bytes) {
            None => Err("Invalid UTF-8 PEM"@),
            Some(pem) => if !is_rsa_private_key(pem) {
                Err("Invalid RSA key format"@)
            } else {
                match base64_decoded(enc_token) {
                    None => Err("Bad enc token"@),
                    Some(ciphertext) => match rsa_decrypted(pem, ciphertext) {
                        None => Err("Decrypt failed"@),
                        Some(token) => Ok(token),
                    },
                }
            },
        },
    }
}

/// Decrypts a turn token with the RSA private key of its holder. Key and
/// ciphertext come as base-64 text.
pub fn open_turn_token(private_key_b64: &str, enc_token: &str) -> (token: Result<Vec<u8>, String>)
    ensures
        match token {
            Ok(t) => open_turn_token_spec(private_key_b64@, enc_token@) == Ok::<
                Seq<u8>,
                Seq<char>,
            >(t@),
            Err(e) => open_turn_token_spec(private_key_b64@, enc_token@) == Err::<
                Seq<u8>,
                Seq<char>,
            >(e@),
        },
{
    let privkey_bytes = match import_key_base64(private_key_b64) {
        Some(bytes) => bytes,
        None => {
            return Err("Base64 decode failed".to_owned());
        },
    };
    let priv_pem = match text_from_utf8(privkey_bytes) {
        Some(pem) => pem,
        None => {
            return Err("Invalid UTF-8 PEM".to_owned());
        },
    };
    if !reads_as_private_key(priv_pem.as_str()) {
        return Err("Invalid RSA key format".to_owned());
    }
    let encrypted_bytes = match import_key_base64(enc_token) {
        Some(bytes) => bytes,
        None => {
            return Err("Bad enc token".to_owned());
        },
    };
    match rsa_decrypt(priv_pem.as_str(), encrypted_bytes.as_slice()) {
        Some(token) => Ok(token),
        None => Err("Decrypt failed".to_owned()),
    }
}

} // verus!
