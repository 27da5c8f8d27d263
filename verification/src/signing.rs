//! Dilithium2 signatures: every message to the chain is signed with the key
//! that the player joined with.

use crate::encoding::{base64_decoded, import_key_base64};
use crate::types::SignedMessage;
use pqcrypto_dilithium::dilithium2::{
    detached_sign, keypair, verify_detached_signature, DetachedSignature, PublicKey, SecretKey,
};
use pqcrypto_traits::sign::{
    DetachedSignature as SignatureBytes, PublicKey as PublicKeyBytes, SecretKey as SecretKeyBytes,
};
use vstd::prelude::*;

verus! {

/// Number of bytes in a Dilithium2 public key.
pub const PUBLIC_KEY_BYTES: usize = 1312;

/// Number of bytes in a Dilithium2 secret key.
pub const SECRET_KEY_BYTES: usize = 2560;

/// Largest number of bytes in a Dilithium2 signature.
pub const SIGNATURE_BYTES: usize = 2420;

/// Whether Dilithium2, as the `pqcrypto_dilithium` crate runs it, accepts
/// the detached signature on the message under the public key.
pub uninterp spec fn dilithium2_accepts(
    signature: Seq<u8>,
    message: Seq<u8>,
    public_key: Seq<u8>,
) -> bool;

/// The detached signature that Dilithium2, as the `pqcrypto_dilithium` crate
/// runs it, makes on the message with the secret key.
pub uninterp spec fn dilithium2_signature(message: Seq<u8>, secret_key: Seq<u8>) -> Seq<u8>;

/// The signature is one that the key could have made on the message: the
/// key and the signature have a length that Dilithium2 takes, and
/// Dilithium2 accepts them.
pub open spec fn signature_valid(
    message: Seq<u8>,
    signature: Seq<u8>,
    public_key: Seq<u8>,
) -> bool {
    &&& public_key.len() == PUBLIC_KEY_BYTES
    &&& signature.len() <= SIGNATURE_BYTES
    &&& dilithium2_accepts(signature, message, public_key)
}

/// `verify_detached_signature` of `pqcrypto_dilithium::dilithium2`, on a
/// key and a signature read with `from_bytes`: the result says whether the
/// crate accepts the signature. The lengths asked for are those that
/// `from_bytes` takes.
#[verifier::external_body]
fn dilithium2_verify(message: &[u8], signature: &[u8], public_key: &[u8]) -> (accepted: bool)
    requires
        public_key@.len() == PUBLIC_KEY_BYTES,
        signature@.len() <= SIGNATURE_BYTES,
    ensures
        accepted == dilithium2_accepts(signature@, message@, public_key@),
{
    match (PublicKey::from_bytes(public_key), DetachedSignature::from_bytes(signature)) {
        (Ok(pk), Ok(sig)) => verify_detached_signature(&sig, message, &pk).is_ok(),
        _ => false,
    }
}

/// `detached_sign` of `pqcrypto_dilithium::dilithium2`, with a secret key
/// read with `from_bytes`: the result is the signature that the crate makes,
/// which depends on the message and the key alone and is no longer than a
/// signature can be. The length asked for is the one that `from_bytes`
/// takes.
#[verifier::external_body]
fn dilithium2_sign(message: &[u8], secret_key: &[u8]) -> (signature: Vec<u8>)
    requires
        secret_key@.len() == SECRET_KEY_BYTES,
    ensures
        signature@ == dilithium2_signature(message@, secret_key@),
        signature@.len() <= SIGNATURE_BYTES,
{
    match SecretKey::from_bytes(secret_key) {
        Ok(sk) => detached_sign(message, &sk).as_bytes().to_vec(),
        Err(_) => Vec::new(),
    }
}

/// `keypair` of `pqcrypto_dilithium::dilithium2`: a fresh pair of keys,
/// the secret key first, each of the length that Dilithium2 fixes.
#[verifier::external_body]
fn dilithium2_keypair() -> (keys: (Vec<u8>, Vec<u8>))
    ensures
        keys.0@.len() == SECRET_KEY_BYTES,
        keys.1@.len() == PUBLIC_KEY_BYTES,
{
    let (pk, sk) = keypair();
    (sk.as_bytes().to_vec(), pk.as_bytes().to_vec())
}

/// Verifies a Dilithium2 signature. A key or a signature of a length that
/// Dilithium2 does not take is not valid.
pub fn verify_signature(message: &[u8], signature: &[u8], public_key_bytes: &[u8]) -> (valid: bool)
    ensures
        valid == signature_valid(message@, signature@, public_key_bytes@),
{
    if public_key_bytes.len() != PUBLIC_KEY_BYTES {
        return false;
    }
    if signature.len() > SIGNATURE_BYTES {
        return false;
    }
    dilithium2_verify(message, signature, public_key_bytes)
}

/// Signs a message with a Dilithium2 secret key.
pub fn sign_message(message: &[u8], private_key_bytes: &[u8]) -> (signature: Vec<u8>)
    requires
        private_key_bytes@.len() == SECRET_KEY_BYTES,
    ensures
        signature@ == dilithium2_signature(message@, private_key_bytes@),
        signature@.len() <= SIGNATURE_BYTES,
{
    dilithium2_sign(message, private_key_bytes)
}

/// Generates a Dilithium2 key pair: the secret key and the public key.
pub fn generate_keypair() -> (keys: (Vec<u8>, Vec<u8>))
    ensures
        keys.0@.len() == SECRET_KEY_BYTES,
        keys.1@.len() == PUBLIC_KEY_BYTES,
{
    dilithium2_keypair()
}

/// The secret key that signs a payload, if the two texts are base 64 and
/// the secret key has the length that Dilithium2 fixes.
pub open spec fn signing_key(pubkey_b64: Seq<char>, privkey_b64: Seq<char>) -> Option<Seq<u8>> {
    match (base64_decoded(pubkey_b64), base64_decoded(privkey_b64)) {
        (Some(_), Some(sk)) => if sk.len() == SECRET_KEY_BYTES {
            Some(sk)
        } else {
            None
        },
        _ => None,
    }
}

/// Signs a payload, given with the bytes that stand for it, and wraps it
/// with the signature and the signer's public key. The keys come as
/// base-64 text. Gives `None` where a key is not base 64 or the secret key
/// has the wrong length.
pub fn sign_payload<T>(
    payload: T,
    payload_bytes: &[u8],
    pubkey_b64: &str,
    privkey_b64: &str,
) -> (signed: Option<SignedMessage<T>>)
    ensures
        signed is Some <==> signing_key(pubkey_b64@, privkey_b64@) is Some,
        signed matches Some(message) ==> {
            &&& message.payload == payload
            &&& Some(message.public_key@) == base64_decoded(pubkey_b64@)
            &&& message.signature@ == dilithium2_signature(
                payload_bytes@,
                signing_key(pubkey_b64@, privkey_b64@).unwrap(),
            )
        },
{
    let pk = match import_key_base64(pubkey_b64) {
        Some(pk) => pk,
        None => {
            return None;
        },
    };
    let sk = match import_key_base64(privkey_b64) {
        Some(sk) => sk,
        None => {
            return None;
        },
    };
    if sk.len() != SECRET_KEY_BYTES {
        return None;
    }
    let signature = sign_message(payload_bytes, sk.as_slice());
    Some(SignedMessage { payload, signature, public_key: pk })
}

} // verus!
