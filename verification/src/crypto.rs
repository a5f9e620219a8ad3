//! Cryptographic primitives used by the library: SHA-256 (`sha2`),
//! Ed25519 keys and signatures (`ed25519-dalek`) and random key material
//! (`rand`). Their results are named, not restated.
use vstd::prelude::*;
use ed25519_dalek::Signer;
use ed25519_dalek::Verifier;
use rand::RngCore;
use sha2::Digest;

verus! {

/// The SHA-256 digest of a byte sequence.
pub uninterp spec fn sha256(data: Seq<u8>) -> Seq<u8>;

/// The Ed25519 verifying (public) key of a 32-byte secret key.
pub uninterp spec fn ed25519_public_key(secret: Seq<u8>) -> [u8; 32];

/// The Ed25519 signature of a message under a 32-byte secret key.
pub uninterp spec fn ed25519_signature(secret: Seq<u8>, message: Seq<u8>) -> [u8; 64];

/// Whether a 64-byte signature is accepted for a message under a 32-byte
/// verifying key (false where the key bytes are not a valid point).
pub uninterp spec fn ed25519_accepts(public: Seq<u8>, message: Seq<u8>, signature: Seq<u8>) -> bool;

/// `sha2::Sha256::digest`: the 32-byte SHA-256 digest of `data`.
#[verifier::external_body]
pub(crate) fn sha256_digest(data: &[u8]) -> (r: Vec<u8>)
    ensures
        r@ == sha256(data@),
        r@.len() == 32,
{

    sha2::Sha256::digest(data).to_vec()
}

/// `SigningKey::from_bytes(secret).verifying_key().to_bytes()`: the
/// verifying key that belongs to a secret key.
#[verifier::external_body]
pub(crate) fn public_key_of(secret: &[u8; 32]) -> (r: [u8; 32])
    ensures
        r == ed25519_public_key(secret@),
{
    ed25519_dalek::SigningKey::from_bytes(secret).verifying_key().to_bytes()
}

/// `SigningKey::from_bytes(secret).sign(message).to_bytes()`: the
/// deterministic Ed25519 signature; by the scheme's correctness it is
/// accepted under the verifying key of the same secret key.
#[verifier::external_body]
pub(crate) fn sign_message(secret: &[u8; 32], message: &[u8]) -> (r: [u8; 64])
    ensures
        r == ed25519_signature(secret@, message@),
        ed25519_accepts(ed25519_public_key(secret@)@, message@, r@),
{
    ed25519_dalek::SigningKey::from_bytes(secret).sign(message).to_bytes()
}

/// `VerifyingKey::from_bytes(public)` then `verify(message, signature)`:
/// whether the signature is accepted; a key that is not a valid curve
/// point accepts nothing.
#[verifier::external_body]
pub(crate) fn verify_message(public: &[u8; 32], message: &[u8], signature: &[u8; 64]) -> (r: bool)
    ensures
        r == ed25519_accepts(public@, message@, signature@),
{
    match ed25519_dalek::VerifyingKey::from_bytes(public) {
        Ok(key) => key.verify(message, &ed25519_dalek::Signature::from_bytes(signature)).is_ok(),
        Err(_) => false,
    }
}

/// `rand::thread_rng().fill_bytes`: 32 random bytes for a new secret key.
/// The bytes are random: no property of them is stated.
#[verifier::external_body]
pub(crate) fn random_secret_key() -> (r: [u8; 32]) {
    let mut bytes = [0u8; 32];
    rand::thread_rng().fill_bytes(&mut bytes);
    bytes
}

} // verus!
