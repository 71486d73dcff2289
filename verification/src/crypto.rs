//! SHA-256 digests and Ed25519 keys and signatures.

use ed25519_dalek::{Signature, SigningKey, VerifyingKey};
use sha2::{Digest, Sha256};
use vstd::prelude::*;

verus! {

/// The SHA-256 digest of a byte string.
pub uninterp spec fn sha256_digest(bytes: Seq<u8>) -> Seq<u8>;

/// Whether 32 bytes are an Ed25519 public key.
pub uninterp spec fn ed25519_key_valid(key: Seq<u8>) -> bool;

/// Whether `signature` is an Ed25519 signature of `message` under `key`.
pub uninterp spec fn ed25519_verifies(key: Seq<u8>, message: Seq<u8>, signature: Seq<u8>) -> bool;

/// The Ed25519 public key that belongs to a 32-byte seed.
pub uninterp spec fn ed25519_public_key(seed: Seq<u8>) -> Seq<u8>;

/// `sha2::Sha256::digest`: one fixed digest for each byte string.
#[verifier::external_body]
pub fn sha256(bytes: &[u8]) -> (digest: [u8; 32])
    ensures
        digest@ == sha256_digest(bytes@),
{
    Sha256::digest(bytes).into()
}

/// `ed25519_dalek::VerifyingKey::from_bytes`: whether the bytes are a key is
/// fixed by the bytes.
#[verifier::external_body]
pub fn key_is_valid(key: &[u8; 32]) -> (valid: bool)
    ensures
        valid == ed25519_key_valid(key@),
{
    VerifyingKey::from_bytes(key).is_ok()
}

/// `ed25519_dalek::VerifyingKey::verify_strict`: the verdict is fixed by the
/// key, the message and the signature, and negative where the key or the
/// signature has not its form.
#[verifier::external_body]
pub fn signature_holds(key: &[u8; 32], message: &[u8], signature: &[u8]) -> (holds: bool)
    ensures
        holds == ed25519_verifies(key@, message@, signature@),
        holds ==> ed25519_key_valid(key@),
        holds ==> signature@.len() == 64,
{
    match (VerifyingKey::from_bytes(key), Signature::from_slice(signature)) {
        (Ok(k), Ok(s)) => k.verify_strict(message, &s).is_ok(),
        _ => false,
    }
}

/// `ed25519_dalek::SigningKey::verifying_key`: one fixed public key for each
/// seed.
#[verifier::external_body]
pub fn public_key_of(seed: &[u8; 32]) -> (key: [u8; 32])
    ensures
        key@ == ed25519_public_key(seed@),
{
    SigningKey::from_bytes(seed).verifying_key().to_bytes()
}

} // verus!
