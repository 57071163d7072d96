//! Hashing and signature verification. The algorithms are those of the
//! `blake3`, `sha2` and `ed25519-dalek` crates; this module states only that
//! each result is a fixed function of the bytes handed in.

use vstd::prelude::*;
use crate::primitives::types;

verus! {

/// The BLAKE3 digest (32 bytes) of a byte sequence.
pub uninterp spec fn blake3_digest(data: Seq<u8>) -> Seq<u8>;

/// The SHA-256 digest (32 bytes) of a byte sequence.
pub uninterp spec fn sha256_digest(data: Seq<u8>) -> Seq<u8>;

/// Whether `signature` verifies as an Ed25519 signature of `message`
/// under the key that `public_key` decodes to.
pub uninterp spec fn ed25519_valid(
    message: Seq<u8>,
    signature: Seq<u8>,
    public_key: Seq<u8>,
) -> bool;

/// Whether 32 bytes decode to an Ed25519 public key, a point of the curve.
pub uninterp spec fn ed25519_key_decodes(public_key: Seq<u8>) -> bool;

/// BLAKE3 of `data`. Calls `blake3::hash`; trusted to return the digest of
/// exactly these bytes, the same on every call.
#[verifier::external_body]
pub fn hash_blake3(data: &[u8]) -> (h: types::Hash)
    ensures
        h@ == blake3_digest(data@),
{
    *blake3::hash(data).as_bytes()
}

/// SHA-256 of `data`. Calls `sha2::Sha256::digest`; trusted to return the
/// digest of exactly these bytes, the same on every call.
#[verifier::external_body]
pub fn hash_sha256(data: &[u8]) -> (h: types::Hash)
    ensures
        h@ == sha256_digest(data@),
{
    let digest = <sha2::Sha256 as sha2::Digest>::digest(data);
    let mut hash = [0u8; 32];
    hash.copy_from_slice(&digest);
    hash
}

/// Ed25519 verification that tells a key that does not decode, `None`,
/// from a signature that does not verify, `Some(false)`. Calls
/// `VerifyingKey::from_bytes`, `Signature::from_bytes` and
/// `Verifier::verify` of `ed25519-dalek`. Trusted to be a fixed function of
/// the three byte strings and not to panic.
#[verifier::external_body]
pub(crate) fn check_ed25519(message: &[u8], signature: &[u8; 64], public_key: &[u8; 32]) -> (r:
    Option<bool>)
    ensures
        r is Some <==> ed25519_key_decodes(public_key@),
        r matches Some(valid) ==> valid == ed25519_valid(message@, signature@, public_key@),
{
    let Ok(key) = ed25519_dalek::VerifyingKey::from_bytes(public_key) else {
        return None;
    };
    let sig = ed25519_dalek::Signature::from_bytes(signature);
    Some(ed25519_dalek::Verifier::verify(&key, message, &sig).is_ok())
}

/// A signature is accepted when the key decodes and the signature
/// verifies under it.
pub open spec fn signature_accepted(
    message: Seq<u8>,
    signature: Seq<u8>,
    public_key: Seq<u8>,
) -> bool {
    ed25519_key_decodes(public_key) && ed25519_valid(message, signature, public_key)
}

/// Verifies an Ed25519 signature. A key that does not decode and a
/// signature that does not verify both give `false`.
pub fn verify_ed25519(message: &[u8], signature: &[u8; 64], public_key: &[u8; 32]) -> (valid: bool)
    ensures
        valid == signature_accepted(message@, signature@, public_key@),
{
    match check_ed25519(message, signature, public_key) {
        Some(valid) => valid,
        None => false,
    }
}

/// An Ed25519 signing key of `ed25519-dalek`.
#[verifier::external_type_specification]
#[verifier::external_body]
pub struct ExSigningKey(ed25519_dalek::SigningKey);

/// An Ed25519 verifying key of `ed25519-dalek`.
#[verifier::external_type_specification]
#[verifier::external_body]
pub struct ExVerifyingKey(ed25519_dalek::VerifyingKey);

/// Signs `message`. Calls `Signer::sign` of `ed25519-dalek`; nothing is
/// claimed of the signature here.
#[verifier::external_body]
pub fn sign_ed25519(message: &[u8], secret_key: &ed25519_dalek::SigningKey) -> (sig: [u8; 64]) {
    ed25519_dalek::Signer::sign(secret_key, message).to_bytes()
}

/// The 32 public-key bytes that belong to a signing key. Calls
/// `SigningKey::verifying_key` and `VerifyingKey::to_bytes`.
#[verifier::external_body]
pub(crate) fn public_key_bytes(secret_key: &ed25519_dalek::SigningKey) -> (pk: [u8; 32]) {
    secret_key.verifying_key().to_bytes()
}

/// A fresh key pair from the operating system's randomness. Calls
/// `SigningKey::generate` with `rand::rngs::OsRng`. For tests and tooling;
/// the engine never calls it.
#[verifier::external_body]
pub fn generate_keypair() -> (pair: (ed25519_dalek::VerifyingKey, ed25519_dalek::SigningKey)) {
    let mut rng = rand::rngs::OsRng;
    let signing_key = ed25519_dalek::SigningKey::generate(&mut rng);
    let verifying_key = signing_key.verifying_key();
    (verifying_key, signing_key)
}

} // verus!
