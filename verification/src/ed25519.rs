//! Ed25519 keys and signatures as byte strings.

use ed25519_dalek::Signer;
use vstd::prelude::*;

verus! {

/// The public key that belongs to a 32-byte seed.
pub uninterp spec fn ed25519_public_key(seed: Seq<u8>) -> Seq<u8>;

/// The signature over `message` with the key that belongs to `seed`.
pub uninterp spec fn ed25519_signature(seed: Seq<u8>, message: Seq<u8>) -> Seq<u8>;

/// Whether 32 bytes are the encoding of a point that can serve as a public key.
pub uninterp spec fn ed25519_valid_key(key: Seq<u8>) -> bool;

/// Whether the strict check accepts `signature` over `message` under a valid `key`.
pub uninterp spec fn ed25519_accepts(key: Seq<u8>, message: Seq<u8>, signature: Seq<u8>) -> bool;

/// A fresh seed, by `ed25519_dalek::SigningKey::generate` with `rand::rng()`.
///
/// Which seed comes out is chance, so nothing is claimed of it.
#[verifier::external_body]
pub(crate) fn fresh_seed() -> (seed: [u8; 32]) {
    ed25519_dalek::SigningKey::generate(&mut rand::rng()).to_bytes()
}

/// A signature whose first half encodes the neutral point. The strict check refuses it,
/// whoever made it; signing produces one with a probability that can be neglected.
pub open spec fn is_degenerate(signature: Seq<u8>) -> bool {
    signature.take(32) == seq![1u8] + Seq::new(31, |i: int| 0u8)
}

/// `ed25519_dalek::SigningKey::from_bytes` and its `verifying_key`.
///
/// The public key is a function of the seed alone, and `VerifyingKey::from_bytes` accepts
/// it. That it depends on the seed in a way that hides it is not stated.
#[verifier::external_body]
pub(crate) fn public_key_of(seed: &[u8; 32]) -> (key: [u8; 32])
    ensures
        key@ == ed25519_public_key(seed@),
        ed25519_valid_key(key@),
{
    ed25519_dalek::SigningKey::from_bytes(seed).verifying_key().to_bytes()
}

/// `ed25519_dalek::Signer::sign` with the key that belongs to `seed`.
///
/// The signature is a function of the seed and the message alone, and unless it is
/// degenerate the strict check accepts it under the public key of the seed. That nobody
/// else can make one is not stated.
#[verifier::external_body]
pub(crate) fn signature_of(seed: &[u8; 32], message: &[u8]) -> (signature: [u8; 64])
    ensures
        signature@ == ed25519_signature(seed@, message@),
        !is_degenerate(signature@) ==> ed25519_accepts(
            ed25519_public_key(seed@),
            message@,
            signature@,
        ),
{
    ed25519_dalek::SigningKey::from_bytes(seed).sign(message).to_bytes()
}

/// Whether `ed25519_dalek::VerifyingKey::from_bytes` accepts the bytes.
///
/// The outcome is a function of the bytes alone.
#[verifier::external_body]
pub(crate) fn is_valid_key(key: &[u8; 32]) -> (valid: bool)
    ensures
        valid == ed25519_valid_key(key@),
{
    ed25519_dalek::VerifyingKey::from_bytes(key).is_ok()
}

/// `ed25519_dalek::VerifyingKey::verify_strict`, which also rejects small-order keys
/// and signatures that are not canonically encoded.
///
/// The outcome is a function of the key, the message and the signature alone; bytes
/// that are not a valid key accept nothing.
#[verifier::external_body]
pub(crate) fn accepts(key: &[u8; 32], message: &[u8], signature: &[u8; 64]) -> (accepted: bool)
    ensures
        accepted == ed25519_accepts(key@, message@, signature@),
        accepted ==> ed25519_valid_key(key@),
{
    let signature = ed25519_dalek::Signature::from_bytes(signature);
    match ed25519_dalek::VerifyingKey::from_bytes(key) {
        Ok(key) => key.verify_strict(message, &signature).is_ok(),
        Err(_) => false,
    }
}

/// The first 32 bytes as an array.
pub fn array32(bytes: &[u8]) -> (array: [u8; 32])
    requires
        bytes@.len() == 32,
    ensures
        array@ == bytes@,
{
    let mut array: [u8; 32] = [0u8; 32];
    let mut index: usize = 0;
    while index < 32
        invariant
            index <= 32 == bytes@.len(),
            forall|i: int| 0 <= i < index ==> array@[i] == bytes@[i],
        decreases 32 - index,
    {
        array[index] = bytes[index];
        index = index + 1;
    }
    assert(array@ =~= bytes@);
    array
}

/// The first 64 bytes as an array.
pub fn array64(bytes: &[u8]) -> (array: [u8; 64])
    requires
        bytes@.len() == 64,
    ensures
        array@ == bytes@,
{
    let mut array: [u8; 64] = [0u8; 64];
    let mut index: usize = 0;
    while index < 64
        invariant
            index <= 64 == bytes@.len(),
            forall|i: int| 0 <= i < index ==> array@[i] == bytes@[i],
        decreases 64 - index,
    {
        array[index] = bytes[index];
        index = index + 1;
    }
    assert(array@ =~= bytes@);
    array
}

} // verus!
