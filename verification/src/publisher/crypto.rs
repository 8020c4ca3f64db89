//! Keys, fingerprints and challenge signatures.
//!
//! These constructions are shared with the relay, and a mismatch of even one length
//! prefix produces a signature that the relay rejects with no useful diagnosis.

use crate::ed25519;
use crate::ed25519::{
    ed25519_accepts, ed25519_public_key, ed25519_signature, ed25519_valid_key, is_degenerate,
};
use crate::encoding::{base64url, base64url_value, concatenated, is_digest_text, sha256_digest};
use vstd::prelude::*;
use vstd::utf8::*;

pub use crate::encoding::{
    b64_decode, b64_encode, parse_length_prefixed, sha256, LengthPrefixed,
};

verus! {

/// Domain separator for identity and device key fingerprints.
pub const IDENTITY_FINGERPRINT_CONTEXT: &'static str = "terminal-relay-identity-v1";

/// Domain separator for proof-of-possession signatures.
pub const CHALLENGE_SIGNATURE_CONTEXT: &'static str = "terminal-relay-challenge-v1";

pub const ALGORITHM_ED25519: &'static str = "ed25519";

/// What a fingerprint is the digest of.
pub open spec fn fingerprint_input(algorithm: Seq<char>, key: Seq<u8>) -> Seq<u8> {
    concatenated(
        seq![encode_utf8(IDENTITY_FINGERPRINT_CONTEXT@), encode_utf8(algorithm), key],
    )
}

/// The fingerprint of a public key under an algorithm.
pub open spec fn fingerprint_text(algorithm: Seq<char>, key: Seq<u8>) -> Seq<char> {
    base64url(sha256_digest(fingerprint_input(algorithm, key)))
}

/// The fingerprint of a key under the named algorithm: base64url of the digest of the
/// length-prefixed context, algorithm and key.
pub fn fingerprint_under(algorithm: &str, key: &[u8]) -> (text: String)
    ensures
        text@ == fingerprint_text(algorithm@, key@),
        is_digest_text(text@),
{
    let start = LengthPrefixed::new();
    let ghost none = Seq::<Seq<u8>>::empty();
    let ghost context = encode_utf8(IDENTITY_FINGERPRINT_CONTEXT@);
    let one = start.field_str(IDENTITY_FINGERPRINT_CONTEXT);
    assert(one@ == concatenated(none.push(context)));
    let two = one.field_str(algorithm);
    assert(two@ == concatenated(none.push(context).push(encode_utf8(algorithm@))));
    let three = two.field(key);
    assert(three@ == concatenated(none.push(context).push(encode_utf8(algorithm@)).push(key@)));
    assert(none.push(context).push(encode_utf8(algorithm@)).push(key@) =~= seq![
        context,
        encode_utf8(algorithm@),
        key@,
    ]);
    let input = three.finish();
    b64_encode(&sha256(input.as_slice()))
}

/// The fingerprint of an Ed25519 public key, which for an identity is also its ID.
pub fn fingerprint(public_key: &[u8]) -> (text: String)
    ensures
        text@ == fingerprint_text(ALGORITHM_ED25519@, public_key@),
        is_digest_text(text@),
{
    fingerprint_under(ALGORITHM_ED25519, public_key)
}

/// An Ed25519 public key held as its encoding.
pub struct VerifyingKey {
    bytes: [u8; 32],
}

impl View for VerifyingKey {
    type V = Seq<u8>;

    closed spec fn view(&self) -> Seq<u8> {
        self.bytes@
    }
}

impl VerifyingKey {
    pub fn to_bytes(&self) -> (bytes: [u8; 32])
        ensures
            bytes@ == self@,
    {
        self.bytes
    }

    /// Whether `signature` over `message` passes the strict check. A signature of any
    /// other length than 64 bytes does not.
    pub fn verify_strict(&self, message: &[u8], signature: &[u8]) -> (accepted: bool)
        ensures
            accepted == (signature@.len() == 64 && ed25519_accepts(
                self@,
                message@,
                signature@,
            )),
    {
        if signature.len() != 64 {
            return false;
        }
        ed25519::accepts(&self.bytes, message, &ed25519::array64(signature))
    }
}

/// The signature of a seed's holder over a message is accepted under the public key of
/// the seed, unless it is degenerate.
pub open spec fn is_good_signature(seed: Seq<u8>, message: Seq<u8>) -> bool {
    let signature = ed25519_signature(seed, message);
    &&& signature.len() == 64
    &&& !is_degenerate(signature) ==> ed25519_accepts(
        ed25519_public_key(seed),
        message,
        signature,
    )
}

/// An Ed25519 key pair held by this machine, as the seed that both keys come from.
#[derive(Clone)]
pub struct KeyPair {
    seed: [u8; 32],
}

impl View for KeyPair {
    type V = Seq<u8>;

    closed spec fn view(&self) -> Seq<u8> {
        self.seed@
    }
}

impl KeyPair {
    /// A fresh key pair. Which one is chance.
    pub fn generate() -> (pair: Self)
        ensures
            pair@.len() == 32,
    {
        Self { seed: ed25519::fresh_seed() }
    }

    /// The key pair of a stored seed; `None` unless it has exactly 32 bytes.
    pub fn from_seed(seed: &[u8]) -> (pair: Option<Self>)
        ensures
            pair is Some <==> seed@.len() == 32,
            pair is Some ==> pair->0@ == seed@,
    {
        if seed.len() != 32 {
            return None;
        }
        Some(Self { seed: ed25519::array32(seed) })
    }

    pub fn seed(&self) -> (seed: [u8; 32])
        ensures
            seed@ == self@,
    {
        self.seed
    }

    pub fn verifying_key(&self) -> (key: VerifyingKey)
        ensures
            key@ == ed25519_public_key(self@),
    {
        VerifyingKey { bytes: self.public_key_bytes() }
    }

    pub fn public_key_bytes(&self) -> (key: [u8; 32])
        ensures
            key@ == ed25519_public_key(self@),
            ed25519_valid_key(key@),
    {
        ed25519::public_key_of(&self.seed)
    }

    pub fn public_key_base64(&self) -> (text: String)
        ensures
            text@ == base64url(ed25519_public_key(self@)),
            base64url_value(text@) == Some(ed25519_public_key(self@)),
    {
        b64_encode(&self.public_key_bytes())
    }

    pub fn fingerprint(&self) -> (text: String)
        ensures
            text@ == fingerprint_text(ALGORITHM_ED25519@, ed25519_public_key(self@)),
            is_digest_text(text@),
    {
        fingerprint(&self.public_key_bytes())
    }

    /// The signature over a message, as base64url. It verifies under the matching public
    /// key.
    pub fn sign(&self, message: &[u8]) -> (text: String)
        ensures
            text@ == base64url(ed25519_signature(self@, message@)),
            base64url_value(text@) == Some(ed25519_signature(self@, message@)),
            is_good_signature(self@, message@),
    {
        b64_encode(&ed25519::signature_of(&self.seed, message))
    }
}

/// A fingerprint determines the algorithm and the key up to collisions of the digest:
/// what is hashed differs as soon as either does. Adding an algorithm can therefore not
/// change an existing fingerprint.
pub proof fn law_fingerprint_input_is_unambiguous(
    algorithm: Seq<char>,
    key: Seq<u8>,
    other_algorithm: Seq<char>,
    other_key: Seq<u8>,
)
    requires
        encode_utf8(algorithm).len() < 0x1_0000_0000,
        encode_utf8(other_algorithm).len() < 0x1_0000_0000,
        key.len() < 0x1_0000_0000,
        other_key.len() < 0x1_0000_0000,
        fingerprint_input(algorithm, key) == fingerprint_input(other_algorithm, other_key),
    ensures
        algorithm == other_algorithm,
        key == other_key,
{
    let context = encode_utf8(IDENTITY_FINGERPRINT_CONTEXT@);
    reveal_strlit("terminal-relay-identity-v1");
    is_ascii_chars_encode_utf8(IDENTITY_FINGERPRINT_CONTEXT@);
    let a = seq![context, encode_utf8(algorithm), key];
    let b = seq![context, encode_utf8(other_algorithm), other_key];
    crate::encoding::law_concatenation_is_unambiguous(a, b);
    assert(a[1] == b[1] && a[2] == b[2]);
    crate::text::lemma_same_bytes(algorithm, other_algorithm);
}

} // verus!
