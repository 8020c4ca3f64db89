//! Key handling, proof-of-possession signing inputs, secret encryption and tokens.

use crate::ed25519;
use crate::ed25519::{ed25519_accepts, ed25519_valid_key};
use crate::encoding;
use crate::encoding::{
    b64_decode, b64_encode, base64url, base64url_value, be64, concatenated, decoded,
    is_base64url_char, is_digest_text, sha256, sha256_digest, LengthPrefixed,
};
use crate::publisher::crypto::{fingerprint_text, fingerprint_under};
use crate::relay::error::{code, outcome, ApiError, ApiResult, Refusal};
use crate::json;
use crate::json::{array_text, json_string, object_text};
use crate::text;
use crate::text::{
    begins_with, decimal, lowered, option_view, signed_decimal, split_on, texts, trimmed,
};
use chacha20poly1305::aead::Aead;
use hmac::{KeyInit, Mac};
use rand::Rng;
use vstd::prelude::*;
use vstd::utf8::*;

pub use crate::publisher::crypto::{
    ALGORITHM_ED25519, CHALLENGE_SIGNATURE_CONTEXT, IDENTITY_FINGERPRINT_CONTEXT,
};

pub mod scope;

verus! {

/// `rand::rng()` and `Rng::fill_bytes`: as many random bytes as asked for.
///
/// Which bytes come out is chance, so only their number is claimed.
#[verifier::external_body]
pub(crate) fn random_bytes(count: usize) -> (bytes: Vec<u8>)
    ensures
        bytes@.len() == count,
{
    let mut bytes = vec![0u8; count];
    rand::rng().fill_bytes(&mut bytes);
    bytes
}

/// What a device is permitted to do.
#[derive(Debug, Clone, Copy, PartialEq, Eq, Structural)]
pub enum DeviceRole {
    /// Publishes terminal output. The default.
    Publisher,
    /// Mirrors and writes to its owner's terminals; cannot publish.
    Client,
    /// Both of the above.
    Both,
}

impl Default for DeviceRole {
    fn default() -> (role: Self)
        ensures
            role == DeviceRole::Publisher,
    {
        DeviceRole::Publisher
    }
}

impl DeviceRole {
    /// The word that stands for the role in requests and in the database.
    pub open spec fn word(self) -> Seq<char> {
        match self {
            DeviceRole::Publisher => "publisher"@,
            DeviceRole::Client => "client"@,
            DeviceRole::Both => "both"@,
        }
    }

    pub fn as_str(&self) -> (word: &'static str)
        ensures
            word@ == self.word(),
    {
        match self {
            DeviceRole::Publisher => "publisher",
            DeviceRole::Client => "client",
            DeviceRole::Both => "both",
        }
    }

    pub fn parse(s: &str) -> (role: Option<Self>)
        ensures
            role is Some ==> s@ == role->0.word(),
            role is None ==> forall|other: DeviceRole| s@ != #[trigger] other.word(),
    {
        if text::same(s, "publisher") {
            Some(DeviceRole::Publisher)
        } else if text::same(s, "client") {
            Some(DeviceRole::Client)
        } else if text::same(s, "both") {
            Some(DeviceRole::Both)
        } else {
            None
        }
    }

    pub fn may_publish(&self) -> (may: bool)
        ensures
            may == (*self == DeviceRole::Publisher || *self == DeviceRole::Both),
    {
        matches!(self, DeviceRole::Publisher | DeviceRole::Both)
    }

    pub fn may_mirror(&self) -> (may: bool)
        ensures
            may == (*self == DeviceRole::Client || *self == DeviceRole::Both),
    {
        matches!(self, DeviceRole::Client | DeviceRole::Both)
    }
}

/// Different roles have different words, so a stored role reads back as itself.
pub proof fn law_role_words_differ(a: DeviceRole, b: DeviceRole)
    requires
        a.word() == b.word(),
    ensures
        a == b,
{
    reveal_strlit("publisher");
    reveal_strlit("client");
    reveal_strlit("both");
    assert("publisher"@.len() == 9 && "client"@.len() == 6 && "both"@.len() == 4);
}

/// A canonicalised, validated public key.
#[derive(Debug, Clone, PartialEq, Eq)]
pub struct PublicKey {
    pub algorithm: String,
    /// Canonical key bytes. For Ed25519 this is the 32-byte compressed point, accepted
    /// only when it passes key validation.
    pub bytes: Vec<u8>,
}

/// A public key over sequences.
pub struct KeyModel {
    pub algorithm: Seq<char>,
    pub bytes: Seq<u8>,
}

impl View for PublicKey {
    type V = KeyModel;

    open spec fn view(&self) -> KeyModel {
        KeyModel { algorithm: self.algorithm@, bytes: self.bytes@ }
    }
}

/// The refusal of a key algorithm.
pub open spec fn unsupported_algorithm(algorithm: Seq<char>) -> Refusal {
    Refusal::new(
        422,
        code::UNSUPPORTED_ALGORITHM@,
        "unsupported key algorithm: "@ + algorithm,
    )
}

/// The name is in the list, whatever the case of its ASCII letters.
pub open spec fn is_supported(algorithm: Seq<char>, supported: Seq<Seq<char>>) -> bool {
    exists|i: int|
        0 <= i < supported.len() && lowered(#[trigger] supported[i]) == lowered(algorithm)
}

/// What becomes of a key that was offered under `algorithm` (already trimmed and lower
/// case), given what its text decodes to and whether those bytes are a valid Ed25519
/// point.
pub open spec fn admitted_key(
    algorithm: Seq<char>,
    supported: Seq<Seq<char>>,
    bytes: Option<Seq<u8>>,
    valid_point: bool,
) -> Result<KeyModel, Refusal> {
    if !is_supported(algorithm, supported) {
        Err(unsupported_algorithm(algorithm))
    } else {
        match bytes {
            None => Err(Refusal::invalid("public_key must be base64url-encoded"@)),
            Some(bytes) => if algorithm != ALGORITHM_ED25519@ {
                Err(unsupported_algorithm(algorithm))
            } else if bytes.len() != 32 {
                Err(
                    Refusal::validation(
                        "ed25519 public keys must be 32 bytes, got "@ + decimal(bytes.len()),
                    ),
                )
            } else if !valid_point {
                Err(Refusal::validation("not a valid ed25519 public key"@))
            } else {
                Ok(KeyModel { algorithm, bytes })
            },
        }
    }
}

impl PublicKey {
    /// Parse and canonicalise a key, rejecting anything that is not a valid point for
    /// its algorithm. Validation comes before fingerprinting, so no unusable key can
    /// ever occupy an identity ID.
    pub fn parse(algorithm: &str, encoded: &str, supported: &[String]) -> (result: ApiResult<Self>)
        ensures
            outcome(result) == admitted_key(
                lowered(trimmed(algorithm@)),
                texts(supported@),
                decoded(encoded@),
                decoded(encoded@) is Some && ed25519_valid_key(decoded(encoded@)->0),
            ),
    {
        let bytes = b64_decode(encoded);
        let valid_point: bool = match &bytes {
            Some(bytes) => if bytes.len() == 32 {
                ed25519::is_valid_key(&ed25519::array32(bytes.as_slice()))
            } else {
                false
            },
            None => false,
        };
        Self::from_decoded(algorithm, supported, bytes, valid_point)
    }

    /// Decide on a key whose text has been decoded and whose point has been checked.
    pub fn from_decoded(
        algorithm: &str,
        supported: &[String],
        bytes: Option<Vec<u8>>,
        valid_point: bool,
    ) -> (result: ApiResult<Self>)
        ensures
            outcome(result) == admitted_key(
                lowered(trimmed(algorithm@)),
                texts(supported@),
                option_view(bytes),
                valid_point,
            ),
    {
        let algorithm = text::to_lower(text::trim(algorithm).as_str());
        if !supports(algorithm.as_str(), supported) {
            let message = "unsupported key algorithm: ".to_owned().concat(algorithm.as_str());
            return Err(ApiError::new(422, code::UNSUPPORTED_ALGORITHM, message.as_str()));
        }
        match bytes {
            None => Err(ApiError::invalid("public_key must be base64url-encoded")),
            Some(bytes) => {
                if !text::same(algorithm.as_str(), ALGORITHM_ED25519) {
                    let message = "unsupported key algorithm: ".to_owned().concat(
                        algorithm.as_str(),
                    );
                    return Err(ApiError::new(422, code::UNSUPPORTED_ALGORITHM, message.as_str()));
                }
                if bytes.len() != 32 {
                    let count = text::decimal_of(bytes.len() as u64);
                    let message = "ed25519 public keys must be 32 bytes, got ".to_owned().concat(
                        count.as_str(),
                    );
                    return Err(ApiError::validation(message.as_str()));
                }
                if !valid_point {
                    return Err(ApiError::validation("not a valid ed25519 public key"));
                }
                Ok(Self { algorithm, bytes })
            },
        }
    }

    /// Reconstruct from stored bytes that were validated when they were stored.
    pub fn from_stored(algorithm: &str, bytes: Vec<u8>) -> (key: Self)
        ensures
            key@ == (KeyModel { algorithm: algorithm@, bytes: bytes@ }),
    {
        Self { algorithm: algorithm.to_owned(), bytes }
    }

    /// Stable fingerprint, and for identities the canonical identity ID.
    pub fn fingerprint(&self) -> (text: String)
        ensures
            text@ == fingerprint_text(self.algorithm@, self.bytes@),
            is_digest_text(text@),
    {
        fingerprint_under(self.algorithm.as_str(), self.bytes.as_slice())
    }

    pub fn encoded(&self) -> (text: String)
        ensures
            text@ == base64url(self.bytes@),
            base64url_value(text@) == Some(self.bytes@),
    {
        b64_encode(self.bytes.as_slice())
    }

    /// Verify a detached signature over `message`.
    pub fn verify(&self, message: &[u8], signature: &[u8]) -> (accepted: bool)
        ensures
            accepted == {
                &&& self.algorithm@ == ALGORITHM_ED25519@
                &&& self.bytes@.len() == 32
                &&& signature@.len() == 64
                &&& ed25519_accepts(self.bytes@, message@, signature@)
            },
    {
        if !text::same(self.algorithm.as_str(), ALGORITHM_ED25519) {
            return false;
        }
        if self.bytes.len() != 32 || signature.len() != 64 {
            return false;
        }
        ed25519::accepts(
            &ed25519::array32(self.bytes.as_slice()),
            message,
            &ed25519::array64(signature),
        )
    }
}

/// Whether the list names the algorithm, whatever the case of its ASCII letters.
fn supports(algorithm: &str, supported: &[String]) -> (found: bool)
    ensures
        found == is_supported(algorithm@, texts(supported@)),
{
    let wanted = text::to_lower(algorithm);
    let mut index: usize = 0;
    while index < supported.len()
        invariant
            index <= supported@.len(),
            wanted@ == lowered(algorithm@),
            forall|i: int|
                0 <= i < index ==> lowered(#[trigger] texts(supported@)[i]) != lowered(algorithm@),
        decreases supported@.len() - index,
    {
        let name = text::to_lower(supported[index].as_str());
        if text::same(name.as_str(), wanted.as_str()) {
            assert(lowered(texts(supported@)[index as int]) == lowered(algorithm@));
            return true;
        }
        index = index + 1;
    }
    false
}

/// Operations a challenge may authorise. A challenge is bound to exactly one.
#[derive(Debug, Clone, Copy, PartialEq, Eq, Structural)]
pub enum Operation {
    RegisterIdentity,
    AuthenticateIdentity,
    RegisterDevice,
    AuthenticateDevice,
}

impl Operation {
    /// The word that stands for the operation in requests and in signatures.
    pub open spec fn word(self) -> Seq<char> {
        match self {
            Operation::RegisterIdentity => "register_identity"@,
            Operation::AuthenticateIdentity => "authenticate_identity"@,
            Operation::RegisterDevice => "register_device"@,
            Operation::AuthenticateDevice => "authenticate_device"@,
        }
    }

    pub fn as_str(&self) -> (word: &'static str)
        ensures
            word@ == self.word(),
    {
        match self {
            Operation::RegisterIdentity => "register_identity",
            Operation::AuthenticateIdentity => "authenticate_identity",
            Operation::RegisterDevice => "register_device",
            Operation::AuthenticateDevice => "authenticate_device",
        }
    }

    pub fn parse(s: &str) -> (operation: Option<Self>)
        ensures
            operation is Some ==> s@ == operation->0.word(),
            operation is None ==> forall|other: Operation| s@ != #[trigger] other.word(),
    {
        if text::same(s, "register_identity") {
            Some(Operation::RegisterIdentity)
        } else if text::same(s, "authenticate_identity") {
            Some(Operation::AuthenticateIdentity)
        } else if text::same(s, "register_device") {
            Some(Operation::RegisterDevice)
        } else if text::same(s, "authenticate_device") {
            Some(Operation::AuthenticateDevice)
        } else {
            None
        }
    }
}

/// Different operations have different words, so a stored operation reads back as
/// itself.
pub proof fn law_operation_words_differ(a: Operation, b: Operation)
    requires
        a.word() == b.word(),
    ensures
        a == b,
{
    reveal_strlit("register_identity");
    reveal_strlit("authenticate_identity");
    reveal_strlit("register_device");
    reveal_strlit("authenticate_device");
    assert("register_identity"@.len() == 17 && "authenticate_identity"@.len() == 21);
    assert("register_device"@.len() == 15 && "authenticate_device"@.len() == 19);
}

/// Everything bound into a challenge signature.
pub struct SigningInput<'a> {
    pub origin: &'a str,
    pub challenge_id: &'a str,
    pub challenge: &'a [u8],
    pub operation: Operation,
    pub key_fingerprint: &'a str,
    /// Owner identity for a device-registration challenge; empty otherwise.
    pub owner_identity_id: &'a str,
    /// Proposed device key fingerprint for a device-registration challenge; empty
    /// otherwise.
    pub device_key_fingerprint: &'a str,
    pub expires_at_unix_ms: u64,
}

/// Everything bound into a challenge signature, over sequences.
pub struct Binding {
    pub origin: Seq<char>,
    pub challenge_id: Seq<char>,
    pub challenge: Seq<u8>,
    pub operation: Operation,
    pub key_fingerprint: Seq<char>,
    pub owner_identity_id: Seq<char>,
    pub device_key_fingerprint: Seq<char>,
    pub expires_at_unix_ms: u64,
}

impl<'a> View for SigningInput<'a> {
    type V = Binding;

    open spec fn view(&self) -> Binding {
        Binding {
            origin: self.origin@,
            challenge_id: self.challenge_id@,
            challenge: self.challenge@,
            operation: self.operation,
            key_fingerprint: self.key_fingerprint@,
            owner_identity_id: self.owner_identity_id@,
            device_key_fingerprint: self.device_key_fingerprint@,
            expires_at_unix_ms: self.expires_at_unix_ms,
        }
    }
}

impl Binding {
    /// The nine fields that are signed, in order. Every field is always present, empty
    /// when it does not apply, so the encoding has a fixed shape.
    pub open spec fn fields(self) -> Seq<Seq<u8>> {
        seq![
            encode_utf8(CHALLENGE_SIGNATURE_CONTEXT@),
            encode_utf8(self.origin),
            encode_utf8(self.challenge_id),
            self.challenge,
            encode_utf8(self.operation.word()),
            encode_utf8(self.key_fingerprint),
            encode_utf8(self.owner_identity_id),
            encode_utf8(self.device_key_fingerprint),
            be64(self.expires_at_unix_ms as nat),
        ]
    }

    /// The bytes that are signed.
    pub open spec fn signed_bytes(self) -> Seq<u8> {
        concatenated(self.fields())
    }
}

impl<'a> SigningInput<'a> {
    /// The length-prefixed binary encoding that is signed.
    pub fn encode(&self) -> (bytes: Vec<u8>)
        ensures
            bytes@ == self@.signed_bytes(),
    {
        let ghost f = self@.fields();
        let built = LengthPrefixed::new();
        assert(f.take(0) =~= Seq::<Seq<u8>>::empty());
        let built = built.field_str(CHALLENGE_SIGNATURE_CONTEXT);
        assert(f.take(1) =~= f.take(0).push(f[0]));
        let built = built.field_str(self.origin);
        assert(f.take(2) =~= f.take(1).push(f[1]));
        let built = built.field_str(self.challenge_id);
        assert(f.take(3) =~= f.take(2).push(f[2]));
        let built = built.field(self.challenge);
        assert(f.take(4) =~= f.take(3).push(f[3]));
        let built = built.field_str(self.operation.as_str());
        assert(f.take(5) =~= f.take(4).push(f[4]));
        let built = built.field_str(self.key_fingerprint);
        assert(f.take(6) =~= f.take(5).push(f[5]));
        let built = built.field_str(self.owner_identity_id);
        assert(f.take(7) =~= f.take(6).push(f[6]));
        let built = built.field_str(self.device_key_fingerprint);
        assert(f.take(8) =~= f.take(7).push(f[7]));
        let built = built.field_u64(self.expires_at_unix_ms);
        assert(f.take(9) =~= f.take(8).push(f[8]));
        assert(f.take(9) =~= f);
        built.finish()
    }
}

/// A signature is bound to exactly one challenge: two sets of signed values with the
/// same signed bytes are the same in every field.
pub proof fn law_signing_input_is_unambiguous(a: Binding, b: Binding)
    requires
        encoding::lengths_fit(a.fields()),
        encoding::lengths_fit(b.fields()),
        a.signed_bytes() == b.signed_bytes(),
    ensures
        a == b,
{
    encoding::law_concatenation_is_unambiguous(a.fields(), b.fields());
    let f = a.fields();
    let g = b.fields();
    assert(f[1] == g[1] && f[2] == g[2] && f[3] == g[3] && f[4] == g[4] && f[5] == g[5] && f[6]
        == g[6] && f[7] == g[7] && f[8] == g[8]);
    text::lemma_same_bytes(a.origin, b.origin);
    text::lemma_same_bytes(a.challenge_id, b.challenge_id);
    text::lemma_same_bytes(a.operation.word(), b.operation.word());
    text::lemma_same_bytes(a.key_fingerprint, b.key_fingerprint);
    text::lemma_same_bytes(a.owner_identity_id, b.owner_identity_id);
    text::lemma_same_bytes(a.device_key_fingerprint, b.device_key_fingerprint);
    law_operation_words_differ(a.operation, b.operation);
    encoding::lemma_be64(a.expires_at_unix_ms as nat, Seq::empty());
    encoding::lemma_be64(b.expires_at_unix_ms as nat, Seq::empty());
}

/// What ChaCha20-Poly1305 makes of a plaintext under a key and a nonce.
pub uninterp spec fn chacha20poly1305_sealed(
    key: Seq<u8>,
    nonce: Seq<u8>,
    plaintext: Seq<u8>,
) -> Seq<u8>;

/// The plaintext of an authentic ChaCha20-Poly1305 message, if it is one.
pub uninterp spec fn chacha20poly1305_opened(
    key: Seq<u8>,
    nonce: Seq<u8>,
    ciphertext: Seq<u8>,
) -> Option<Seq<u8>>;

/// One byte more than the longest plaintext that one nonce can seal.
pub const PLAINTEXT_BOUND: u64 = 274877906880;

/// `Aead::encrypt` of `chacha20poly1305::ChaCha20Poly1305`.
///
/// The message is a function of the key, the nonce and the plaintext, and the same key
/// and nonce open it again. Nothing is said of what it hides. The cipher refuses a
/// plaintext of [`PLAINTEXT_BOUND`] bytes or more.
#[verifier::external_body]
fn encrypt(key: &[u8; 32], nonce: &[u8; 12], plaintext: &[u8]) -> (ciphertext: Vec<u8>)
    requires
        plaintext@.len() < PLAINTEXT_BOUND,
    ensures
        ciphertext@ == chacha20poly1305_sealed(key@, nonce@, plaintext@),
        chacha20poly1305_opened(key@, nonce@, ciphertext@) == Some(plaintext@),
{
    let cipher = chacha20poly1305::ChaCha20Poly1305::new(key.into());
    cipher.encrypt(nonce.into(), plaintext).expect("the plaintext is short enough")
}

/// `Aead::decrypt` of `chacha20poly1305::ChaCha20Poly1305`.
///
/// The outcome is a function of the key, the nonce and the message; any error is
/// `None`. That a forged message is refused is not stated.
#[verifier::external_body]
fn decrypt(key: &[u8; 32], nonce: &[u8; 12], ciphertext: &[u8]) -> (plaintext: Option<Vec<u8>>)
    ensures
        option_view(plaintext) == chacha20poly1305_opened(key@, nonce@, ciphertext@),
{
    let cipher = chacha20poly1305::ChaCha20Poly1305::new(key.into());
    cipher.decrypt(nonce.into(), ciphertext).ok()
}

/// The first 12 bytes as an array.
fn array12(bytes: &[u8]) -> (array: [u8; 12])
    requires
        bytes@.len() == 12,
    ensures
        array@ == bytes@,
{
    let mut array: [u8; 12] = [0u8; 12];
    let mut index: usize = 0;
    while index < 12
        invariant
            index <= 12 == bytes@.len(),
            forall|i: int| 0 <= i < index ==> array@[i] == bytes@[i],
        decreases 12 - index,
    {
        array[index] = bytes[index];
        index = index + 1;
    }
    assert(array@ =~= bytes@);
    array
}

/// What opening a message with a nonce of any length comes to.
pub open spec fn opened(key: Seq<u8>, nonce: Seq<u8>, ciphertext: Seq<u8>) -> Option<Seq<u8>> {
    if nonce.len() == 12 {
        chacha20poly1305_opened(key, nonce, ciphertext)
    } else {
        None
    }
}

/// The mark in front of a sealed setting.
pub const SEALED_MARK: &'static str = "enc:v1:";

/// The text behind a sealed setting, if it is one.
pub open spec fn opened_text(key: Seq<u8>, sealed: Seq<char>) -> Option<Seq<char>> {
    if !begins_with(sealed, SEALED_MARK@) {
        None
    } else {
        match decoded(sealed.skip(SEALED_MARK@.len() as int)) {
            None => None,
            Some(joined) => if joined.len() < 12 {
                None
            } else {
                match opened(key, joined.take(12), joined.skip(12)) {
                    None => None,
                    Some(plain) => if valid_utf8(plain) {
                        Some(decode_utf8(plain))
                    } else {
                        None
                    },
                }
            },
        }
    }
}

/// Authenticated encryption of stored secrets under key material that is not stored
/// beside them.
pub struct SecretBox {
    key: [u8; 32],
}

impl View for SecretBox {
    type V = Seq<u8>;

    closed spec fn view(&self) -> Seq<u8> {
        self.key@
    }
}

impl SecretBox {
    pub fn new(key: [u8; 32]) -> (secrets: Self)
        ensures
            secrets@ == key@,
    {
        Self { key }
    }

    /// Seal under a fresh nonce. Opening with that nonce gives the plaintext back.
    pub fn seal(&self, plaintext: &[u8]) -> (sealed: (Vec<u8>, Vec<u8>))
        requires
            plaintext@.len() < PLAINTEXT_BOUND,
        ensures
            sealed.0@.len() == 12,
            sealed.1@ == chacha20poly1305_sealed(self@, sealed.0@, plaintext@),
            opened(self@, sealed.0@, sealed.1@) == Some(plaintext@),
    {
        let nonce = random_bytes(12);
        let ciphertext = encrypt(&self.key, &array12(nonce.as_slice()), plaintext);
        (nonce, ciphertext)
    }

    pub fn open(&self, nonce: &[u8], ciphertext: &[u8]) -> (plaintext: Option<Vec<u8>>)
        ensures
            option_view(plaintext) == opened(self@, nonce@, ciphertext@),
    {
        if nonce.len() != 12 {
            return None;
        }
        decrypt(&self.key, &array12(nonce), ciphertext)
    }

    /// Compact single-string form used for inline secret settings. Whatever nonce was
    /// drawn, the same key reads the text back.
    pub fn seal_to_string(&self, plaintext: &str) -> (sealed: String)
        requires
            encode_utf8(plaintext@).len() < PLAINTEXT_BOUND,
        ensures
            exists|nonce: Seq<u8>|
                nonce.len() == 12 && sealed@ == SEALED_MARK@ + #[trigger] base64url(
                    nonce + chacha20poly1305_sealed(self@, nonce, encode_utf8(plaintext@)),
                ),
            opened_text(self@, sealed@) == Some(plaintext@),
    {
        let (nonce, ciphertext) = self.seal(plaintext.as_bytes());
        let ghost drawn = nonce@;
        let mut joined = nonce;
        encoding::put_bytes(&mut joined, ciphertext.as_slice());
        let body = b64_encode(joined.as_slice());
        let sealed = SEALED_MARK.to_owned().concat(body.as_str());
        proof {
            assert(joined@ == drawn + ciphertext@);
            assert(sealed@.take(SEALED_MARK@.len() as int) =~= SEALED_MARK@);
            assert(sealed@.skip(SEALED_MARK@.len() as int) =~= body@);
            assert(joined@.take(12) =~= drawn);
            assert(joined@.skip(12) =~= ciphertext@);
            encode_utf8_valid_utf8(plaintext@);
            encode_utf8_decode_utf8(plaintext@);
        }
        sealed
    }

    pub fn open_from_string(&self, s: &str) -> (plaintext: Option<String>)
        ensures
            plaintext is Some <==> opened_text(self@, s@) is Some,
            plaintext is Some ==> opened_text(self@, s@) == Some(plaintext->0@),
    {
        let rest = match text::strip_prefix(s, SEALED_MARK) {
            Some(rest) => rest,
            None => return None,
        };
        let joined = match b64_decode(rest.as_str()) {
            Some(joined) => joined,
            None => return None,
        };
        if joined.len() < 12 {
            return None;
        }
        let nonce = encoding::copy_of(joined.as_slice(), 0, 12);
        let ciphertext = encoding::copy_of(joined.as_slice(), 12, joined.len());
        assert(nonce@ =~= joined@.take(12));
        assert(ciphertext@ =~= joined@.skip(12));
        match self.open(nonce.as_slice(), ciphertext.as_slice()) {
            Some(plain) => text::utf8_text(plain),
            None => None,
        }
    }
}

/// The version mark in front of every access token.
pub const TOKEN_PREFIX: &'static str = "v1";

/// Whom a token speaks for.
#[derive(Debug, Clone, Copy, PartialEq, Eq, Structural)]
pub enum PrincipalKind {
    Identity,
    Device,
}

impl PrincipalKind {
    /// The word that stands for the kind in tokens and in the database.
    pub open spec fn word(self) -> Seq<char> {
        match self {
            PrincipalKind::Identity => "identity"@,
            PrincipalKind::Device => "device"@,
        }
    }

    pub fn as_str(&self) -> (word: &'static str)
        ensures
            word@ == self.word(),
    {
        match self {
            PrincipalKind::Identity => "identity",
            PrincipalKind::Device => "device",
        }
    }
}

/// Access token claims. Carried inside the token rather than referenced, so ordinary
/// authentication needs no database read; revocation is checked separately.
#[derive(Debug, Clone)]
pub struct TokenClaims {
    /// Unique token ID.
    pub jti: String,
    /// Authenticated identity or device ID.
    pub sub: String,
    pub principal: PrincipalKind,
    /// Owning identity. Equal to `sub` for identity tokens.
    pub identity_id: String,
    pub iss: String,
    pub aud: String,
    pub iat: i64,
    pub exp: i64,
    pub scopes: Vec<String>,
    /// Signing key ID, so a rotated key can still verify during its overlap window.
    pub kid: String,
}

/// Access token claims over sequences.
pub struct Claims {
    pub jti: Seq<char>,
    pub sub: Seq<char>,
    pub principal: PrincipalKind,
    pub identity_id: Seq<char>,
    pub iss: Seq<char>,
    pub aud: Seq<char>,
    pub iat: i64,
    pub exp: i64,
    pub scopes: Seq<Seq<char>>,
    pub kid: Seq<char>,
}

impl View for TokenClaims {
    type V = Claims;

    open spec fn view(&self) -> Claims {
        Claims {
            jti: self.jti@,
            sub: self.sub@,
            principal: self.principal,
            identity_id: self.identity_id@,
            iss: self.iss@,
            aud: self.aud@,
            iat: self.iat,
            exp: self.exp,
            scopes: texts(self.scopes@),
            kid: self.kid@,
        }
    }
}

impl TokenClaims {
    pub fn has_scope(&self, scope: &str) -> (has: bool)
        ensures
            has == self@.scopes.contains(scope@),
    {
        text::holds(self.scopes.as_slice(), scope)
    }
}

/// One token signing key. Verification accepts any supplied key, so a key can be
/// rotated with an overlap; minting always uses the active one.
#[derive(Debug, Clone)]
pub struct SigningKey {
    pub kid: String,
    pub secret: Vec<u8>,
}

/// HMAC-SHA-256 of a message under a secret.
pub uninterp spec fn hmac_sha256(secret: Seq<u8>, message: Seq<u8>) -> Seq<u8>;

/// HMAC-SHA-256, by `hmac::Hmac<sha2::Sha256>` through `KeyInit::new_from_slice`, which
/// accepts keys of any length, and `Mac::finalize`.
///
/// The tag is a function of the secret and the message, and 32 bytes long. That it
/// cannot be forged is not stated.
#[verifier::external_body]
fn mac(secret: &[u8], message: &[u8]) -> (tag: Vec<u8>)
    ensures
        tag@ == hmac_sha256(secret@, message@),
        tag@.len() == 32,
{
    let mut m = <hmac::Hmac<sha2::Sha256> as KeyInit>::new_from_slice(secret)
        .expect("hmac accepts keys of any length");
    m.update(message);
    m.finalize().into_bytes().to_vec()
}

/// Whether two byte strings are equal, in a time that depends on their lengths alone.
pub fn ct_eq(a: &[u8], b: &[u8]) -> (same: bool)
    ensures
        same == (a@ == b@),
{
    if a.len() != b.len() {
        return false;
    }
    let mut difference: u8 = 0;
    let mut index: usize = 0;
    assert(a@.subrange(0, 0) =~= b@.subrange(0, 0));
    while index < a.len()
        invariant
            index <= a@.len() == b@.len(),
            difference == 0 <==> a@.subrange(0, index as int) == b@.subrange(0, index as int),
        decreases a@.len() - index,
    {
        let x: u8 = a[index];
        let y: u8 = b[index];
        let ghost before = difference;
        assert((before | (x ^ y)) == 0u8 <==> before == 0u8 && x == y) by (bit_vector);
        difference = difference | (x ^ y);
        proof {
            let i = index as int;
            assert(a@.subrange(0, i + 1) =~= a@.subrange(0, i).push(x));
            assert(b@.subrange(0, i + 1) =~= b@.subrange(0, i).push(y));
            if a@.subrange(0, i + 1) == b@.subrange(0, i + 1) {
                assert(a@.subrange(0, i) =~= a@.subrange(0, i + 1).drop_last());
                assert(b@.subrange(0, i) =~= b@.subrange(0, i + 1).drop_last());
                assert(a@.subrange(0, i + 1)[i] == x && b@.subrange(0, i + 1)[i] == y);
            }
        }
        index = index + 1;
    }
    assert(a@.subrange(0, index as int) =~= a@);
    assert(b@.subrange(0, index as int) =~= b@);
    difference == 0
}

/// The part of a token that its tag is computed over.
pub open spec fn token_input(payload: Seq<u8>) -> Seq<char> {
    TOKEN_PREFIX@.push('.') + base64url(payload)
}

/// The tag that belongs to a token.
pub open spec fn token_tag(secret: Seq<u8>, signing_input: Seq<char>) -> Seq<u8> {
    hmac_sha256(secret, encode_utf8(signing_input))
}

/// The parts of an access token, before anything in it has been believed.
#[derive(Debug, Clone)]
pub struct TokenParts {
    /// The claims, as they are serialised.
    pub payload: Vec<u8>,
    /// What the tag is computed over.
    pub signing_input: String,
    pub tag: Vec<u8>,
}

/// The parts of an access token over sequences.
pub struct Parts {
    pub payload: Seq<u8>,
    pub signing_input: Seq<char>,
    pub tag: Seq<u8>,
}

impl View for TokenParts {
    type V = Parts;

    open spec fn view(&self) -> Parts {
        Parts {
            payload: self.payload@,
            signing_input: self.signing_input@,
            tag: self.tag@,
        }
    }
}

/// What taking a token apart comes to.
pub open spec fn opened_token(token: Seq<char>) -> Result<Parts, Refusal> {
    let pieces = split_on(token, '.');
    if pieces.len() != 3 {
        Err(Refusal::unauthorized("malformed access token"@))
    } else if pieces[0] != TOKEN_PREFIX@ {
        Err(Refusal::unauthorized("unsupported access token version"@))
    } else {
        match (decoded(pieces[1]), decoded(pieces[2])) {
            (Some(payload), Some(tag)) => Ok(
                Parts { payload, signing_input: pieces[0].push('.') + pieces[1], tag },
            ),
            _ => Err(Refusal::unauthorized("malformed access token"@)),
        }
    }
}

/// The claims as they are serialised.
pub open spec fn claims_text(claims: Claims) -> Seq<char> {
    object_text(
        seq![
            ("jti"@, json_string(claims.jti)),
            ("sub"@, json_string(claims.sub)),
            ("typ"@, json_string(claims.principal.word())),
            ("identity_id"@, json_string(claims.identity_id)),
            ("iss"@, json_string(claims.iss)),
            ("aud"@, json_string(claims.aud)),
            ("iat"@, signed_decimal(claims.iat as int)),
            ("exp"@, signed_decimal(claims.exp as int)),
            ("scopes"@, array_text(claims.scopes)),
            ("kid"@, json_string(claims.kid)),
        ],
    )
}

/// Serialises claims.
pub fn claims_json(claims: &TokenClaims) -> (json: String)
    ensures
        json@ == claims_text(claims@),
{
    let list = vec![
        json::member("jti", json::string(claims.jti.as_str())),
        json::member("sub", json::string(claims.sub.as_str())),
        json::member("typ", json::string(claims.principal.as_str())),
        json::member("identity_id", json::string(claims.identity_id.as_str())),
        json::member("iss", json::string(claims.iss.as_str())),
        json::member("aud", json::string(claims.aud.as_str())),
        json::member("iat", text::signed_of(claims.iat as i128)),
        json::member("exp", text::signed_of(claims.exp as i128)),
        json::member("scopes", json::array(&claims.scopes)),
        json::member("kid", json::string(claims.kid.as_str())),
    ];
    assert(json::member_views(list@) =~= seq![
        ("jti"@, json_string(claims@.jti)),
        ("sub"@, json_string(claims@.sub)),
        ("typ"@, json_string(claims@.principal.word())),
        ("identity_id"@, json_string(claims@.identity_id)),
        ("iss"@, json_string(claims@.iss)),
        ("aud"@, json_string(claims@.aud)),
        ("iat"@, signed_decimal(claims@.iat as int)),
        ("exp"@, signed_decimal(claims@.exp as int)),
        ("scopes"@, array_text(claims@.scopes)),
        ("kid"@, json_string(claims@.kid)),
    ]);
    json::object(&list)
}

/// The token over a payload.
pub open spec fn minted(secret: Seq<u8>, payload: Seq<u8>) -> Seq<char> {
    token_input(payload).push('.') + base64url(token_tag(secret, token_input(payload)))
}

/// Mint a token over claims. Taking the token apart gives the serialised claims back.
pub fn mint_token(key: &SigningKey, claims: &TokenClaims) -> (token: String)
    ensures
        token@ == minted(key.secret@, encode_utf8(claims_text(claims@))),
        opened_token(token@) == Ok::<Parts, Refusal>(
            Parts {
                payload: encode_utf8(claims_text(claims@)),
                signing_input: token_input(encode_utf8(claims_text(claims@))),
                tag: token_tag(key.secret@, token_input(encode_utf8(claims_text(claims@)))),
            },
        ),
{
    mint_payload(key, claims_json(claims).as_str().as_bytes())
}

/// Mint a token over a payload: the version, the payload and the tag over both, separated
/// by dots. Taking the token apart gives exactly these parts back.
pub fn mint_payload(key: &SigningKey, payload: &[u8]) -> (token: String)
    ensures
        token@ == minted(key.secret@, payload@),
        opened_token(token@) == Ok::<Parts, Refusal>(
            Parts {
                payload: payload@,
                signing_input: token_input(payload@),
                tag: token_tag(key.secret@, token_input(payload@)),
            },
        ),
{
    let mut signing_input = TOKEN_PREFIX.to_owned();
    signing_input.push('.');
    let body = b64_encode(payload);
    let signing_input = signing_input.concat(body.as_str());
    let tag = mac(key.secret.as_slice(), signing_input.as_str().as_bytes());
    let mut token = signing_input.as_str().to_owned();
    token.push('.');
    let end = b64_encode(tag.as_slice());
    let token = token.concat(end.as_str());
    proof {
        reveal_strlit("v1");
        assert forall|c: char| is_base64url_char(c) implies c != '.' by {}
        assert(!body@.contains('.'));
        assert(!end@.contains('.'));
        assert(!TOKEN_PREFIX@.contains('.'));
        let tail = body@.push('.') + end@;
        assert(token@ =~= TOKEN_PREFIX@.push('.') + tail);
        text::lemma_split_on(TOKEN_PREFIX@, '.', tail);
        text::lemma_split_on(body@, '.', end@);
        text::lemma_split_on(end@, '.', end@);
        assert(split_on(token@, '.') =~= seq![TOKEN_PREFIX@, body@, end@]);
    }
    token
}

/// Take an access token apart. Nothing in it is believed yet.
pub fn open_token(token: &str) -> (result: ApiResult<TokenParts>)
    ensures
        outcome(result) == opened_token(token@),
{
    let pieces = text::split(token, '.');
    let ghost p = split_on(token@, '.');
    assert(p == texts(pieces@));
    if pieces.len() != 3 {
        return Err(ApiError::unauthorized("malformed access token"));
    }
    assert(p[0] == pieces@[0]@ && p[1] == pieces@[1]@ && p[2] == pieces@[2]@);
    if !text::same(pieces[0].as_str(), TOKEN_PREFIX) {
        return Err(ApiError::unauthorized("unsupported access token version"));
    }
    let payload = match b64_decode(pieces[1].as_str()) {
        Some(payload) => payload,
        None => return Err(ApiError::unauthorized("malformed access token")),
    };
    let tag = match b64_decode(pieces[2].as_str()) {
        Some(tag) => tag,
        None => return Err(ApiError::unauthorized("malformed access token")),
    };
    let mut signing_input = pieces[0].as_str().to_owned();
    signing_input.push('.');
    let signing_input = signing_input.concat(pieces[1].as_str());
    Ok(TokenParts { payload, signing_input, tag })
}

/// The first of some keys that has the given ID.
pub open spec fn key_for(keys: Seq<SigningKey>, kid: Seq<char>) -> Option<SigningKey>
    decreases keys.len(),
{
    if keys.len() == 0 {
        None
    } else if keys[0].kid@ == kid {
        Some(keys[0])
    } else {
        key_for(keys.drop_first(), kid)
    }
}

/// What the claims of an authentic token come to at the time `now`.
pub open spec fn checked_claims(
    claims: Claims,
    issuer: Seq<char>,
    audience: Seq<char>,
    now: int,
    skew: int,
) -> Result<Claims, Refusal> {
    if claims.iss != issuer || claims.aud != audience {
        Err(Refusal::unauthorized("access token issuer or audience mismatch"@))
    } else if now > claims.exp + skew {
        Err(Refusal::unauthorized("access token has expired"@))
    } else if claims.iat > now + skew {
        Err(Refusal::unauthorized("access token is not yet valid"@))
    } else {
        Ok(claims)
    }
}

/// What verifying a token that was taken apart comes to. `claims` is what its payload
/// reads as, if it reads as claims at all.
pub open spec fn verified_token(
    parts: Parts,
    claims: Option<Claims>,
    keys: Seq<SigningKey>,
    issuer: Seq<char>,
    audience: Seq<char>,
    now: int,
    skew: int,
) -> Result<Claims, Refusal> {
    match claims {
        None => Err(Refusal::unauthorized("malformed access token"@)),
        Some(claims) => match key_for(keys, claims.kid) {
            None => Err(Refusal::unauthorized("access token signed by an unknown key"@)),
            Some(key) => if token_tag(key.secret@, parts.signing_input) != parts.tag {
                Err(Refusal::unauthorized("access token signature is invalid"@))
            } else {
                checked_claims(claims, issuer, audience, now, skew)
            },
        },
    }
}

/// Check the claims of a token whose signature is good.
pub fn check_claims(
    claims: TokenClaims,
    expected_issuer: &str,
    expected_audience: &str,
    now_unix: i64,
    max_skew_seconds: i64,
) -> (result: ApiResult<TokenClaims>)
    ensures
        outcome(result) == checked_claims(
            claims@,
            expected_issuer@,
            expected_audience@,
            now_unix as int,
            max_skew_seconds as int,
        ),
{
    if !text::same(claims.iss.as_str(), expected_issuer) || !text::same(
        claims.aud.as_str(),
        expected_audience,
    ) {
        return Err(ApiError::unauthorized("access token issuer or audience mismatch"));
    }
    if now_unix as i128 > claims.exp as i128 + max_skew_seconds as i128 {
        return Err(ApiError::unauthorized("access token has expired"));
    }
    if claims.iat as i128 > now_unix as i128 + max_skew_seconds as i128 {
        return Err(ApiError::unauthorized("access token is not yet valid"));
    }
    Ok(claims)
}

/// Verify signature, issuer, audience and expiry. Revocation and scope checks are the
/// caller's, because they need durable state and the request.
pub fn verify_token(
    parts: &TokenParts,
    claims: Option<TokenClaims>,
    keys: &[SigningKey],
    expected_issuer: &str,
    expected_audience: &str,
    now_unix: i64,
    max_skew_seconds: i64,
) -> (result: ApiResult<TokenClaims>)
    ensures
        outcome(result) == verified_token(
            parts@,
            option_view(claims),
            keys@,
            expected_issuer@,
            expected_audience@,
            now_unix as int,
            max_skew_seconds as int,
        ),
{
    let claims = match claims {
        Some(claims) => claims,
        None => return Err(ApiError::unauthorized("malformed access token")),
    };
    match find_key(keys, claims.kid.as_str()) {
        Some(key) => {
            let expected = mac(key.secret.as_slice(), parts.signing_input.as_str().as_bytes());
            if !ct_eq(expected.as_slice(), parts.tag.as_slice()) {
                return Err(ApiError::unauthorized("access token signature is invalid"));
            }
            check_claims(claims, expected_issuer, expected_audience, now_unix, max_skew_seconds)
        },
        None => Err(ApiError::unauthorized("access token signed by an unknown key")),
    }
}

/// The first key with the given ID.
fn find_key<'k>(keys: &'k [SigningKey], kid: &str) -> (found: Option<&'k SigningKey>)
    ensures
        found is Some <==> key_for(keys@, kid@) is Some,
        found is Some ==> key_for(keys@, kid@) == Some(*found->0),
{
    let mut index: usize = 0;
    assert(keys@.skip(0) =~= keys@);
    while index < keys.len()
        invariant
            index <= keys@.len(),
            key_for(keys@, kid@) == key_for(keys@.skip(index as int), kid@),
        decreases keys@.len() - index,
    {
        if text::same(keys[index].kid.as_str(), kid) {
            return Some(&keys[index]);
        }
        assert(keys@.skip(index as int).drop_first() =~= keys@.skip(index + 1));
        index = index + 1;
    }
    None
}

/// A token is good as long as its key is: whoever minted it, verifying its parts with
/// any key list that finds the minting key under the claimed ID gives the claims back,
/// for the right issuer and audience and from issue to expiry, give or take the skew.
pub proof fn law_minted_token_verifies(
    key: SigningKey,
    payload: Seq<u8>,
    claims: Claims,
    keys: Seq<SigningKey>,
    now: int,
    skew: int,
)
    requires
        key_for(keys, claims.kid) == Some(key),
        claims.iat - skew <= now <= claims.exp + skew,
    ensures
        verified_token(
            Parts {
                payload,
                signing_input: token_input(payload),
                tag: token_tag(key.secret@, token_input(payload)),
            },
            Some(claims),
            keys,
            claims.iss,
            claims.aud,
            now,
            skew,
        ) == Ok::<Claims, Refusal>(claims),
{
}

/// What is stored of a ticket or an operator credential: a reader of the database cannot
/// use what it finds there.
pub open spec fn stored_hash(raw: Seq<char>) -> Seq<char> {
    base64url(sha256_digest(encode_utf8(raw)))
}

/// Generate a single-use WebSocket ticket, with the hash that is stored of it.
pub fn new_ticket() -> (ticket: (String, String))
    ensures
        ticket.1@ == stored_hash(ticket.0@),
        is_digest_text(ticket.0@),
        is_digest_text(ticket.1@),
        exists|bytes: Seq<u8>| bytes.len() == 32 && ticket.0@ == #[trigger] base64url(bytes),
{
    let raw = b64_encode(random_bytes(32).as_slice());
    let hash = hash_ticket(raw.as_str());
    (raw, hash)
}

pub fn hash_ticket(raw: &str) -> (hash: String)
    ensures
        hash@ == stored_hash(raw@),
        is_digest_text(hash@),
{
    b64_encode(&sha256(raw.as_bytes()))
}

pub fn hash_operator_token(raw: &str) -> (hash: String)
    ensures
        hash@ == stored_hash(raw@),
        is_digest_text(hash@),
{
    b64_encode(&sha256(raw.as_bytes()))
}

} // verus!
