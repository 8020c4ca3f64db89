//! The relay's HTTP API as the publisher uses it: challenges, registration and tokens.
//!
//! What is decided here is what is signed and how a refusal is read. The requests
//! themselves are made by the program around the library.

use crate::ed25519::{ed25519_public_key, ed25519_signature};
use crate::encoding::{
    b64_decode, base64url, contents, decoded, law_splitting_undoes_joining, lemma_split_fields,
    lengths_fit, parse_length_prefixed, split_fields,
};
use crate::json;
use crate::json::{json_string, json_text_at, object_text};
use crate::publisher::crypto::{
    fingerprint_text, is_good_signature, KeyPair, ALGORITHM_ED25519, CHALLENGE_SIGNATURE_CONTEXT,
};
use crate::relay::crypto::Binding;
use crate::text;
use crate::text::{decimal, lossy_text, option_view, quoted_text, without_trailing};
use vstd::prelude::*;
use vstd::utf8::*;

verus! {

/// Why a request came to nothing.
#[derive(Debug)]
pub enum ApiError<S = String> {
    Transport(S),
    /// The relay answered, and said no. The message is the relay's own.
    Relay { status: u16, code: S, message: S },
    Malformed(S),
}

impl View for ApiError {
    type V = ApiError<Seq<char>>;

    open spec fn view(&self) -> ApiError<Seq<char>> {
        match self {
            ApiError::Transport(detail) => ApiError::Transport(detail@),
            ApiError::Relay { status, code, message } => ApiError::Relay {
                status: *status,
                code: code@,
                message: message@,
            },
            ApiError::Malformed(detail) => ApiError::Malformed(detail@),
        }
    }
}

impl ApiError<Seq<char>> {
    pub open spec fn words(self) -> Seq<char> {
        match self {
            ApiError::Transport(detail) => detail,
            ApiError::Relay { status, code, message } => decimal(status as nat) + ": "@ + code
                + ": "@ + message,
            ApiError::Malformed(detail) =>
                "the relay's response was not what this client expects: "@ + detail,
        }
    }
}

impl ApiError {
    /// What went wrong, in words.
    pub fn to_text(&self) -> (words: String)
        ensures
            words@ == self@.words(),
    {
        match self {
            ApiError::Transport(detail) => detail.as_str().to_owned(),
            ApiError::Relay { status, code, message } => text::decimal_of(*status as u64).concat(
                ": ",
            ).concat(code.as_str()).concat(": ").concat(message.as_str()),
            ApiError::Malformed(detail) =>
                "the relay's response was not what this client expects: ".to_owned().concat(
                detail.as_str(),
            ),
        }
    }
}

/// A challenge as the relay hands it out.
#[derive(Debug)]
pub struct Challenge {
    pub challenge_id: String,
    /// The exact bytes to sign, base64url. They are looked at before they are signed.
    pub signing_input: String,
    pub key_fingerprint: String,
}

/// An access token as the relay hands it out.
#[derive(Debug)]
pub struct Token {
    pub access_token: String,
    pub expires_in: i64,
    pub scopes: Vec<String>,
}

/// An identity as the relay names it.
#[derive(Debug)]
pub struct Identity {
    pub identity_id: String,
}

/// A terminal as the relay lists it.
#[derive(Debug)]
pub struct Terminal {
    pub terminal_id: String,
    pub label: String,
    pub state: String,
    pub cols: Option<u32>,
    pub rows: Option<u32>,
    pub accepts_input: bool,
}

/// A device as the relay names it.
#[derive(Debug)]
pub struct Device {
    pub device_id: String,
    pub role: String,
}

/// Where the relay's API is.
#[derive(Debug)]
pub struct Client {
    base_url: String,
}

impl View for Client {
    type V = Seq<char>;

    closed spec fn view(&self) -> Seq<char> {
        self.base_url@
    }
}

impl Client {
    pub fn new(base_url: &str) -> (client: Self)
        ensures
            client@ == without_trailing(base_url@, '/'),
    {
        Self { base_url: text::trim_end_matches(base_url, '/') }
    }

    pub fn base_url(&self) -> (url: &str)
        ensures
            url@ == self@,
    {
        self.base_url.as_str()
    }

    /// The address of a path of the API.
    pub fn url(&self, path: &str) -> (url: String)
        ensures
            url@ == self@ + path@,
    {
        self.base_url.as_str().to_owned().concat(path)
    }

    /// The address that lists open terminals, of all devices or of one.
    pub fn terminals_url(&self, device_id: &Option<String>) -> (url: String)
        ensures
            url@ == self@ + "/v1/terminals?state=open&limit=100"@ + (match option_view(
                *device_id,
            ) {
                Some(device) => "&device_id="@ + device,
                None => Seq::empty(),
            }),
    {
        let url = self.url("/v1/terminals?state=open&limit=100");
        match device_id {
            Some(device) => {
                let suffix = "&device_id=".to_owned().concat(device.as_str());
                url.concat(suffix.as_str())
            },
            None => {
                assert(url@ =~= url@ + Seq::<char>::empty());
                url
            },
        }
    }
}

/// How a refusal is read: by the code and the message of the relay's own error body,
/// or, where the body has another shape, as it stands, so that it is still legible.
pub open spec fn understood(
    status: u16,
    body: Seq<char>,
    code: Option<Seq<char>>,
    message: Option<Seq<char>>,
) -> ApiError<Seq<char>> {
    match (code, message) {
        (Some(code), Some(message)) => ApiError::Relay { status, code, message },
        _ => ApiError::Relay { status, code: "unknown"@, message: body },
    }
}

/// How a refusal is read, given the code and the message that its body holds.
pub fn refusal(status: u16, body: &str, code: Option<String>, message: Option<String>) -> (error:
    ApiError)
    ensures
        error@ == understood(status, body@, option_view(code), option_view(message)),
{
    match (code, message) {
        (Some(code), Some(message)) => ApiError::Relay { status, code, message },
        _ => ApiError::Relay { status, code: "unknown".to_owned(), message: body.to_owned() },
    }
}

/// Reads a refusal. The relay's error bodies hold an object `error` with a `code` and a
/// `message`.
pub fn read_refusal(status: u16, body: &str) -> (error: ApiError)
    ensures
        error@ == understood(
            status,
            body@,
            json_text_at(body@, "/error/code"@),
            json_text_at(body@, "/error/message"@),
        ),
{
    refusal(
        status,
        body,
        json::text_at(body, "/error/code"),
        json::text_at(body, "/error/message"),
    )
}

/// How a refusal to list terminals is read: as it stands, for a list has no error body of
/// its own.
pub fn listing_refusal(status: u16, text: &str) -> (error: ApiError)
    ensures
        error@ == (ApiError::Relay { status, code: "request_failed"@, message: text@ }),
{
    ApiError::Relay { status, code: "request_failed".to_owned(), message: text.to_owned() }
}

/// How a key is stated in a request.
pub open spec fn key_object(public_key: Seq<char>) -> Seq<char> {
    object_text(
        seq![
            ("algorithm"@, json_string(ALGORITHM_ED25519@)),
            ("public_key"@, json_string(public_key)),
        ],
    )
}

fn key_json(public_key: &str) -> (json: String)
    ensures
        json@ == key_object(public_key@),
{
    let list = vec![
        json::member("algorithm", json::string(ALGORITHM_ED25519)),
        json::member("public_key", json::string(public_key)),
    ];
    assert(json::member_views(list@) =~= seq![
        ("algorithm"@, json_string(ALGORITHM_ED25519@)),
        ("public_key"@, json_string(public_key@)),
    ]);
    json::object(&list)
}

/// The body of a request for a challenge.
pub fn challenge_body(operation: &str, public_key: &str, owner_identity_id: &Option<String>) -> (body:
    String)
    ensures
        body@ == object_text(
            seq![("key"@, key_object(public_key@)), ("operation"@, json_string(operation@))] + (
            match option_view(*owner_identity_id) {
                Some(owner) => seq![("owner_identity_id"@, json_string(owner))],
                None => Seq::empty(),
            }),
        ),
{
    let mut list = vec![
        json::member("key", key_json(public_key)),
        json::member("operation", json::string(operation)),
    ];
    match owner_identity_id {
        Some(owner) => list.push(json::member("owner_identity_id", json::string(owner.as_str()))),
        None => {},
    }
    assert(json::member_views(list@) =~= seq![
        ("key"@, key_object(public_key@)),
        ("operation"@, json_string(operation@)),
    ] + (match option_view(*owner_identity_id) {
        Some(owner) => seq![("owner_identity_id"@, json_string(owner))],
        None => Seq::empty(),
    }));
    json::object(&list)
}

/// The body of a request that answers a challenge.
pub fn proof_body(challenge_id: &str, signature: &str) -> (body: String)
    ensures
        body@ == object_text(
            seq![
                ("challenge_id"@, json_string(challenge_id@)),
                ("signature"@, json_string(signature@)),
            ],
        ),
{
    let list = vec![
        json::member("challenge_id", json::string(challenge_id)),
        json::member("signature", json::string(signature)),
    ];
    assert(json::member_views(list@) =~= seq![
        ("challenge_id"@, json_string(challenge_id@)),
        ("signature"@, json_string(signature@)),
    ]);
    json::object(&list)
}

/// The body of a request to register a device.
pub fn device_body(
    name: &str,
    public_key: &str,
    challenge_id: &str,
    signature: &str,
    role: &str,
) -> (body: String)
    ensures
        body@ == object_text(
            seq![
                ("challenge_id"@, json_string(challenge_id@)),
                ("device_signature"@, json_string(signature@)),
                ("key"@, key_object(public_key@)),
                ("name"@, json_string(name@)),
                ("role"@, json_string(role@)),
            ],
        ),
{
    let list = vec![
        json::member("challenge_id", json::string(challenge_id)),
        json::member("device_signature", json::string(signature)),
        json::member("key", key_json(public_key)),
        json::member("name", json::string(name)),
        json::member("role", json::string(role)),
    ];
    assert(json::member_views(list@) =~= seq![
        ("challenge_id"@, json_string(challenge_id@)),
        ("device_signature"@, json_string(signature@)),
        ("key"@, key_object(public_key@)),
        ("name"@, json_string(name@)),
        ("role"@, json_string(role@)),
    ]);
    json::object(&list)
}

/// What is wrong with the fields of a challenge that this key is asked to sign, if
/// anything is. `texts` are the fields read as text.
pub open spec fn binding_fault(
    texts: Seq<Seq<char>>,
    fingerprint: Seq<char>,
    expected_operation: Seq<char>,
    expected_owner: Option<Seq<char>>,
) -> Option<Seq<char>> {
    if texts.len() != 9 {
        Some("signing_input has "@ + decimal(texts.len()) + " fields, expected 9"@)
    } else if texts[0] != CHALLENGE_SIGNATURE_CONTEXT@ {
        Some("signing_input is for "@ + quoted_text(texts[0]) + ", not this protocol"@)
    } else if texts[4] != expected_operation {
        Some(
            "the relay offered a "@ + quoted_text(texts[4]) + " challenge when "@ + quoted_text(
                expected_operation,
            ) + " was asked for"@,
        )
    } else if texts[5] != fingerprint {
        Some("the challenge is bound to a different key than the one signing it"@)
    } else if expected_owner is Some && texts[6] != expected_owner->0 {
        Some("the challenge is bound to a different owning identity"@)
    } else {
        None
    }
}

/// Some fields read as text.
pub open spec fn read_texts(fields: Seq<Seq<u8>>) -> Seq<Seq<char>> {
    Seq::new(fields.len(), |i: int| lossy_text(fields[i]))
}

/// What is wrong with the bytes that this key is asked to sign, if anything is.
pub open spec fn challenge_fault(
    signing_input: Seq<u8>,
    fingerprint: Seq<char>,
    expected_operation: Seq<char>,
    expected_owner: Option<Seq<char>>,
) -> Option<Seq<char>> {
    match split_fields(signing_input) {
        None => Some("signing_input is not length-prefixed"@),
        Some(fields) => binding_fault(
            read_texts(fields),
            fingerprint,
            expected_operation,
            expected_owner,
        ),
    }
}

/// What signing a challenge comes to. `bytes` is what its signing input decodes to.
pub open spec fn signed_challenge(
    bytes: Option<Seq<u8>>,
    seed: Seq<u8>,
    expected_operation: Seq<char>,
    expected_owner: Option<Seq<char>>,
) -> Result<Seq<char>, ApiError<Seq<char>>> {
    match bytes {
        None => Err(ApiError::Malformed("signing_input is not base64url"@)),
        Some(bytes) => match challenge_fault(
            bytes,
            fingerprint_text(ALGORITHM_ED25519@, ed25519_public_key(seed)),
            expected_operation,
            expected_owner,
        ) {
            Some(fault) => Err(ApiError::Malformed(fault)),
            None => Ok(base64url(ed25519_signature(seed, bytes))),
        },
    }
}

/// Decides on the fields of a challenge, read as text.
pub fn check_fields(
    texts: &Vec<String>,
    fingerprint: &str,
    expected_operation: &str,
    expected_owner_identity: &Option<String>,
) -> (result: Result<(), ApiError>)
    ensures
        match result {
            Ok(()) => binding_fault(
                text::texts(texts@),
                fingerprint@,
                expected_operation@,
                option_view(*expected_owner_identity),
            ) is None,
            Err(error) => binding_fault(
                text::texts(texts@),
                fingerprint@,
                expected_operation@,
                option_view(*expected_owner_identity),
            ) matches Some(fault) && error@ == ApiError::Malformed(fault),
        },
{
    if texts.len() != 9 {
        let words = "signing_input has ".to_owned().concat(
            text::decimal_of(texts.len() as u64).as_str(),
        ).concat(" fields, expected 9");
        return Err(ApiError::Malformed(words));
    }
    proof {
        let t = text::texts(texts@);
        assert(t[0] == texts@[0]@ && t[4] == texts@[4]@ && t[5] == texts@[5]@ && t[6]
            == texts@[6]@);
    }
    if !text::same(texts[0].as_str(), CHALLENGE_SIGNATURE_CONTEXT) {
        let words = "signing_input is for ".to_owned().concat(
            text::quoted(texts[0].as_str()).as_str(),
        ).concat(", not this protocol");
        return Err(ApiError::Malformed(words));
    }
    if !text::same(texts[4].as_str(), expected_operation) {
        let words = "the relay offered a ".to_owned().concat(
            text::quoted(texts[4].as_str()).as_str(),
        ).concat(" challenge when ").concat(text::quoted(expected_operation).as_str()).concat(
            " was asked for",
        );
        return Err(ApiError::Malformed(words));
    }
    if !text::same(texts[5].as_str(), fingerprint) {
        return Err(
            ApiError::Malformed(
                "the challenge is bound to a different key than the one signing it".to_owned(),
            ),
        );
    }
    match expected_owner_identity {
        Some(expected) => {
            if !text::same(texts[6].as_str(), expected.as_str()) {
                return Err(
                    ApiError::Malformed(
                        "the challenge is bound to a different owning identity".to_owned(),
                    ),
                );
            }
        },
        None => {},
    }
    Ok(())
}

/// Looks at what the relay asks to have signed. The relay verifies its own derivation,
/// so a mismatch cannot let a forged signature through; but it keeps this machine from
/// putting its signature under a statement it did not intend to make.
pub fn verify_binding(
    signing_input: &[u8],
    key: &KeyPair,
    expected_operation: &str,
    expected_owner_identity: &Option<String>,
) -> (result: Result<(), ApiError>)
    ensures
        match challenge_fault(
            signing_input@,
            fingerprint_text(ALGORITHM_ED25519@, ed25519_public_key(key@)),
            expected_operation@,
            option_view(*expected_owner_identity),
        ) {
            Some(fault) => result matches Err(error) && error@ == ApiError::Malformed(fault),
            None => result is Ok,
        },
{
    let fields = match parse_length_prefixed(signing_input) {
        Some(fields) => fields,
        None => return Err(
            ApiError::Malformed("signing_input is not length-prefixed".to_owned()),
        ),
    };
    let mut texts: Vec<String> = Vec::new();
    let mut index: usize = 0;
    while index < fields.len()
        invariant
            index <= fields@.len(),
            texts@.len() == index,
            forall|i: int| 0 <= i < index ==> (#[trigger] texts@[i])@ == lossy_text(fields@[i]@),
        decreases fields@.len() - index,
    {
        texts.push(text::lossy(fields[index].as_slice()));
        index = index + 1;
    }
    assert(text::texts(texts@) =~= read_texts(contents(fields@)));
    let fingerprint = key.fingerprint();
    check_fields(&texts, fingerprint.as_str(), expected_operation, expected_owner_identity)
}

/// Check that the relay's challenge says what this side means to sign, then sign exactly
/// those bytes.
pub fn sign_challenge(
    challenge: &Challenge,
    key: &KeyPair,
    expected_operation: &str,
    expected_owner_identity: &Option<String>,
) -> (result: Result<String, ApiError>)
    ensures
        match result {
            Ok(signature) => {
                let bytes = decoded(challenge.signing_input@)->0;
                &&& signed_challenge(
                    decoded(challenge.signing_input@),
                    key@,
                    expected_operation@,
                    option_view(*expected_owner_identity),
                ) == Ok::<Seq<char>, ApiError<Seq<char>>>(signature@)
                &&& decoded(signature@) == Some(ed25519_signature(key@, bytes))
                &&& is_good_signature(key@, bytes)
            },
            Err(error) => signed_challenge(
                decoded(challenge.signing_input@),
                key@,
                expected_operation@,
                option_view(*expected_owner_identity),
            ) == Err::<Seq<char>, ApiError<Seq<char>>>(error@),
        },
{
    let bytes = match b64_decode(challenge.signing_input.as_str()) {
        Some(bytes) => bytes,
        None => return Err(ApiError::Malformed("signing_input is not base64url".to_owned())),
    };
    match verify_binding(bytes.as_slice(), key, expected_operation, expected_owner_identity) {
        Ok(()) => Ok(key.sign(bytes.as_slice())),
        Err(error) => Err(error),
    }
}

/// The signature that registers a device. It must come from the device's own key; a
/// device that is elsewhere signs for itself.
pub fn sign_registration(
    challenge: &Challenge,
    device_signer: &Option<KeyPair>,
    identity_id: &str,
) -> (result: Result<String, ApiError>)
    ensures
        ({
            let signed = match device_signer {
                Some(key) => signed_challenge(
                    decoded(challenge.signing_input@),
                    key@,
                    "register_device"@,
                    Some(identity_id@),
                ),
                None => Err(
                    ApiError::Malformed(
                        "registering a device needs its private key to sign the challenge"@,
                    ),
                ),
            };
            match result {
                Ok(signature) => signed == Ok::<Seq<char>, ApiError<Seq<char>>>(signature@),
                Err(error) => signed == Err::<Seq<char>, ApiError<Seq<char>>>(error@),
            }
        }),
{
    match device_signer {
        Some(key) => {
            let owner = Some(identity_id.to_owned());
            sign_challenge(challenge, key, "register_device", &owner)
        },
        None => Err(
            ApiError::Malformed(
                "registering a device needs its private key to sign the challenge".to_owned(),
            ),
        ),
    }
}

/// Nothing is signed but what was meant: whatever bytes the relay offers, a signature is
/// made only over nine fields that name the operation asked for, this very key and, where
/// one is expected, the owning identity.
pub proof fn law_only_the_intended_is_signed(
    bytes: Option<Seq<u8>>,
    seed: Seq<u8>,
    expected_operation: Seq<char>,
    expected_owner: Option<Seq<char>>,
)
    requires
        signed_challenge(bytes, seed, expected_operation, expected_owner) is Ok,
    ensures
        bytes is Some,
        split_fields(bytes->0) is Some,
        ({
            let fields = read_texts(split_fields(bytes->0)->0);
            &&& fields.len() == 9
            &&& fields[0] == CHALLENGE_SIGNATURE_CONTEXT@
            &&& fields[4] == expected_operation
            &&& fields[5] == fingerprint_text(ALGORITHM_ED25519@, ed25519_public_key(seed))
            &&& expected_owner is Some ==> fields[6] == expected_owner->0
        }),
        signed_challenge(bytes, seed, expected_operation, expected_owner)->Ok_0 == base64url(
            ed25519_signature(seed, bytes->0),
        ),
{
}

/// The publisher signs what the relay derives: a challenge that the relay encodes for a
/// key, an operation and an owner is accepted by that key's holder when asked for that
/// operation, with that owner or with none in mind.
pub proof fn law_relay_challenges_are_accepted(binding: Binding)
    requires
        lengths_fit(binding.fields()),
    ensures
        challenge_fault(
            binding.signed_bytes(),
            binding.key_fingerprint,
            binding.operation.word(),
            Some(binding.owner_identity_id),
        ) is None,
        challenge_fault(
            binding.signed_bytes(),
            binding.key_fingerprint,
            binding.operation.word(),
            None,
        ) is None,
{
    let fields = binding.fields();
    law_splitting_undoes_joining(fields, fields);
    lemma_split_fields(binding.signed_bytes(), fields);
    let texts = read_texts(fields);
    encode_utf8_valid_utf8(CHALLENGE_SIGNATURE_CONTEXT@);
    encode_utf8_decode_utf8(CHALLENGE_SIGNATURE_CONTEXT@);
    encode_utf8_valid_utf8(binding.operation.word());
    encode_utf8_decode_utf8(binding.operation.word());
    encode_utf8_valid_utf8(binding.key_fingerprint);
    encode_utf8_decode_utf8(binding.key_fingerprint);
    encode_utf8_valid_utf8(binding.owner_identity_id);
    encode_utf8_decode_utf8(binding.owner_identity_id);
    assert(texts[0] == CHALLENGE_SIGNATURE_CONTEXT@);
    assert(texts[4] == binding.operation.word());
    assert(texts[5] == binding.key_fingerprint);
    assert(texts[6] == binding.owner_identity_id);
}

} // verus!
