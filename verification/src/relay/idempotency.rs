//! `Idempotency-Key` support for requests that change something.
//!
//! Replaying a key with a different body is a conflict rather than a silent overwrite.

use crate::encoding::{sha256, sha256_digest};
use crate::ids::{uuid_text, Uuid};
use crate::json;
use crate::json::{is_written, json_value};
use crate::relay::error::{code, ApiError, Refusal};
use crate::relay::repo::IdempotentResponse;
use crate::relay::step::{step_view, Step, StepModel};
use crate::text;
use crate::text::{hex, option_view, trimmed};
use vstd::prelude::*;
use vstd::utf8::*;

verus! {

pub const HEADER: &'static str = "idempotency-key";

/// The longest key, in bytes.
pub const MAX_KEY_BYTES: usize = 255;

/// The key that a header holds, if it holds one.
pub open spec fn key_in(header: Option<Seq<char>>, enabled: bool) -> Option<Seq<char>> {
    if enabled && header is Some && trimmed(header->0).len() > 0 && encode_utf8(
        trimmed(header->0),
    ).len() <= MAX_KEY_BYTES {
        Some(trimmed(header->0))
    } else {
        None
    }
}

/// Read the header: its key without the white space around it, unless it is empty or too
/// long or the feature is switched off.
pub fn extract(header: &Option<String>, enabled: bool) -> (key: Option<String>)
    ensures
        option_view(key) == key_in(option_view(*header), enabled),
{
    if !enabled {
        return None;
    }
    match header {
        None => None,
        Some(value) => {
            let key = text::trim(value.as_str());
            if key.as_str().is_empty() || key.as_str().as_bytes().len() > MAX_KEY_BYTES {
                None
            } else {
                Some(key)
            }
        },
    }
}

/// The hexadecimal digest of a byte string.
pub open spec fn digest_hex(bytes: Seq<u8>) -> Seq<char> {
    hex(sha256_digest(bytes))
}

/// The hexadecimal SHA-256 digest of a byte string.
pub fn sha256_hex(bytes: &[u8]) -> (text: String)
    ensures
        text@ == digest_hex(bytes@),
{
    text::hex_of(&sha256(bytes))
}

/// The request that a key is given for: whose it is, its method and its path.
#[derive(Debug)]
pub struct Subject<S = String> {
    pub scope: S,
    pub method: S,
    pub path: S,
}

impl View for Subject {
    type V = Subject<Seq<char>>;

    open spec fn view(&self) -> Subject<Seq<char>> {
        Subject { scope: self.scope@, method: self.method@, path: self.path@ }
    }
}

/// The registration of an identity. It is anonymous, so its keys belong to the source of
/// the request.
pub open spec fn identity_subject(client: Seq<char>) -> Subject<Seq<char>> {
    Subject { scope: "source:"@ + client, method: "POST"@, path: "/v1/identities"@ }
}

/// The registration of a device under an identity.
pub open spec fn device_subject(identity_id: Seq<char>) -> Subject<Seq<char>> {
    Subject { scope: identity_id, method: "POST"@, path: "/v1/devices"@ }
}

/// The path of a device's terminals.
pub open spec fn terminals_path(device_id: Uuid) -> Seq<char> {
    "/v1/devices/"@ + uuid_text(device_id.value) + "/terminals"@
}

/// The opening of a terminal on a device.
pub open spec fn opening_subject(identity_id: Seq<char>, device_id: Uuid) -> Subject<Seq<char>> {
    Subject { scope: identity_id, method: "POST"@, path: terminals_path(device_id) }
}

impl Subject {
    /// The registration of an identity by a client.
    pub fn identity(client: &str) -> (subject: Self)
        ensures
            subject@ == identity_subject(client@),
    {
        Subject {
            scope: "source:".to_owned().concat(client),
            method: "POST".to_owned(),
            path: "/v1/identities".to_owned(),
        }
    }

    /// The registration of a device under an identity.
    pub fn device(identity_id: &str) -> (subject: Self)
        ensures
            subject@ == device_subject(identity_id@),
    {
        Subject {
            scope: identity_id.to_owned(),
            method: "POST".to_owned(),
            path: "/v1/devices".to_owned(),
        }
    }

    /// The opening of a terminal on a device.
    pub fn opening(identity_id: &str, device_id: Uuid) -> (subject: Self)
        ensures
            subject@ == opening_subject(identity_id@, device_id),
    {
        Subject {
            scope: identity_id.to_owned(),
            method: "POST".to_owned(),
            path: "/v1/devices/".to_owned().concat(device_id.to_text().as_str()).concat(
                "/terminals",
            ),
        }
    }
}

/// What a key is remembered under: the digest of its scope, method, path and itself,
/// with a separator between them.
pub open spec fn key_input(
    scope: Seq<char>,
    method: Seq<char>,
    path: Seq<char>,
    key: Seq<char>,
) -> Seq<char> {
    scope.push('\u{1}') + method.push('\u{1}') + path.push('\u{1}') + key
}

pub fn key_hash(scope: &str, method: &str, path: &str, key: &str) -> (hash: String)
    ensures
        hash@ == digest_hex(encode_utf8(key_input(scope@, method@, path@, key@))),
{
    let mut input = scope.to_owned();
    input.push('\u{1}');
    let mut input = input.concat(method);
    input.push('\u{1}');
    let mut input = input.concat(path);
    input.push('\u{1}');
    let input = input.concat(key);
    assert(input@ =~= key_input(scope@, method@, path@, key@));
    sha256_hex(input.as_str().as_bytes())
}

/// A key belongs to one scope, method and path, up to collisions of the digest: what is
/// hashed differs as soon as one of them does. None of them holds the separator.
pub proof fn law_key_input_is_unambiguous(
    a: (Seq<char>, Seq<char>, Seq<char>, Seq<char>),
    b: (Seq<char>, Seq<char>, Seq<char>, Seq<char>),
)
    requires
        !a.0.contains('\u{1}') && !a.1.contains('\u{1}') && !a.2.contains('\u{1}'),
        !b.0.contains('\u{1}') && !b.1.contains('\u{1}') && !b.2.contains('\u{1}'),
        key_input(a.0, a.1, a.2, a.3) == key_input(b.0, b.1, b.2, b.3),
    ensures
        a == b,
{
    let rest_a = a.1.push('\u{1}') + a.2.push('\u{1}') + a.3;
    let rest_b = b.1.push('\u{1}') + b.2.push('\u{1}') + b.3;
    assert(key_input(a.0, a.1, a.2, a.3) =~= a.0.push('\u{1}') + rest_a);
    assert(key_input(b.0, b.1, b.2, b.3) =~= b.0.push('\u{1}') + rest_b);
    lemma_front(a.0, rest_a, b.0, rest_b);
    let last_a = a.2.push('\u{1}') + a.3;
    let last_b = b.2.push('\u{1}') + b.3;
    assert(rest_a =~= a.1.push('\u{1}') + last_a);
    assert(rest_b =~= b.1.push('\u{1}') + last_b);
    lemma_front(a.1, last_a, b.1, last_b);
    lemma_front(a.2, a.3, b.2, b.3);
}

proof fn lemma_front(a: Seq<char>, rest_a: Seq<char>, b: Seq<char>, rest_b: Seq<char>)
    requires
        !a.contains('\u{1}'),
        !b.contains('\u{1}'),
        a.push('\u{1}') + rest_a == b.push('\u{1}') + rest_b,
    ensures
        a == b,
        rest_a == rest_b,
{
    let whole = a.push('\u{1}') + rest_a;
    assert(whole[a.len() as int] == '\u{1}');
    assert(whole[b.len() as int] == '\u{1}');
    if a.len() < b.len() {
        assert(b[a.len() as int] == '\u{1}');
    }
    if b.len() < a.len() {
        assert(a[b.len() as int] == '\u{1}');
    }
    assert(a =~= whole.take(a.len() as int));
    assert(b =~= whole.take(b.len() as int));
    assert(rest_a =~= whole.skip(a.len() as int + 1));
    assert(rest_b =~= whole.skip(b.len() as int + 1));
}

/// A response that is given again.
#[derive(Debug)]
pub struct Replay<S = String> {
    pub status: u16,
    pub body: S,
}

impl View for Replay {
    type V = Replay<Seq<char>>;

    open spec fn view(&self) -> Replay<Seq<char>> {
        Replay { status: self.status, body: self.body@ }
    }
}

/// Where a remembered response stands.
#[derive(Debug)]
pub enum Remembered<S = String> {
    /// Nothing is remembered: the request is carried out.
    Nothing,
    /// The response is given again.
    Again(Replay<S>),
}

impl View for Remembered {
    type V = Remembered<Seq<char>>;

    open spec fn view(&self) -> Remembered<Seq<char>> {
        match self {
            Remembered::Nothing => Remembered::Nothing,
            Remembered::Again(replay) => Remembered::Again(replay@),
        }
    }
}

/// Asks for what is remembered under a hash.
#[derive(Debug)]
pub struct LookUp<S = String> {
    pub key_hash: S,
}

impl View for LookUp {
    type V = LookUp<Seq<char>>;

    open spec fn view(&self) -> LookUp<Seq<char>> {
        LookUp { key_hash: self.key_hash@ }
    }
}

/// A status as it can be sent.
pub open spec fn sendable_status(status: u16) -> u16 {
    if 100 <= status <= 999 {
        status
    } else {
        200
    }
}

/// The body of a response that is given again. `reading` is what the stored body comes to
/// as JSON, if it is JSON.
pub open spec fn replayed_body(reading: Option<Seq<char>>) -> Seq<char> {
    match reading {
        Some(value) => value,
        None => "null"@,
    }
}

/// The response that is given again.
pub open spec fn replayed(
    response: IdempotentResponse<Seq<char>>,
    reading: Option<Seq<char>>,
) -> Replay<Seq<char>> {
    Replay { status: sendable_status(response.status), body: replayed_body(reading) }
}

/// The response that is given again, given what the stored body comes to as JSON. A body
/// that is none is answered with `null`.
pub fn replay(response: &IdempotentResponse, reading: Option<String>) -> (again: Replay)
    ensures
        again@ == replayed(response@, option_view(reading)),
{
    let status: u16 = if 100 <= response.status && response.status <= 999 {
        response.status
    } else {
        200
    };
    let body: String = match reading {
        Some(value) => value,
        None => "null".to_owned(),
    };
    Replay { status, body }
}

/// What a key comes to. `hash` is what the key is remembered under, and `body_hash` the
/// digest of the request's body.
pub open spec fn looked_up(
    hash: Option<Seq<char>>,
    body_hash: Seq<char>,
    existing: Option<Option<IdempotentResponse<Seq<char>>>>,
) -> StepModel<LookUp<Seq<char>>, Remembered<Seq<char>>> {
    match hash {
        None => StepModel::Done(Remembered::Nothing),
        Some(hash) => match existing {
            None => StepModel::Ask(LookUp { key_hash: hash }),
            Some(None) => StepModel::Done(Remembered::Nothing),
            Some(Some(response)) => if response.request_hash != body_hash {
                StepModel::Refuse(
                    Refusal::new(
                        409,
                        code::IDEMPOTENCY_KEY_CONFLICT@,
                        "this Idempotency-Key was already used with a different request body"@,
                    ),
                )
            } else {
                StepModel::Done(Remembered::Again(replayed(response, json_value(response.body))))
            },
        },
    }
}

/// A response that was remembered as it was written is given again as it is, status and
/// body.
pub open spec fn answered_alike(
    hash: Option<Seq<char>>,
    body_hash: Seq<char>,
    existing: Option<Option<IdempotentResponse<Seq<char>>>>,
    step: StepModel<LookUp<Seq<char>>, Remembered<Seq<char>>>,
) -> bool {
    match existing {
        Some(Some(response)) => {
            hash is Some && response.request_hash == body_hash && is_written(response.body, 2)
                && 100 <= response.status <= 999 ==> step == StepModel::<
                LookUp<Seq<char>>,
                Remembered<Seq<char>>,
            >::Done(Remembered::Again(Replay { status: response.status, body: response.body }))
        },
        _ => true,
    }
}

/// Decides on a remembered response, given what the key and the body hash to.
pub fn recall(
    hash: &Option<String>,
    body_hash: &str,
    existing: &Option<Option<IdempotentResponse>>,
) -> (step: Step<LookUp, Remembered>)
    ensures
        step_view(step) == looked_up(
            option_view(*hash),
            body_hash@,
            match existing {
                Some(response) => Some(option_view(*response)),
                None => None,
            },
        ),
        answered_alike(
            option_view(*hash),
            body_hash@,
            match existing {
                Some(response) => Some(option_view(*response)),
                None => None,
            },
            step_view(step),
        ),
{
    let hash = match hash {
        Some(hash) => hash,
        None => return Step::Done(Remembered::Nothing),
    };
    match existing {
        None => Step::Ask(LookUp { key_hash: hash.as_str().to_owned() }),
        Some(None) => Step::Done(Remembered::Nothing),
        Some(Some(response)) => {
            if !text::same(response.request_hash.as_str(), body_hash) {
                return Step::Refuse(
                    ApiError::new(
                        409,
                        code::IDEMPOTENCY_KEY_CONFLICT,
                        "this Idempotency-Key was already used with a different request body",
                    ),
                );
            }
            let reading = json::reread(response.body.as_str());
            Step::Done(Remembered::Again(replay(response, reading)))
        },
    }
}

/// Finds a response that was remembered for this key, if any. A request without a key
/// has none.
pub fn lookup(
    scope: &str,
    method: &str,
    path: &str,
    key: &Option<String>,
    body: &[u8],
    existing: &Option<Option<IdempotentResponse>>,
) -> (step: Step<LookUp, Remembered>)
    ensures
        step_view(step) == looked_up(
            match option_view(*key) {
                Some(key) => Some(
                    digest_hex(encode_utf8(key_input(scope@, method@, path@, key))),
                ),
                None => None,
            },
            digest_hex(body@),
            match existing {
                Some(response) => Some(option_view(*response)),
                None => None,
            },
        ),
        answered_alike(
            match option_view(*key) {
                Some(key) => Some(
                    digest_hex(encode_utf8(key_input(scope@, method@, path@, key))),
                ),
                None => None,
            },
            digest_hex(body@),
            match existing {
                Some(response) => Some(option_view(*response)),
                None => None,
            },
            step_view(step),
        ),
{
    let hash = match key {
        Some(key) => Some(key_hash(scope, method, path, key.as_str())),
        None => None,
    };
    recall(&hash, sha256_hex(body).as_str(), existing)
}

/// What is remembered of a response, and under which hash.
pub open spec fn remembered(
    scope: Seq<char>,
    method: Seq<char>,
    path: Seq<char>,
    key: Option<Seq<char>>,
    body: Seq<u8>,
    status: u16,
    response: Seq<char>,
) -> Option<(Seq<char>, IdempotentResponse<Seq<char>>)> {
    match key {
        None => None,
        Some(key) => Some(
            (
                digest_hex(encode_utf8(key_input(scope, method, path, key))),
                IdempotentResponse { request_hash: digest_hex(body), status, body: response },
            ),
        ),
    }
}

/// What to remember of a response, and under which hash. Of a request without a key
/// nothing is remembered.
pub fn store(
    scope: &str,
    method: &str,
    path: &str,
    key: &Option<String>,
    body: &[u8],
    status: u16,
    response: &str,
) -> (record: Option<(String, IdempotentResponse)>)
    ensures
        (match record {
            Some((hash, response)) => Some((hash@, response@)),
            None => None,
        }) == remembered(scope@, method@, path@, option_view(*key), body@, status, response@),
{
    match key {
        None => None,
        Some(key) => Some(
            (
                key_hash(scope, method, path, key.as_str()),
                IdempotentResponse {
                    request_hash: sha256_hex(body),
                    status,
                    body: response.to_owned(),
                },
            ),
        ),
    }
}

/// What is remembered of a response is what is given again: a retry with the same key and
/// body gets the same status and body, under the hash that the response was remembered
/// under. The response is JSON as it is written; anything else would be given again as it
/// reads.
pub proof fn law_retries_are_answered_alike(
    scope: Seq<char>,
    method: Seq<char>,
    path: Seq<char>,
    key: Seq<char>,
    body: Seq<u8>,
    status: u16,
    response: Seq<char>,
)
    requires
        100 <= status <= 999,
        json_value(response) == Some(response),
    ensures
        ({
            let (hash, record) = remembered(
                scope,
                method,
                path,
                Some(key),
                body,
                status,
                response,
            )->0;
            &&& looked_up(Some(hash), digest_hex(body), None) == StepModel::<
                LookUp<Seq<char>>,
                Remembered<Seq<char>>,
            >::Ask(LookUp { key_hash: hash })
            &&& looked_up(Some(hash), digest_hex(body), Some(Some(record))) == StepModel::<
                LookUp<Seq<char>>,
                Remembered<Seq<char>>,
            >::Done(Remembered::Again(Replay { status, body: response }))
        }),
{
}

/// A key that comes again with another body is a conflict, as long as the digests tell the
/// two bodies apart.
pub proof fn law_reused_keys_conflict(
    hash: Seq<char>,
    record: IdempotentResponse<Seq<char>>,
    body: Seq<u8>,
)
    requires
        record.request_hash != digest_hex(body),
    ensures
        looked_up(Some(hash), digest_hex(body), Some(Some(record))) is Refuse,
{
}

} // verus!
