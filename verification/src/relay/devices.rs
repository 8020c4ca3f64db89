//! Device registration, listing and revocation.

use crate::ed25519::{ed25519_accepts, ed25519_valid_key};
use crate::encoding::{b64_decode, base64url, decoded};
use crate::ids::{uuid_text, Uuid};
use crate::json;
use crate::json::{
    comes_first, comes_first_at, is_name, is_written, json_string, list_text, object_text,
    text_or_null, truth_text,
};
use crate::publisher::crypto::fingerprint_text;
use crate::relay::auth::{
    answer_view, binding_of, check_claim, claim_fault, disabled, missing_scope, not_an_identity,
    signing_bytes, Auth, ClaimChallenge, KeyInput,
};
use crate::relay::crypto::{
    admitted_key, DeviceRole, KeyModel, Operation, PrincipalKind, PublicKey, ALGORITHM_ED25519,
};
use crate::relay::error::{code, outcome, ApiError, ApiResult, Refusal};
use crate::relay::idempotency::{device_subject, Remembered, Replay, Subject};
use crate::relay::repo::{read_cursor, ChallengeClaim, Cursor, Device};
use crate::relay::step::{step_view, Step, StepModel};
use crate::text;
use crate::text::{lowered, option_view, signed_decimal, texts, trimmed};
use vstd::prelude::*;
use vstd::utf8::*;

verus! {

/// The moments of a device, in words.
#[derive(Debug)]
pub struct DeviceTimes<S = String> {
    pub created_at: S,
    pub last_seen_at: Option<S>,
    pub revoked_at: Option<S>,
}

impl View for DeviceTimes {
    type V = DeviceTimes<Seq<char>>;

    open spec fn view(&self) -> DeviceTimes<Seq<char>> {
        DeviceTimes {
            created_at: self.created_at@,
            last_seen_at: option_view(self.last_seen_at),
            revoked_at: option_view(self.revoked_at),
        }
    }
}

/// The members of a device's description.
pub open spec fn device_members(
    device: Device<Seq<char>, Seq<u8>>,
    times: DeviceTimes<Seq<char>>,
    connected: bool,
    open_supported: bool,
) -> Seq<(Seq<char>, Seq<char>)> {
    seq![
        ("created_at"@, json_string(times.created_at)),
        ("device_id"@, json_string(uuid_text(device.device_id.value))),
        ("identity_id"@, json_string(device.identity_id)),
        (
            "key"@,
            object_text(
                seq![
                    ("algorithm"@, json_string(device.algorithm)),
                    ("fingerprint"@, json_string(device.key_fingerprint)),
                ],
            ),
        ),
        ("last_seen_at"@, text_or_null(times.last_seen_at)),
        ("name"@, json_string(device.name)),
        ("publisher_connected"@, truth_text(connected)),
        ("revoked_at"@, text_or_null(times.revoked_at)),
        ("role"@, json_string(device.role.word())),
        ("terminal_open_supported"@, truth_text(open_supported)),
    ]
}

proof fn lemma_names()
    ensures
        is_name("created_at"@),
        is_name("device_id"@),
        is_name("identity_id"@),
        is_name("key"@),
        is_name("last_seen_at"@),
        is_name("name"@),
        is_name("publisher_connected"@),
        is_name("revoked_at"@),
        is_name("role"@),
        is_name("terminal_open_supported"@),
        is_name("algorithm"@),
        is_name("fingerprint"@),
        comes_first("created_at"@, "device_id"@),
        comes_first("device_id"@, "identity_id"@),
        comes_first("identity_id"@, "key"@),
        comes_first("key"@, "last_seen_at"@),
        comes_first("last_seen_at"@, "name"@),
        comes_first("name"@, "publisher_connected"@),
        comes_first("publisher_connected"@, "revoked_at"@),
        comes_first("revoked_at"@, "role"@),
        comes_first("role"@, "terminal_open_supported"@),
        comes_first("algorithm"@, "fingerprint"@),
{
    reveal_strlit("created_at");
    reveal_strlit("device_id");
    reveal_strlit("identity_id");
    reveal_strlit("key");
    reveal_strlit("last_seen_at");
    reveal_strlit("name");
    reveal_strlit("publisher_connected");
    reveal_strlit("revoked_at");
    reveal_strlit("role");
    reveal_strlit("terminal_open_supported");
    reveal_strlit("algorithm");
    reveal_strlit("fingerprint");
    assert(is_name("created_at"@));
    assert(is_name("device_id"@));
    assert(is_name("identity_id"@));
    assert(is_name("key"@));
    assert(is_name("last_seen_at"@));
    assert(is_name("name"@));
    assert(is_name("publisher_connected"@));
    assert(is_name("revoked_at"@));
    assert(is_name("role"@));
    assert(is_name("terminal_open_supported"@));
    assert(is_name("algorithm"@));
    assert(is_name("fingerprint"@));
    assert("created_at"@.take(0) =~= "device_id"@.take(0));
    assert(comes_first_at("created_at"@, "device_id"@, 0));
    assert("device_id"@.take(0) =~= "identity_id"@.take(0));
    assert(comes_first_at("device_id"@, "identity_id"@, 0));
    assert("identity_id"@.take(0) =~= "key"@.take(0));
    assert(comes_first_at("identity_id"@, "key"@, 0));
    assert("key"@.take(0) =~= "last_seen_at"@.take(0));
    assert(comes_first_at("key"@, "last_seen_at"@, 0));
    assert("last_seen_at"@.take(0) =~= "name"@.take(0));
    assert(comes_first_at("last_seen_at"@, "name"@, 0));
    assert("name"@.take(0) =~= "publisher_connected"@.take(0));
    assert(comes_first_at("name"@, "publisher_connected"@, 0));
    assert("publisher_connected"@.take(0) =~= "revoked_at"@.take(0));
    assert(comes_first_at("publisher_connected"@, "revoked_at"@, 0));
    assert("revoked_at"@.take(1) =~= "role"@.take(1));
    assert(comes_first_at("revoked_at"@, "role"@, 1));
    assert("role"@.take(0) =~= "terminal_open_supported"@.take(0));
    assert(comes_first_at("role"@, "terminal_open_supported"@, 0));
    assert("algorithm"@.take(0) =~= "fingerprint"@.take(0));
    assert(comes_first_at("algorithm"@, "fingerprint"@, 0));
}

/// A device's description is JSON as it is written.
proof fn lemma_device_is_written(
    device: Device<Seq<char>, Seq<u8>>,
    times: DeviceTimes<Seq<char>>,
    connected: bool,
    open_supported: bool,
)
    ensures
        is_written(
            object_text(device_members(device, times, connected, open_supported)),
            2,
        ),
{
    let list = device_members(device, times, connected, open_supported);
    let key = seq![
        ("algorithm"@, json_string(device.algorithm)),
        ("fingerprint"@, json_string(device.key_fingerprint)),
    ];
    lemma_names();
    json::lemma_values_are_written(0);
    json::lemma_values_are_written(1);
    assert(key[0].0 == "algorithm"@ && key[1].0 == "fingerprint"@);
    assert(json::are_written(key, 0));
    json::lemma_object_is_written(key, 0);
    assert(list[3].1 == object_text(key));
    assert(json::are_written(list, 1));
    json::lemma_object_is_written(list, 1);
}

/// Describes a device. It says whether asking the machine for a terminal could work at
/// all, so that a phone need not find out from a refusal.
pub fn device_json(
    device: &Device,
    times: &DeviceTimes,
    connected: bool,
    create_enabled: bool,
    publisher_supports_open: bool,
) -> (json: String)
    ensures
        json@ == object_text(
            device_members(device@, times@, connected, create_enabled && publisher_supports_open),
        ),
        is_written(json@, 2),
{
    let key = vec![
        json::member("algorithm", json::string(device.algorithm.as_str())),
        json::member("fingerprint", json::string(device.key_fingerprint.as_str())),
    ];
    let list = vec![
        json::member("created_at", json::string(times.created_at.as_str())),
        json::member("device_id", json::string(device.device_id.to_text().as_str())),
        json::member("identity_id", json::string(device.identity_id.as_str())),
        json::member("key", json::object(&key)),
        json::member("last_seen_at", json::optional(&times.last_seen_at)),
        json::member("name", json::string(device.name.as_str())),
        json::member("publisher_connected", json::truth(connected)),
        json::member("revoked_at", json::optional(&times.revoked_at)),
        json::member("role", json::string(device.role.as_str())),
        json::member(
            "terminal_open_supported",
            json::truth(create_enabled && publisher_supports_open),
        ),
    ];
    proof {
        lemma_device_is_written(
            device@,
            times@,
            connected,
            create_enabled && publisher_supports_open,
        );
        assert(json::member_views(key@) =~= seq![
            ("algorithm"@, json_string(device.algorithm@)),
            ("fingerprint"@, json_string(device.key_fingerprint@)),
        ]);
        assert(json::member_views(list@) =~= device_members(
            device@,
            times@,
            connected,
            create_enabled && publisher_supports_open,
        ));
    }
    json::object(&list)
}

/// A request to register a device.
#[derive(Debug)]
pub struct RegisterDeviceRequest {
    pub name: String,
    pub key: KeyInput,
    pub challenge_id: String,
    /// Signature made by the proposed device key over the challenge.
    pub device_signature: String,
    /// `publisher`, `client` or `both`. A request that names none is a publisher's.
    pub role: Option<String>,
}

/// What governs the registration of devices.
#[derive(Debug)]
pub struct DeviceSettings {
    pub enabled: bool,
    pub max_name_bytes: usize,
    pub max_devices: i64,
    pub supported_algorithms: Vec<String>,
    pub origin: String,
}

/// The answers to what registering a device needs to know.
#[derive(Debug)]
pub struct DeviceAnswers {
    pub remembered: Option<ApiResult<Remembered>>,
    pub claim: Option<ChallengeClaim>,
    /// The device that already has this key, if there is one.
    pub existing: Option<Option<Uuid>>,
    /// How many devices the identity has that are not revoked.
    pub count: Option<i64>,
}

/// What registering a device still needs to know.
#[derive(Debug)]
pub enum DeviceQuestion<S = String> {
    /// What is remembered under the request's idempotency key.
    Remembered(Subject<S>),
    Claim(ClaimChallenge<S>),
    /// The device with this key.
    DeviceByFingerprint(S),
    /// How many devices this identity has that are not revoked.
    Count(S),
}

impl View for DeviceQuestion {
    type V = DeviceQuestion<Seq<char>>;

    open spec fn view(&self) -> DeviceQuestion<Seq<char>> {
        match self {
            DeviceQuestion::Remembered(subject) => DeviceQuestion::Remembered(subject@),
            DeviceQuestion::Claim(claim) => DeviceQuestion::Claim(claim@),
            DeviceQuestion::DeviceByFingerprint(fingerprint) => DeviceQuestion::DeviceByFingerprint(
                fingerprint@,
            ),
            DeviceQuestion::Count(identity) => DeviceQuestion::Count(identity@),
        }
    }
}

/// How the registration of a device ends.
#[derive(Debug)]
pub enum DeviceOutcome<S = String, K = PublicKey> {
    /// As it ended before.
    Again(Replay<S>),
    /// With this device, which has to be inserted.
    Register { name: S, role: DeviceRole, key: K },
}

impl View for DeviceOutcome {
    type V = DeviceOutcome<Seq<char>, KeyModel>;

    open spec fn view(&self) -> DeviceOutcome<Seq<char>, KeyModel> {
        match self {
            DeviceOutcome::Again(replay) => DeviceOutcome::Again(replay@),
            DeviceOutcome::Register { name, role, key } => DeviceOutcome::Register {
                name: name@,
                role: *role,
                key: key@,
            },
        }
    }
}

/// What a device is registered with.
pub struct Proposal {
    pub name: Seq<char>,
    pub role: DeviceRole,
    pub key: KeyModel,
    pub challenge_id: Seq<char>,
    pub signature: Seq<u8>,
}

/// The role that a request asks for.
pub open spec fn requested_role(role: Option<Seq<char>>) -> Result<DeviceRole, Refusal> {
    match role {
        None => Ok(DeviceRole::Publisher),
        Some(word) => if word == DeviceRole::Publisher.word() {
            Ok(DeviceRole::Publisher)
        } else if word == DeviceRole::Client.word() {
            Ok(DeviceRole::Client)
        } else if word == DeviceRole::Both.word() {
            Ok(DeviceRole::Both)
        } else {
            Err(Refusal::validation("role must be publisher, client, or both"@))
        },
    }
}

/// What a request to register a device reads as. `name` is its name without the white
/// space around it, `key` what its key comes to, and `signature` what its signature
/// decodes to.
pub open spec fn proposal(
    name: Seq<char>,
    max_name_bytes: usize,
    role: Option<Seq<char>>,
    key: Result<KeyModel, Refusal>,
    challenge_id: Seq<char>,
    signature: Option<Seq<u8>>,
) -> Result<Proposal, Refusal> {
    if name.len() == 0 || encode_utf8(name).len() > max_name_bytes {
        Err(Refusal::validation("name must be non-empty and within the configured length"@))
    } else {
        match requested_role(role) {
            Err(refusal) => Err(refusal),
            Ok(role) => match key {
                Err(refusal) => Err(refusal),
                Ok(key) => match signature {
                    None => Err(Refusal::invalid("device_signature must be base64url-encoded"@)),
                    Some(signature) => Ok(Proposal { name, role, key, challenge_id, signature }),
                },
            },
        }
    }
}

/// The refusal of a challenge that is not for this registration.
pub open spec fn invalid_challenge(message: Seq<char>) -> Refusal {
    Refusal::new(401, code::CHALLENGE_INVALID@, message)
}

/// What is wrong with the challenge of a registration, if anything is, given whether it
/// was signed with the proposed key. It has to be bound to the identity that asks and to
/// exactly the proposed key.
pub open spec fn registration_fault(
    claim: ChallengeClaim<Seq<char>, Seq<u8>>,
    identity_id: Seq<char>,
    fingerprint: Seq<char>,
    signature_is_good: bool,
) -> Option<Refusal> {
    match claim {
        ChallengeClaim::Claimed(record) => if record.operation != Operation::RegisterDevice {
            Some(invalid_challenge("challenge was not issued for register_device"@))
        } else if record.owner_identity_id != Some(identity_id) {
            Some(invalid_challenge("challenge is bound to a different owner identity"@))
        } else if record.device_key_fingerprint != Some(fingerprint) || record.key_fingerprint
            != fingerprint {
            Some(invalid_challenge("challenge is bound to a different device key"@))
        } else if !signature_is_good {
            Some(
                Refusal::new(
                    401,
                    code::SIGNATURE_INVALID@,
                    "device_signature does not verify against the challenge"@,
                ),
            )
        } else {
            None
        },
        _ => claim_fault(claim),
    }
}

/// Whether a challenge was signed with the proposed key.
pub open spec fn proposal_signed(
    proposal: Proposal,
    claim: ChallengeClaim<Seq<char>, Seq<u8>>,
    origin: Seq<char>,
) -> bool {
    &&& claim is Claimed
    &&& proposal.key.algorithm == ALGORITHM_ED25519@
    &&& proposal.key.bytes.len() == 32
    &&& proposal.signature.len() == 64
    &&& ed25519_accepts(
        proposal.key.bytes,
        binding_of(claim->Claimed_0, origin).signed_bytes(),
        proposal.signature,
    )
}

/// A registration and what it needs to know.
pub type DeviceStep = StepModel<DeviceQuestion<Seq<char>>, DeviceOutcome<Seq<char>, KeyModel>>;

/// What a registration comes to once its challenge is good: the key must not be
/// registered yet, and the identity must have room for a device.
pub open spec fn settled_device(
    identity_id: Seq<char>,
    name: Seq<char>,
    role: DeviceRole,
    key: KeyModel,
    fingerprint: Seq<char>,
    max_devices: i64,
    existing: Option<Option<Uuid>>,
    count: Option<i64>,
) -> DeviceStep {
    match existing {
        None => StepModel::Ask(DeviceQuestion::DeviceByFingerprint(fingerprint)),
        Some(Some(device)) => StepModel::Refuse(
            Refusal::conflict(
                "this device key is already registered as device "@ + uuid_text(device.value),
            ),
        ),
        Some(None) => match count {
            None => StepModel::Ask(DeviceQuestion::Count(identity_id)),
            Some(count) => if count >= max_devices {
                StepModel::Refuse(
                    Refusal::limit_exceeded(
                        "identity already owns "@ + signed_decimal(count as int)
                            + " devices, the limit is "@ + signed_decimal(max_devices as int),
                    ),
                )
            } else {
                StepModel::Done(DeviceOutcome::Register { name, role, key })
            },
        },
    }
}

/// What a registration comes to once its request has been read.
pub open spec fn proposed_device(
    proposal: Proposal,
    identity_id: Seq<char>,
    origin: Seq<char>,
    max_devices: i64,
    claim: Option<ChallengeClaim<Seq<char>, Seq<u8>>>,
    existing: Option<Option<Uuid>>,
    count: Option<i64>,
) -> DeviceStep {
    let fingerprint = fingerprint_text(proposal.key.algorithm, proposal.key.bytes);
    match claim {
        None => StepModel::Ask(
            DeviceQuestion::Claim(ClaimChallenge { challenge_id: proposal.challenge_id }),
        ),
        Some(claim) => match registration_fault(
            claim,
            identity_id,
            fingerprint,
            proposal_signed(proposal, claim, origin),
        ) {
            Some(refusal) => StepModel::Refuse(refusal),
            None => settled_device(
                identity_id,
                proposal.name,
                proposal.role,
                proposal.key,
                fingerprint,
                max_devices,
                existing,
                count,
            ),
        },
    }
}

/// What a request to register a device comes to. `request` is what it reads as, where it
/// could be read at all.
pub open spec fn registered_device(
    auth: Auth<Seq<char>, Seq<Seq<char>>>,
    enabled: bool,
    remembered: Option<Result<Remembered<Seq<char>>, Refusal>>,
    request: Result<Proposal, Refusal>,
    origin: Seq<char>,
    max_devices: i64,
    claim: Option<ChallengeClaim<Seq<char>, Seq<u8>>>,
    existing: Option<Option<Uuid>>,
    count: Option<i64>,
) -> DeviceStep {
    if auth.kind != PrincipalKind::Identity {
        StepModel::Refuse(not_an_identity())
    } else if !auth.scopes.contains("devices:write"@) {
        StepModel::Refuse(missing_scope("devices:write"@))
    } else if !enabled {
        StepModel::Refuse(disabled("device registration is disabled"@))
    } else {
        match remembered {
            None => StepModel::Ask(DeviceQuestion::Remembered(device_subject(auth.identity_id))),
            Some(Err(refusal)) => StepModel::Refuse(refusal),
            Some(Ok(Remembered::Again(replay))) => StepModel::Done(DeviceOutcome::Again(replay)),
            Some(Ok(Remembered::Nothing)) => match request {
                Err(refusal) => StepModel::Refuse(refusal),
                Ok(proposal) => proposed_device(
                    proposal,
                    auth.identity_id,
                    origin,
                    max_devices,
                    claim,
                    existing,
                    count,
                ),
            },
        }
    }
}

/// What a request's role comes to.
fn read_role(role: &Option<String>) -> (result: ApiResult<DeviceRole>)
    ensures
        match result {
            Ok(role_read) => requested_role(option_view(*role)) == Ok::<DeviceRole, Refusal>(
                role_read,
            ),
            Err(error) => requested_role(option_view(*role)) == Err::<DeviceRole, Refusal>(error@),
        },
{
    proof {
        assert forall|a: DeviceRole, b: DeviceRole| #[trigger] a.word() == #[trigger] b.word()
            implies a == b by {
            crate::relay::crypto::law_role_words_differ(a, b);
        }
    }
    match role {
        None => Ok(DeviceRole::Publisher),
        Some(word) => match DeviceRole::parse(word.as_str()) {
            Some(role) => Ok(role),
            None => Err(ApiError::validation("role must be publisher, client, or both")),
        },
    }
}

/// The view of a request that could be read, once its parts have been looked at.
pub open spec fn request_proposal(
    request: ApiResult<RegisterDeviceRequest>,
    settings: DeviceSettings,
) -> Result<Proposal, Refusal> {
    match request {
        Err(error) => Err(error@),
        Ok(request) => proposal(
            trimmed(request.name@),
            settings.max_name_bytes,
            option_view(request.role),
            admitted_key(
                lowered(trimmed(request.key.algorithm@)),
                texts(settings.supported_algorithms@),
                decoded(request.key.public_key@),
                decoded(request.key.public_key@) is Some && ed25519_valid_key(
                    decoded(request.key.public_key@)->0,
                ),
            ),
            request.challenge_id@,
            decoded(request.device_signature@),
        ),
    }
}

/// Decides on the challenge of a registration.
pub fn check_registration(
    claim: &ChallengeClaim,
    identity_id: &str,
    fingerprint: &str,
    signature_is_good: bool,
) -> (result: ApiResult<()>)
    ensures
        outcome(result) == (match registration_fault(
            claim@,
            identity_id@,
            fingerprint@,
            signature_is_good,
        ) {
            Some(refusal) => Err::<(), Refusal>(refusal),
            None => Ok::<(), Refusal>(()),
        }),
{
    let record = match claim {
        ChallengeClaim::Claimed(record) => record,
        _ => return check_claim(claim),
    };
    match record.operation {
        Operation::RegisterDevice => {},
        _ => return Err(
            ApiError::new(
                401,
                code::CHALLENGE_INVALID,
                "challenge was not issued for register_device",
            ),
        ),
    }
    let owner_matches: bool = match &record.owner_identity_id {
        Some(owner) => text::same(owner.as_str(), identity_id),
        None => false,
    };
    if !owner_matches {
        return Err(
            ApiError::new(
                401,
                code::CHALLENGE_INVALID,
                "challenge is bound to a different owner identity",
            ),
        );
    }
    let device_matches: bool = match &record.device_key_fingerprint {
        Some(device) => text::same(device.as_str(), fingerprint),
        None => false,
    };
    if !device_matches || !text::same(record.key_fingerprint.as_str(), fingerprint) {
        return Err(
            ApiError::new(
                401,
                code::CHALLENGE_INVALID,
                "challenge is bound to a different device key",
            ),
        );
    }
    if !signature_is_good {
        return Err(
            ApiError::new(
                401,
                code::SIGNATURE_INVALID,
                "device_signature does not verify against the challenge",
            ),
        );
    }
    Ok(())
}

/// Settles a registration whose challenge is good. `fingerprint` is that of the key.
pub fn settle_device(
    identity_id: &str,
    name: String,
    role: DeviceRole,
    key: PublicKey,
    fingerprint: String,
    max_devices: i64,
    existing: Option<Option<Uuid>>,
    count: Option<i64>,
) -> (step: Step<DeviceQuestion, DeviceOutcome>)
    ensures
        step_view(step) == settled_device(
            identity_id@,
            name@,
            role,
            key@,
            fingerprint@,
            max_devices,
            existing,
            count,
        ),
{
    match existing {
        None => return Step::Ask(DeviceQuestion::DeviceByFingerprint(fingerprint)),
        Some(Some(device)) => {
            let words = "this device key is already registered as device ".to_owned().concat(
                device.to_text().as_str(),
            );
            return Step::Refuse(ApiError::conflict(words.as_str()));
        },
        Some(None) => {},
    }
    match count {
        None => Step::Ask(DeviceQuestion::Count(identity_id.to_owned())),
        Some(count) => {
            if count >= max_devices {
                let words = "identity already owns ".to_owned().concat(
                    text::signed_of(count as i128).as_str(),
                ).concat(" devices, the limit is ").concat(
                    text::signed_of(max_devices as i128).as_str(),
                );
                return Step::Refuse(ApiError::limit_exceeded(words.as_str()));
            }
            Step::Done(DeviceOutcome::Register { name, role, key })
        },
    }
}

/// Registers a device under an identity. Two parties act: the identity's token authorises
/// the request, and the device's own key signs a challenge that is bound to that identity
/// and to that key. That is what makes registering someone else's key impossible.
pub fn register(
    auth: &Auth,
    settings: &DeviceSettings,
    request: &ApiResult<RegisterDeviceRequest>,
    answers: &DeviceAnswers,
) -> (step: Step<DeviceQuestion, DeviceOutcome>)
    ensures
        step_view(step) == registered_device(
            auth@,
            settings.enabled,
            answer_view(answers.remembered),
            request_proposal(*request, *settings),
            settings.origin@,
            settings.max_devices,
            option_view(answers.claim),
            answers.existing,
            answers.count,
        ),
{
    match auth.require_identity() {
        Ok(()) => {},
        Err(error) => return Step::Refuse(error),
    }
    match auth.require_scope("devices:write") {
        Ok(()) => {},
        Err(error) => return Step::Refuse(error),
    }
    if !settings.enabled {
        return Step::Refuse(
            ApiError::new(403, code::FEATURE_DISABLED, "device registration is disabled"),
        );
    }
    match &answers.remembered {
        None => return Step::Ask(
            DeviceQuestion::Remembered(Subject::device(auth.identity_id.as_str())),
        ),
        Some(Err(error)) => return Step::Refuse(error.copy()),
        Some(Ok(Remembered::Again(replay))) => return Step::Done(
            DeviceOutcome::Again(
                Replay { status: replay.status, body: replay.body.as_str().to_owned() },
            ),
        ),
        Some(Ok(Remembered::Nothing)) => {},
    }
    let request = match request {
        Ok(request) => request,
        Err(error) => return Step::Refuse(error.copy()),
    };
    let name = text::trim(request.name.as_str());
    if name.as_str().is_empty() || name.as_str().as_bytes().len() > settings.max_name_bytes {
        return Step::Refuse(
            ApiError::validation("name must be non-empty and within the configured length"),
        );
    }
    let role = match read_role(&request.role) {
        Ok(role) => role,
        Err(error) => return Step::Refuse(error),
    };
    let key = match PublicKey::parse(
        request.key.algorithm.as_str(),
        request.key.public_key.as_str(),
        settings.supported_algorithms.as_slice(),
    ) {
        Ok(key) => key,
        Err(error) => return Step::Refuse(error),
    };
    let signature = match b64_decode(request.device_signature.as_str()) {
        Some(signature) => signature,
        None => return Step::Refuse(
            ApiError::invalid("device_signature must be base64url-encoded"),
        ),
    };
    let claim = match &answers.claim {
        Some(claim) => claim,
        None => return Step::Ask(
            DeviceQuestion::Claim(
                ClaimChallenge { challenge_id: request.challenge_id.as_str().to_owned() },
            ),
        ),
    };
    let fingerprint = key.fingerprint();
    let signature_is_good: bool = match claim {
        ChallengeClaim::Claimed(record) => {
            let message = signing_bytes(record, settings.origin.as_str());
            key.verify(message.as_slice(), signature.as_slice())
        },
        _ => false,
    };
    match check_registration(
        claim,
        auth.identity_id.as_str(),
        fingerprint.as_str(),
        signature_is_good,
    ) {
        Ok(()) => {},
        Err(error) => return Step::Refuse(error),
    }
    settle_device(
        auth.identity_id.as_str(),
        name,
        role,
        key,
        fingerprint,
        settings.max_devices,
        answers.existing,
        answers.count,
    )
}

/// Nobody registers a key that is not theirs, or for an identity that is not theirs: a
/// device is only registered under the identity that asks, for a challenge that was
/// handed out for that identity and that key, and only if that key signed it.
pub proof fn law_devices_sign_their_own_registration(
    proposal: Proposal,
    identity_id: Seq<char>,
    origin: Seq<char>,
    max_devices: i64,
    claim: Option<ChallengeClaim<Seq<char>, Seq<u8>>>,
    existing: Option<Option<Uuid>>,
    count: Option<i64>,
)
    requires
        proposed_device(
            proposal,
            identity_id,
            origin,
            max_devices,
            claim,
            existing,
            count,
        ) is Done,
    ensures
        claim matches Some(ChallengeClaim::Claimed(record)) && record.operation
            == Operation::RegisterDevice && record.owner_identity_id == Some(identity_id)
            && record.key_fingerprint == fingerprint_text(
            proposal.key.algorithm,
            proposal.key.bytes,
        ) && ed25519_accepts(
            proposal.key.bytes,
            binding_of(record, origin).signed_bytes(),
            proposal.signature,
        ),
        existing == Some(None::<Uuid>),
        count is Some && count->0 < max_devices,
{
}

/// The page size that a request gets.
pub open spec fn page_size(requested: Option<i64>, default: i64, max: i64) -> Result<i64, Refusal> {
    match requested {
        None => Ok(
            if default < max {
                default
            } else {
                max
            },
        ),
        Some(limit) => if 1 <= limit <= max {
            Ok(limit)
        } else {
            Err(
                Refusal::validation(
                    "limit must be between 1 and "@ + signed_decimal(max as int),
                ),
            )
        },
    }
}

/// The page size that a request gets: what it asks for within the limit, or the default.
pub fn resolve_limit(requested: Option<i64>, default: i64, max: i64) -> (result: ApiResult<i64>)
    ensures
        outcome(result) == page_size(requested, default, max),
{
    match requested {
        None => Ok(
            if default < max {
                default
            } else {
                max
            },
        ),
        Some(limit) => {
            if limit >= 1 && limit <= max {
                Ok(limit)
            } else {
                let words = "limit must be between 1 and ".to_owned().concat(
                    text::signed_of(max as i128).as_str(),
                );
                Err(ApiError::validation(words.as_str()))
            }
        },
    }
}

/// One more row than the page holds is asked for, which tells whether there is another
/// page. Returns the number of rows on this page if there is one. A limit below zero
/// holds nothing back.
pub fn page_end(found: usize, limit: i64) -> (end: Option<usize>)
    ensures
        end == (if found <= limit {
            None
        } else if limit < 0 {
            Some(found)
        } else {
            Some(limit as usize)
        }),
{
    if limit < 0 {
        Some(found)
    } else if found as u64 > limit as u64 {
        Some(limit as usize)
    } else {
        None
    }
}

/// One row of a list: its description, as JSON, and what a cursor is made of.
#[derive(Debug)]
pub struct PageRow<S = String> {
    pub json: S,
    pub created_at: S,
    pub id: S,
}

impl View for PageRow {
    type V = PageRow<Seq<char>>;

    open spec fn view(&self) -> PageRow<Seq<char>> {
        PageRow { json: self.json@, created_at: self.created_at@, id: self.id@ }
    }
}

/// The rows that are on the page.
pub open spec fn on_page<R>(rows: Seq<R>, limit: i64) -> Seq<R> {
    if limit < 0 || rows.len() <= limit {
        rows
    } else {
        rows.take(limit as int)
    }
}

/// The cursor that leads on from the page, as JSON: that of its last row, if there is more
/// than the page holds.
pub open spec fn onward(rows: Seq<PageRow>, limit: i64) -> Seq<char> {
    let page = on_page(rows, limit);
    if rows.len() <= limit || page.len() == 0 {
        "null"@
    } else {
        json_string(
            base64url(encode_utf8(page.last()@.created_at + "|"@ + page.last()@.id)),
        )
    }
}

/// What a page shows of its rows, as JSON.
pub open spec fn page_rows(rows: Seq<PageRow>, limit: i64) -> Seq<char> {
    list_text(on_page(rows, limit).map_values(|row: PageRow| row@.json))
}

/// The two parts of a page: its rows, and the cursor that leads on from it.
pub fn page(rows: &Vec<PageRow>, limit: i64) -> (parts: (String, String))
    ensures
        parts.0@ == page_rows(rows@, limit),
        parts.1@ == onward(rows@, limit),
{
    let more: Option<usize> = page_end(rows.len(), limit);
    let end: usize = match more {
        Some(end) => end,
        None => rows.len(),
    };
    let ghost shown = on_page(rows@, limit);
    assert(shown =~= rows@.take(end as int));
    let mut all: Vec<String> = Vec::new();
    let mut index: usize = 0;
    while index < end
        invariant
            index <= end <= rows@.len(),
            all@.len() == index,
            forall|i: int| 0 <= i < index ==> #[trigger] all@[i]@ == rows@[i]@.json,
        decreases end - index,
    {
        all.push(rows[index].json.as_str().to_owned());
        index = index + 1;
    }
    assert(texts(all@) =~= shown.map_values(|row: PageRow| row@.json));
    let next: Option<String> = if more.is_some() && end > 0 {
        Some(Cursor::encode(rows[end - 1].created_at.as_str(), rows[end - 1].id.as_str()))
    } else {
        None
    };
    (json::list(&all), json::optional(&next))
}

/// The answer to a request for a page of an identity's devices.
pub fn devices_page(rows: &Vec<PageRow>, limit: i64) -> (json: String)
    ensures
        json@ == object_text(
            seq![
                ("devices"@, page_rows(rows@, limit)),
                ("next_cursor"@, onward(rows@, limit)),
            ],
        ),
{
    let (shown, next) = page(rows, limit);
    let list = vec![json::member("devices", shown), json::member("next_cursor", next)];
    assert(json::member_views(list@) =~= seq![
        ("devices"@, page_rows(rows@, limit)),
        ("next_cursor"@, onward(rows@, limit)),
    ]);
    json::object(&list)
}

/// One page of a list.
#[derive(Debug)]
pub struct PageRequest<C = Option<Cursor>> {
    pub limit: i64,
    pub cursor: C,
}

impl View for PageRequest {
    type V = PageRequest<Option<Cursor<Seq<char>>>>;

    open spec fn view(&self) -> PageRequest<Option<Cursor<Seq<char>>>> {
        PageRequest { limit: self.limit, cursor: option_view(self.cursor) }
    }
}

/// What a request for a page comes to.
pub open spec fn requested_page(
    auth: Auth<Seq<char>, Seq<Seq<char>>>,
    needed: Seq<char>,
    limit: Result<i64, Refusal>,
    cursor: Option<Result<Cursor<Seq<char>>, Refusal>>,
) -> Result<PageRequest<Option<Cursor<Seq<char>>>>, Refusal> {
    if !auth.scopes.contains(needed) {
        Err(missing_scope(needed))
    } else {
        match limit {
            Err(refusal) => Err(refusal),
            Ok(limit) => match cursor {
                None => Ok(PageRequest { limit, cursor: None }),
                Some(Err(refusal)) => Err(refusal),
                Some(Ok(cursor)) => Ok(PageRequest { limit, cursor: Some(cursor) }),
            },
        }
    }
}

/// Reads a request for a page: the caller needs the scope, and the size and the cursor
/// have to be good.
pub fn read_page(
    auth: &Auth,
    needed: &str,
    limit: Option<i64>,
    cursor: &Option<String>,
    default: i64,
    max: i64,
) -> (result: ApiResult<PageRequest>)
    ensures
        outcome(result) == requested_page(
            auth@,
            needed@,
            page_size(limit, default, max),
            match option_view(*cursor) {
                Some(raw) => Some(read_cursor(raw)),
                None => None,
            },
        ),
{
    match auth.require_scope(needed) {
        Ok(()) => {},
        Err(error) => return Err(error),
    }
    let limit: i64 = match resolve_limit(limit, default, max) {
        Ok(limit) => limit,
        Err(error) => return Err(error),
    };
    match cursor {
        None => Ok(PageRequest { limit, cursor: None }),
        Some(raw) => match Cursor::decode(raw.as_str()) {
            Ok(cursor) => Ok(PageRequest { limit, cursor: Some(cursor) }),
            Err(error) => Err(error),
        },
    }
}

/// Reads a request for a page of an identity's devices. Not for identities only: this is
/// how a paired phone learns which machine it could ask for a terminal.
pub fn list(
    auth: &Auth,
    limit: Option<i64>,
    cursor: &Option<String>,
    default: i64,
    max: i64,
) -> (result: ApiResult<PageRequest>)
    ensures
        outcome(result) == requested_page(
            auth@,
            "devices:read"@,
            page_size(limit, default, max),
            match option_view(*cursor) {
                Some(raw) => Some(read_cursor(raw)),
                None => None,
            },
        ),
{
    read_page(auth, "devices:read", limit, cursor, default, max)
}

/// Asks for a device that the caller's identity owns.
#[derive(Debug, Clone, Copy, PartialEq, Eq, Structural)]
pub struct FindOwnedDevice {
    pub device_id: Uuid,
}

impl View for FindOwnedDevice {
    type V = FindOwnedDevice;

    open spec fn view(&self) -> FindOwnedDevice {
        *self
    }
}

/// What looking at a device, or revoking it, comes to. `found` is whether the caller's
/// identity owns such a device.
pub open spec fn owned_device(
    auth: Auth<Seq<char>, Seq<Seq<char>>>,
    needed: Seq<char>,
    device_id: Uuid,
    found: Option<bool>,
) -> StepModel<FindOwnedDevice, ()> {
    if auth.kind != PrincipalKind::Identity {
        StepModel::Refuse(not_an_identity())
    } else if !auth.scopes.contains(needed) {
        StepModel::Refuse(missing_scope(needed))
    } else {
        match found {
            None => StepModel::Ask(FindOwnedDevice { device_id }),
            Some(false) => StepModel::Refuse(Refusal::not_found()),
            Some(true) => StepModel::Done(()),
        }
    }
}

fn find_owned(auth: &Auth, needed: &str, device_id: Uuid, found: Option<bool>) -> (step: Step<
    FindOwnedDevice,
    (),
>)
    ensures
        step_view(step) == owned_device(auth@, needed@, device_id, found),
{
    match auth.require_identity() {
        Ok(()) => {},
        Err(error) => return Step::Refuse(error),
    }
    match auth.require_scope(needed) {
        Ok(()) => {},
        Err(error) => return Step::Refuse(error),
    }
    match found {
        None => Step::Ask(FindOwnedDevice { device_id }),
        // Not owned and not existing are indistinguishable.
        Some(false) => Step::Refuse(ApiError::not_found()),
        Some(true) => Step::Done(()),
    }
}

/// Looks at one device of the caller's identity.
pub fn get(auth: &Auth, device_id: Uuid, found: Option<bool>) -> (step: Step<FindOwnedDevice, ()>)
    ensures
        step_view(step) == owned_device(auth@, "devices:read"@, device_id, found),
{
    find_owned(auth, "devices:read", device_id, found)
}

/// Revokes a device of the caller's identity. Revoking it twice is no error: it is done
/// when it was found.
pub fn revoke(auth: &Auth, device_id: Uuid, found: Option<bool>) -> (step: Step<
    FindOwnedDevice,
    (),
>)
    ensures
        step_view(step) == owned_device(auth@, "devices:write"@, device_id, found),
{
    find_owned(auth, "devices:write", device_id, found)
}

/// What is written when a device is revoked at the time `now`: the time itself, unless it
/// was revoked before. Its tokens of up to now stop working either way.
pub fn revoked_at(device: &Device, now: i64) -> (result: (i64, bool))
    ensures
        result == (match device.revoked_at {
            Some(at) => (at, false),
            None => (now, true),
        }),
{
    match device.revoked_at {
        Some(at) => (at, false),
        None => (now, true),
    }
}

/// The answer to a request that revoked a device.
pub fn revoked_json(device_id: Uuid, revoked_at: &str) -> (json: String)
    ensures
        json@ == object_text(
            seq![
                ("device_id"@, json_string(uuid_text(device_id.value))),
                ("revoked_at"@, json_string(revoked_at@)),
            ],
        ),
{
    let list = vec![
        json::member("device_id", json::string(device_id.to_text().as_str())),
        json::member("revoked_at", json::string(revoked_at)),
    ];
    assert(json::member_views(list@) =~= seq![
        ("device_id"@, json_string(uuid_text(device_id.value))),
        ("revoked_at"@, json_string(revoked_at@)),
    ]);
    json::object(&list)
}

} // verus!
