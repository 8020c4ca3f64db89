//! What can be counted on when devices are registered, listed and looked at.

use crate::encoding::decoded;
use crate::ed25519::{ed25519_accepts, ed25519_valid_key};
use crate::ids::{uuid_text, Uuid};
use crate::publisher::crypto::fingerprint_text;
use crate::relay::auth::{binding_of, Auth};
use crate::relay::crypto::{DeviceRole, Operation, PrincipalKind, PublicKey};
use crate::relay::devices::{
    check_registration, get, list, page_end, register, resolve_limit, revoke, revoked_at, settle_device, DeviceAnswers,
    DeviceOutcome, DeviceQuestion, DeviceSettings, FindOwnedDevice, PageRequest,
    RegisterDeviceRequest,
};
use crate::relay::error::{ApiResult, Refusal};
use crate::relay::idempotency::Remembered;
use crate::relay::repo::{read_cursor, ChallengeClaim, Device};
use crate::relay::step::Step;
use crate::text::{lowered, texts, trimmed};
use vstd::prelude::*;
use vstd::utf8::encode_utf8;

verus! {

/// A device is registered under the trimmed name, for the role and with the key that its
/// request states.
pub proof fn law_devices_are_registered_as_asked(
    auth: Auth,
    settings: DeviceSettings,
    request: RegisterDeviceRequest,
    answers: DeviceAnswers,
    step: Step<DeviceQuestion, DeviceOutcome>,
)
    requires
        call_ensures(
            register,
            (&auth, &settings, &Ok::<RegisterDeviceRequest, _>(request), &answers),
            step,
        ),
        step matches Step::Done(DeviceOutcome::Register { .. }),
    ensures
        step matches Step::Done(DeviceOutcome::Register { name, role, key }) ==> {
            &&& name@ == trimmed(request.name@)
            &&& name@.len() > 0
            &&& encode_utf8(name@).len() <= settings.max_name_bytes
            &&& role == DeviceRole::Publisher <==> (request.role is None || (request.role->0)@
                == "publisher"@)
            &&& role == DeviceRole::Client <==> request.role is Some && (request.role->0)@
                == "client"@
            &&& role == DeviceRole::Both <==> request.role is Some && (request.role->0)@
                == "both"@
            &&& key.algorithm@ == "ed25519"@
            &&& lowered(trimmed(request.key.algorithm@)) == "ed25519"@
            &&& key.bytes@.len() == 32
            &&& decoded(request.key.public_key@) == Some(key.bytes@)
        },
        auth.kind == PrincipalKind::Identity,
        texts(auth.scopes@).contains("devices:write"@),
        settings.enabled,
        answers.existing == Some(None::<Uuid>),
        answers.count is Some && answers.count->0 < settings.max_devices,
{
    reveal_strlit("publisher");
    reveal_strlit("client");
    reveal_strlit("both");
    assert("publisher"@.len() == 9 && "client"@.len() == 6 && "both"@.len() == 4);
}

/// A request is granted as soon as everything speaks for it: the caller is an identity
/// that may add devices, nothing of the kind was asked before, the name, the role and the
/// key are good, the challenge was issued to this identity for this key and is signed with
/// it, the key is new, and there is room.
pub proof fn law_good_registrations_are_granted(
    auth: Auth,
    settings: DeviceSettings,
    request: RegisterDeviceRequest,
    answers: DeviceAnswers,
    step: Step<DeviceQuestion, DeviceOutcome>,
    key: Seq<u8>,
    signature: Seq<u8>,
)
    requires
        call_ensures(
            register,
            (&auth, &settings, &Ok::<RegisterDeviceRequest, _>(request), &answers),
            step,
        ),
        auth.kind == PrincipalKind::Identity,
        texts(auth.scopes@).contains("devices:write"@),
        settings.enabled,
        answers.remembered matches Some(Ok(Remembered::Nothing)),
        trimmed(request.name@).len() > 0,
        encode_utf8(trimmed(request.name@)).len() <= settings.max_name_bytes,
        request.role is None || (request.role->0)@ == "publisher"@ || (request.role->0)@
            == "client"@ || (request.role->0)@ == "both"@,
        lowered(trimmed(request.key.algorithm@)) == "ed25519"@,
        exists|i: int|
            0 <= i < settings.supported_algorithms@.len() && lowered(
                (#[trigger] settings.supported_algorithms@[i])@,
            ) == lowered("ed25519"@),
        decoded(request.key.public_key@) == Some(key),
        key.len() == 32,
        ed25519_valid_key(key),
        decoded(request.device_signature@) == Some(signature),
        signature.len() == 64,
        answers.claim matches Some(ChallengeClaim::Claimed(record)) && {
            &&& record@.operation == Operation::RegisterDevice
            &&& record@.owner_identity_id == Some(auth.identity_id@)
            &&& record@.device_key_fingerprint == Some(fingerprint_text("ed25519"@, key))
            &&& record@.key_fingerprint == fingerprint_text("ed25519"@, key)
            &&& ed25519_accepts(
                key,
                binding_of(record@, settings.origin@).signed_bytes(),
                signature,
            )
        },
        answers.existing == Some(None::<Uuid>),
        answers.count is Some && answers.count->0 < settings.max_devices,
    ensures
        step matches Step::Done(DeviceOutcome::Register { .. }),
{
    let i = choose|i: int|
        0 <= i < settings.supported_algorithms@.len() && lowered(
            (#[trigger] settings.supported_algorithms@[i])@,
        ) == lowered("ed25519"@);
    assert(texts(settings.supported_algorithms@)[i] == settings.supported_algorithms@[i]@);
}

/// A registration asks only about the caller and its own request: for the challenge that
/// it names, for its own key and for the number of the caller's devices.
pub proof fn law_registrations_ask_about_themselves(
    auth: Auth,
    settings: DeviceSettings,
    request: RegisterDeviceRequest,
    answers: DeviceAnswers,
    step: Step<DeviceQuestion, DeviceOutcome>,
)
    requires
        call_ensures(
            register,
            (&auth, &settings, &Ok::<RegisterDeviceRequest, _>(request), &answers),
            step,
        ),
    ensures
        step matches Step::Ask(DeviceQuestion::Claim(claim)) ==> claim.challenge_id@
            == request.challenge_id@ && answers.claim is None,
        step matches Step::Ask(DeviceQuestion::DeviceByFingerprint(fingerprint)) ==> {
            &&& decoded(request.key.public_key@) is Some
            &&& fingerprint@ == fingerprint_text(
                "ed25519"@,
                decoded(request.key.public_key@)->0,
            )
            &&& answers.existing is None
        },
        step matches Step::Ask(DeviceQuestion::Count(identity)) ==> identity@
            == auth.identity_id@ && answers.count is None,
{
}

/// A key is registered once, and an identity has no more devices than its limit. What was
/// refused is told by its kind.
pub proof fn law_refused_registrations_say_why(
    auth: Auth,
    settings: DeviceSettings,
    request: RegisterDeviceRequest,
    answers: DeviceAnswers,
    step: Step<DeviceQuestion, DeviceOutcome>,
)
    requires
        call_ensures(
            register,
            (&auth, &settings, &Ok::<RegisterDeviceRequest, _>(request), &answers),
            step,
        ),
    ensures
        auth.kind != PrincipalKind::Identity ==> (step matches Step::Refuse(error)
            && error@.status == 403),
        !texts(auth.scopes@).contains("devices:write"@) ==> (step matches Step::Refuse(error)
            && error@.status == 403),
        !settings.enabled ==> (step matches Step::Refuse(error) && error@.status == 403),
        step matches Step::Refuse(error) ==> error@.status == 409 ==> {
            ||| answers.existing matches Some(Some(device))
            ||| answers.count is Some && answers.count->0 >= settings.max_devices
            ||| answers.remembered matches Some(Err(_))
        },
{
}

/// A device is looked at with the scope for reading, revoked with the scope for writing,
/// both by its own identity alone, and a device of another identity is as good as none.
pub proof fn law_owners_look_at_their_devices(
    auth: Auth,
    device_id: Uuid,
    found: Option<bool>,
    seen: Step<FindOwnedDevice, ()>,
    gone: Step<FindOwnedDevice, ()>,
)
    requires
        call_ensures(get, (&auth, device_id, found), seen),
        call_ensures(revoke, (&auth, device_id, found), gone),
    ensures
        seen is Done <==> auth.kind == PrincipalKind::Identity && texts(auth.scopes@).contains(
            "devices:read"@,
        ) && found == Some(true),
        gone is Done <==> auth.kind == PrincipalKind::Identity && texts(auth.scopes@).contains(
            "devices:write"@,
        ) && found == Some(true),
        seen is Ask ==> seen->Ask_0.device_id == device_id && found is None,
        gone is Ask ==> gone->Ask_0.device_id == device_id && found is None,
        seen is Refuse && auth.kind == PrincipalKind::Identity && texts(auth.scopes@).contains(
            "devices:read"@,
        ) ==> seen->Refuse_0@.status == 404 && found == Some(false),
        gone is Refuse && auth.kind == PrincipalKind::Identity && texts(auth.scopes@).contains(
            "devices:write"@,
        ) ==> gone->Refuse_0@.status == 404 && found == Some(false),
{
}

/// A device stays revoked since it first was, and is newly revoked once.
pub proof fn law_devices_are_revoked_once(
    device: Device,
    again: Device,
    now: i64,
    later: i64,
    first: (i64, bool),
    second: (i64, bool),
)
    requires
        call_ensures(revoked_at, (&device, now), first),
        again.revoked_at == Some(first.0),
        call_ensures(revoked_at, (&again, later), second),
    ensures
        second.0 == first.0,
        !second.1,
        first.1 <==> device.revoked_at is None,
        device.revoked_at is None ==> first.0 == now,
        device.revoked_at is Some ==> first.0 == device.revoked_at->0,
{
}

/// A page has the size that was asked for, between one and the most, and the default,
/// cut down to the most, where none was asked for; any other size is refused.
pub proof fn law_pages_have_the_size_asked_for(
    requested: Option<i64>,
    default: i64,
    max: i64,
    result: ApiResult<i64>,
)
    requires
        call_ensures(resolve_limit, (requested, default, max), result),
    ensures
        result is Ok ==> result->Ok_0 <= max,
        requested is Some ==> (result is Ok <==> 1 <= requested->0 <= max),
        requested is Some && result is Ok ==> result->Ok_0 == requested->0,
        requested is None ==> result is Ok && (result->Ok_0 == default || result->Ok_0 == max)
            && result->Ok_0 <= default,
        result is Err ==> result->Err_0@.status == 422,
{
}

/// A list of devices is read with the scope for it, from where its cursor says.
pub proof fn law_lists_continue_where_their_cursor_says(
    auth: Auth,
    limit: Option<i64>,
    cursor: Option<String>,
    default: i64,
    max: i64,
    result: ApiResult<PageRequest>,
)
    requires
        call_ensures(list, (&auth, limit, &cursor, default, max), result),
    ensures
        !texts(auth.scopes@).contains("devices:read"@) ==> result is Err
            && result->Err_0@.status == 403,
        result is Ok ==> {
            let page = result->Ok_0;
            &&& limit is Some ==> page.limit == limit->0 && 1 <= limit->0 <= max
            &&& limit is None ==> page.limit == (if default <= max {
                default
            } else {
                max
            })
            &&& page.cursor is Some <==> cursor is Some
            &&& cursor is Some ==> read_cursor((cursor->0)@) == Ok::<_, Refusal>((page.cursor->0)@)
        },
        texts(auth.scopes@).contains("devices:read"@) && (limit is None || 1 <= limit->0 <= max)
            && (cursor is None || read_cursor((cursor->0)@) is Ok) ==> result is Ok,
{
}

/// A page holds as many rows as its limit, or all there are, and more rows are left behind
/// it if and only if there are more than the limit.
pub proof fn law_pages_end_at_their_limit(found: usize, limit: i64, end: Option<usize>)
    requires
        limit >= 0,
        call_ensures(page_end, (found, limit), end),
    ensures
        end is Some <==> found > limit,
        end is Some ==> end->0 == limit,
{
}

/// A key that is registered already, and a device too many, are refused as that; otherwise
/// the device is registered as it was described, after its key and the number of its
/// owner's devices were asked about.
pub proof fn law_devices_are_settled(
    identity_id: &str,
    name: String,
    role: DeviceRole,
    key: PublicKey,
    fingerprint: String,
    max: i64,
    existing: Option<Option<Uuid>>,
    count: Option<i64>,
    step: Step<DeviceQuestion, DeviceOutcome>,
)
    requires
        call_ensures(
            settle_device,
            (identity_id, name, role, key, fingerprint, max, existing, count),
            step,
        ),
    ensures
        existing is None ==> (step matches Step::Ask(DeviceQuestion::DeviceByFingerprint(asked))
            && asked@ == fingerprint@),
        (existing matches Some(Some(device)) ==> (step matches Step::Refuse(error) && error.status
            == 409 && error.code@ == "conflict"@ && error.message@
            == "this device key is already registered as device "@ + uuid_text(device.value))),
        existing == Some(None::<Uuid>) && count is None ==> (step matches Step::Ask(
            DeviceQuestion::Count(asked),
        ) && asked@ == identity_id@),
        existing == Some(None::<Uuid>) && count is Some && count->0 >= max ==> (
        step matches Step::Refuse(error) && error.status == 409 && error.code@
            == "limit_exceeded"@),
        existing == Some(None::<Uuid>) && count is Some && count->0 < max ==> (
        step matches Step::Done(
            DeviceOutcome::Register { name: named, role: given, key: kept },
        ) && named@ == name@ && given == role && kept@ == key@),
{
    if let Step::Refuse(error) = step {
        let shown = error@;
    }
    if let Step::Ask(question) = step {
        let shown = question@;
    }
    if let Step::Done(outcome) = step {
        let shown = outcome@;
    }
}

/// A challenge registers a device if and only if it was claimed, was issued for that, for
/// this owner and for this key, and is signed; each fault has its own words.
pub proof fn law_registrations_are_checked(
    claim: ChallengeClaim,
    identity_id: &str,
    fingerprint: &str,
    signed: bool,
    result: ApiResult<()>,
)
    requires
        call_ensures(check_registration, (&claim, identity_id, fingerprint, signed), result),
    ensures
        result is Ok <==> {
            &&& claim matches ChallengeClaim::Claimed(record) && {
                &&& record.operation == Operation::RegisterDevice
                &&& record@.owner_identity_id == Some(identity_id@)
                &&& record@.device_key_fingerprint == Some(fingerprint@)
                &&& record.key_fingerprint@ == fingerprint@
            }
            &&& signed
        },
        (result matches Err(error) ==> error.status == 401),
        (claim matches ChallengeClaim::Claimed(record) && record.operation
            == Operation::RegisterDevice && record@.owner_identity_id == Some(identity_id@)
            && record@.device_key_fingerprint == Some(fingerprint@) && record.key_fingerprint@
            == fingerprint@) && !signed ==> (result matches Err(error) && error.code@
            == "signature_invalid"@),
        (claim matches ChallengeClaim::Claimed(record) && record.operation
            != Operation::RegisterDevice) ==> (result matches Err(error) && error.code@
            == "challenge_invalid"@),
{
    let shown = claim@;
    if let ChallengeClaim::Claimed(record) = claim {
        assert(shown->Claimed_0 == record@);
    }
    if let Err(error) = result {
        let told = error@;
    }
}

} // verus!
