//! What can be counted on when something is authenticated.

use crate::ids::uuid_text;
use crate::publisher::crypto::fingerprint_text;
use crate::relay::auth::{
    authenticated, binding_of, carries_credential, granted_token, header_token, operator_admitted,
    presented, registered_identity, requested_challenge, requested_token, verified_challenge,
    ChallengeAnswers, IdentityOutcome, IdentityQuestion, TokenQuestion,
};
use crate::relay::crypto::{Claims, DeviceRole, KeyModel, Operation, PrincipalKind};
use crate::relay::error::Refusal;
use crate::relay::idempotency::{Remembered, Replay};
use crate::relay::repo::{ChallengeClaim, ChallengeRecord, Device};
use crate::relay::step::{asks, refuses, StepModel};
use crate::text;
use crate::text::trimmed;
use vstd::prelude::*;

verus! {

/// A token that verifies, of a principal that was not revoked and is within its limit,
/// authenticates that principal, with the authority of its claims; and nothing else
/// authenticates anybody.
pub proof fn law_good_tokens_authenticate(
    token: Seq<char>,
    claims: Claims,
    revoked: Option<bool>,
    rate_limit: Option<u64>,
    within_limit: Option<bool>,
    refusal: Refusal,
)
    ensures
        ({
            let step = authenticated(
                Ok(token),
                Some(Ok(claims)),
                revoked,
                rate_limit,
                within_limit,
            );
            &&& step is Done <==> revoked == Some(false) && (rate_limit is None || within_limit
                == Some(true))
            &&& step is Done ==> {
                let auth = step->Done_0;
                &&& auth.kind == claims.principal
                &&& auth.principal_id == claims.sub
                &&& auth.identity_id == claims.identity_id
                &&& auth.scopes == claims.scopes
                &&& auth.jti == claims.jti
            }
            &&& refuses(
                authenticated(Ok(token), Some(Err(refusal)), revoked, rate_limit, within_limit),
                refusal,
            )
            &&& refuses(
                authenticated(Err(refusal), Some(Ok(claims)), revoked, rate_limit, within_limit),
                refusal,
            )
            &&& revoked == Some(false) && rate_limit is Some && within_limit == Some(false)
                ==> refuses(step, Refusal::rate_limited(rate_limit->0))
        }),
{
}

/// The token behind the word for its scheme is the token, whatever white space stands
/// around it; a header of another scheme holds none.
pub proof fn law_bearer_tokens_are_read(token: Seq<char>, header: Seq<char>)
    requires
        token.len() > 0,
        !text::is_white_space(token[0]),
        !text::is_white_space(token.last()),
        header.len() == 0 || (header[0] != 'B' && header[0] != 'b'),
    ensures
        header_token("Bearer "@ + token) == Some(token),
        header_token("bearer "@ + token) == Some(token),
        header_token(("Bearer "@ + token).push(' ')) == Some(token),
        header_token(header) is None,
        presented(None, Some("Bearer "@ + token)) == Ok::<Seq<char>, Refusal>(token),
        presented(None, Some(header)) matches Err(refusal) && refusal.status == 401,
        presented(None, None) matches Err(refusal) && refusal.status == 401,
{
    reveal_strlit("Bearer ");
    reveal_strlit("bearer ");
    let large = "Bearer "@ + token;
    let small = "bearer "@ + token;
    assert(large.take(7) =~= "Bearer "@);
    assert(small.take(7) =~= "bearer "@);
    assert(small.take(7)[0] == 'b');
    assert("Bearer "@[0] == 'B');
    assert(large.skip(7) =~= token);
    assert(small.skip(7) =~= token);
    assert(trimmed(token) == token);
    let loose = large.push(' ');
    assert(loose.take(7) =~= "Bearer "@);
    assert(loose.skip(7) =~= token.push(' '));
    reveal_with_fuel(trimmed, 2);
    assert(token.push(' ').drop_last() =~= token);
    assert(token.push(' ')[0] == token[0]);
    if header.len() >= 7 {
        assert(header.take(7)[0] == header[0]);
    }
}

/// A credential in the query string is refused, whatever else is presented.
pub proof fn law_credentials_stay_out_of_urls(
    key: Seq<char>,
    value: Seq<char>,
    header: Option<Seq<char>>,
)
    requires
        key == "access_token"@ || key == "token"@ || key == "ticket"@ || key == "bearer"@,
        !value.contains('&'),
    ensures
        carries_credential(key.push('=') + value),
        presented(Some(key.push('=') + value), header) matches Err(refusal) && refusal.status
            == 400,
{
    reveal_strlit("access_token");
    reveal_strlit("token");
    reveal_strlit("ticket");
    reveal_strlit("bearer");
    let query = key.push('=') + value;
    assert(!query.contains('&')) by {
        if query.contains('&') {
            let i = query.index_of('&');
            assert(query[i] == '&');
            if i > key.len() {
                assert(value[i - key.len() - 1] == '&');
            }
        }
    }
    text::lemma_split_on(query, '&', query);
    text::lemma_first_of(query, '=', key.len() as int);
    assert(query.take(key.len() as int) =~= key);
    assert(text::lowered(key) =~= key);
    assert(text::split_on(query, '&')[0] == query);
}

/// A challenge is handed out for the operation and the key that were asked for, bound to the
/// owner that was named where it registers a device and to none otherwise, as soon as
/// everything that is asked about it is in order.
pub proof fn law_challenges_are_for_what_was_asked(
    word: Seq<char>,
    operation: Operation,
    key: KeyModel,
    rate_limit: Option<u64>,
    identity_registration: bool,
    device_registration: bool,
    owner: Option<Seq<char>>,
    answers: ChallengeAnswers,
)
    ensures
        ({
            let step = requested_challenge(
                word,
                Some(operation),
                Ok(key),
                rate_limit,
                identity_registration,
                device_registration,
                owner,
                answers,
            );
            let within = rate_limit is None || (answers.source == Some(true) && answers.fingerprint
                == Some(true));
            let enabled = match operation {
                Operation::RegisterIdentity => identity_registration,
                Operation::RegisterDevice => device_registration && owner is Some && answers.owner
                    == Some(true),
                _ => true,
            };
            &&& step is Done <==> within && enabled
            &&& step is Done ==> {
                let draft = step->Done_0;
                &&& draft.operation == operation
                &&& draft.algorithm == key.algorithm
                &&& draft.public_key == key.bytes
                &&& draft.fingerprint == fingerprint_text(key.algorithm, key.bytes)
                &&& operation == Operation::RegisterDevice ==> draft.owner == owner
                &&& operation != Operation::RegisterDevice ==> draft.owner is None
            }
        }),
{
}

/// What has to be signed is bound to everything that the challenge is about.
pub proof fn law_signatures_bind_the_whole_challenge(
    record: ChallengeRecord<Seq<char>, Seq<u8>>,
    origin: Seq<char>,
)
    ensures
        ({
            let binding = binding_of(record, origin);
            &&& binding.origin == origin
            &&& binding.challenge_id == record.challenge_id
            &&& binding.challenge == record.challenge
            &&& binding.operation == record.operation
            &&& binding.key_fingerprint == record.key_fingerprint
            &&& record.owner_identity_id matches Some(owner) ==> binding.owner_identity_id == owner
            &&& record.owner_identity_id is None ==> binding.owner_identity_id.len() == 0
            &&& record.device_key_fingerprint matches Some(key) ==> binding.device_key_fingerprint
                == key
            &&& record.device_key_fingerprint is None ==> binding.device_key_fingerprint.len() == 0
            &&& record.expires_at >= 0 ==> binding.expires_at_unix_ms == record.expires_at
            &&& record.expires_at < 0 ==> binding.expires_at_unix_ms == 0
        }),
{
}

/// A proof that verifies goes through, and one that does not is refused as what it is: of a
/// challenge that is used, expired, unknown or for something else, or not signed by its key.
pub proof fn law_proofs_are_judged(
    challenge_id: Seq<char>,
    signature: Seq<u8>,
    record: ChallengeRecord<Seq<char>, Seq<u8>>,
    expected: Seq<Operation>,
    origin: Seq<char>,
)
    ensures
        ({
            let step = verified_challenge(
                challenge_id,
                Some(signature),
                Some(ChallengeClaim::Claimed(record)),
                expected,
                origin,
            );
            let good = record.algorithm == "ed25519"@ && record.public_key.len() == 32
                && signature.len() == 64 && crate::ed25519::ed25519_accepts(
                record.public_key,
                binding_of(record, origin).signed_bytes(),
                signature,
            );
            &&& step is Done <==> expected.contains(record.operation) && good
            &&& !(step is Done) ==> step is Refuse && step->Refuse_0.status == 401
            &&& expected.contains(record.operation) && !good ==> step->Refuse_0.code
                == "signature_invalid"@
            &&& !expected.contains(record.operation) ==> step->Refuse_0.code
                == "challenge_invalid"@
            &&& verified_challenge(
                challenge_id,
                Some(signature),
                Some(ChallengeClaim::AlreadyConsumed),
                expected,
                origin,
            ) matches StepModel::Refuse(refusal) && refusal.code == "challenge_consumed"@
            &&& verified_challenge(
                challenge_id,
                Some(signature),
                Some(ChallengeClaim::Expired),
                expected,
                origin,
            ) matches StepModel::Refuse(refusal) && refusal.code == "challenge_expired"@
            &&& verified_challenge(
                challenge_id,
                Some(signature),
                Some(ChallengeClaim::Unknown),
                expected,
                origin,
            ) matches StepModel::Refuse(refusal) && refusal.code == "challenge_invalid"@
            &&& verified_challenge(challenge_id, None, None, expected, origin) is Refuse
            &&& verified_challenge(challenge_id, Some(signature), None, expected, origin) matches
                StepModel::Ask(claim) && claim.challenge_id == challenge_id
        }),
{
}

/// An identity is called after its key. Registering it again leaves it as it was, and says
/// so by its status alone.
pub proof fn law_identities_are_their_keys(
    client: Seq<char>,
    challenge_id: Seq<char>,
    signature: Seq<u8>,
    rate_limit: Option<(i64, u64)>,
    origin: Seq<char>,
    registrations: Option<i64>,
    record: ChallengeRecord<Seq<char>, Seq<u8>>,
    at: Option<i64>,
    now: i64,
)
    requires
        verified_challenge(
            challenge_id,
            Some(signature),
            Some(ChallengeClaim::Claimed(record)),
            seq![Operation::RegisterIdentity],
            origin,
        ) is Done,
        rate_limit matches Some((limit, retry_after)) ==> registrations is Some && registrations->0
            < limit,
    ensures
        ({
            let step = registered_identity(
                true,
                client,
                Ok((challenge_id, Some(signature))),
                rate_limit,
                origin,
                Some(Ok(Remembered::Nothing)),
                registrations,
                Some(ChallengeClaim::Claimed(record)),
                Some(at),
                now,
            );
            &&& step matches StepModel::Done(
                IdentityOutcome::Registered { identity_id, created_at, created },
            ) && identity_id == fingerprint_text(record.algorithm, record.public_key) && (created
                <==> at is None) && (at matches Some(earlier) ==> created_at == earlier) && (at
                is None ==> created_at == now)
        }),
{
}

/// Registrations of a source are limited, a repetition is answered as before, and nobody
/// registers while that is switched off.
pub proof fn law_registrations_are_held_back(
    client: Seq<char>,
    challenge_id: Seq<char>,
    signature: Option<Seq<u8>>,
    limit: i64,
    retry_after: u64,
    origin: Seq<char>,
    count: i64,
    claim: Option<ChallengeClaim<Seq<char>, Seq<u8>>>,
    at: Option<Option<i64>>,
    now: i64,
    replay: Replay<Seq<char>>,
)
    requires
        count >= limit,
    ensures
        refuses(
            registered_identity(
                true,
                client,
                Ok((challenge_id, signature)),
                Some((limit, retry_after)),
                origin,
                Some(Ok(Remembered::Nothing)),
                Some(count),
                claim,
                at,
                now,
            ),
            Refusal::rate_limited(retry_after),
        ),
        registered_identity(
            true,
            client,
            Ok((challenge_id, signature)),
            Some((limit, retry_after)),
            origin,
            Some(Ok(Remembered::Again(replay))),
            Some(count),
            claim,
            at,
            now,
        ) matches StepModel::Done(IdentityOutcome::Again(again)) && again == replay,
        registered_identity(
            false,
            client,
            Ok((challenge_id, signature)),
            Some((limit, retry_after)),
            origin,
            None,
            None,
            None,
            None,
            now,
        ) matches StepModel::Refuse(refusal) && refusal.status == 403,
        registered_identity(
            true,
            client,
            Ok((challenge_id, signature)),
            None,
            origin,
            None,
            None,
            None,
            None,
            now,
        ) matches StepModel::Ask(IdentityQuestion::Remembered(subject)) && subject.scope
            == "source:"@ + client && subject.method == "POST"@ && subject.path == "/v1/identities"@,
{
}

/// An identity's token is for the identity of its key, as principal and as identity, and
/// carries what is configured for identities, whatever is configured for devices.
pub proof fn law_identities_get_their_own_scopes(
    record: ChallengeRecord<Seq<char>, Seq<u8>>,
    identity_scopes: Seq<Seq<char>>,
    publisher_scopes: Seq<Seq<char>>,
    client_scopes: Seq<Seq<char>>,
    device: Option<Option<Device<Seq<char>, Seq<u8>>>>,
)
    requires
        record.operation == Operation::AuthenticateIdentity,
    ensures
        ({
            let granted = granted_token(
                record,
                identity_scopes,
                publisher_scopes,
                client_scopes,
                Some(true),
                device,
            );
            let refused = granted_token(
                record,
                identity_scopes,
                publisher_scopes,
                client_scopes,
                Some(false),
                device,
            );
            &&& granted is Done
            &&& granted->Done_0.kind == PrincipalKind::Identity
            &&& granted->Done_0.principal_id == fingerprint_text(record.algorithm, record.public_key)
            &&& granted->Done_0.identity_id == fingerprint_text(record.algorithm, record.public_key)
            &&& granted->Done_0.scopes == identity_scopes
            &&& granted->Done_0.seen is None
            &&& refused is Refuse && refused->Refuse_0.status == 401
        }),
{
}

/// A device's token is for that device, under the identity that owns it, and the device
/// counts as seen; its scopes stand in their order, each of a device that is both once.
pub proof fn law_devices_get_the_scopes_of_their_role(
    record: ChallengeRecord<Seq<char>, Seq<u8>>,
    identity_scopes: Seq<Seq<char>>,
    publisher_scopes: Seq<Seq<char>>,
    client_scopes: Seq<Seq<char>>,
    identity_exists: Option<bool>,
    device: Device<Seq<char>, Seq<u8>>,
)
    requires
        record.operation == Operation::AuthenticateDevice,
        device.revoked_at is None,
    ensures
        ({
            let granted = granted_token(
                record,
                identity_scopes,
                publisher_scopes,
                client_scopes,
                identity_exists,
                Some(Some(device)),
            );
            &&& granted is Done
            &&& granted->Done_0.kind == PrincipalKind::Device
            &&& granted->Done_0.principal_id == uuid_text(device.device_id.value)
            &&& granted->Done_0.identity_id == device.identity_id
            &&& granted->Done_0.seen == Some(device.device_id)
            &&& device.role == DeviceRole::Publisher ==> granted->Done_0.scopes == publisher_scopes
            &&& device.role == DeviceRole::Client ==> granted->Done_0.scopes == client_scopes
            &&& granted_token(
                record,
                identity_scopes,
                publisher_scopes,
                client_scopes,
                identity_exists,
                None,
            ) matches StepModel::Ask(TokenQuestion::DeviceByFingerprint(asked)) && asked
                == record.key_fingerprint
            &&& granted_token(
                record,
                identity_scopes,
                publisher_scopes,
                client_scopes,
                identity_exists,
                Some(None),
            ) matches StepModel::Refuse(refusal) && refusal.status == 401
        }),
{
}

/// A request for a token is granted what its verified challenge is granted, once its key is
/// within its limit.
pub proof fn law_verified_requests_get_their_token(
    challenge_id: Seq<char>,
    signature: Seq<u8>,
    origin: Seq<char>,
    rate_limit: Option<u64>,
    identity_scopes: Seq<Seq<char>>,
    publisher_scopes: Seq<Seq<char>>,
    client_scopes: Seq<Seq<char>>,
    record: ChallengeRecord<Seq<char>, Seq<u8>>,
    within_limit: Option<bool>,
    identity_exists: Option<bool>,
    device: Option<Option<Device<Seq<char>, Seq<u8>>>>,
)
    requires
        verified_challenge(
            challenge_id,
            Some(signature),
            Some(ChallengeClaim::Claimed(record)),
            seq![Operation::AuthenticateIdentity, Operation::AuthenticateDevice],
            origin,
        ) is Done,
    ensures
        ({
            let step = requested_token(
                challenge_id,
                Some(signature),
                origin,
                rate_limit,
                identity_scopes,
                publisher_scopes,
                client_scopes,
                Some(ChallengeClaim::Claimed(record)),
                within_limit,
                identity_exists,
                device,
            );
            &&& rate_limit is None || within_limit == Some(true) ==> step == granted_token(
                record,
                identity_scopes,
                publisher_scopes,
                client_scopes,
                identity_exists,
                device,
            )
            &&& rate_limit is Some && within_limit == Some(false) ==> refuses(
                step,
                Refusal::rate_limited(rate_limit->0),
            )
            &&& rate_limit is Some && within_limit is None ==> asks(
                step,
                TokenQuestion::WithinLimit(record.key_fingerprint),
            )
        }),
{
}

/// The operator is whoever presents the credential whose hash is configured, and nobody
/// else; who it was can be told by the beginning of that hash.
pub proof fn law_operators_hold_the_configured_credential(hash: Seq<char>, expected: Seq<char>)
    ensures
        operator_admitted(hash, expected) is Ok <==> hash == expected,
        hash == expected && hash.len() >= 12 ==> operator_admitted(hash, expected)->Ok_0
            == "operator:"@ + hash.take(12),
        hash != expected ==> operator_admitted(hash, expected)->Err_0.status == 401,
{
}

} // verus!
