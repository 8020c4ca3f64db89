//! What can be counted on by whoever connects or asks for a credential.

use crate::encoding::base64url;
use crate::publisher::crypto::fingerprint_text;
use crate::relay::auth::{
    binding_of, create_token, grant_token, is_revoked, issue_challenge, token_response, Auth,
    ChallengeDraft, ChallengeResponse, Grant, IdentityOutcome, SignedRequest, Standing,
    TokenAnswers, TokenQuestion, TokenResponse, TokenSettings,
};
use crate::relay::crypto::{stored_hash, DeviceRole, Operation, PrincipalKind};
use crate::relay::promises::ws::has_room;
use crate::relay::repo::{
    consume_ticket, ChallengeClaim, ChallengeRecord, StoredTicket, TicketRecord,
};
use crate::relay::step::Step;
use crate::relay::ws::{
    issue_ticket, mirror_upgrade, offers, relay_upgrade, ConnectAnswers, ConnectQuestion,
    ConnectSettings, MirrorUpgrade, ProtocolVersion, PublisherUpgrade,
};
use crate::ids::{uuid_text, Uuid};
use crate::text::{is_word, lemma_words_of_spaced, option_view, texts};
use vstd::prelude::*;

verus! {

/// A connection is possible at all: it is enabled, the relay stays up, and a version was
/// offered that it speaks.
pub open spec fn is_possible(settings: ConnectSettings) -> bool {
    &&& settings.enabled
    &&& !settings.shutting_down
    &&& offers(settings.offered@, settings.v1@) || offers(settings.offered@, settings.v2@)
}

/// Whoever mirrors a terminal owns it and may mirror; and may type into it exactly where
/// version 2 was offered and the credential allows input.
pub proof fn law_mirrors_are_for_owners(
    terminal_id: Uuid,
    settings: ConnectSettings,
    answers: ConnectAnswers,
    step: Step<ConnectQuestion, MirrorUpgrade>,
    auth: Auth,
)
    requires
        answers.auth matches Some(Ok(who)) && who == auth,
        call_ensures(mirror_upgrade, (terminal_id, &settings, &answers), step),
    ensures
        step is Done <==> {
            &&& is_possible(settings)
            &&& texts(auth.scopes@).contains("terminals:mirror"@)
            &&& answers.terminal matches Some(Some(row)) && row.identity_id@ == auth.identity_id@
            &&& auth.kind == PrincipalKind::Device ==> (answers.device matches Some(Some(device))
                && device.identity_id@ == auth.identity_id@ && (device.role == DeviceRole::Client
                || device.role == DeviceRole::Both))
            &&& has_room(settings.rate_limit, answers.within_limit, answers.connection)
        },
        step matches Step::Done(upgrade) ==> {
            &&& upgrade.terminal_id == terminal_id
            &&& upgrade.identity_id@ == auth.identity_id@
            &&& upgrade.principal_id@ == auth.principal_id@
            &&& upgrade.version == ProtocolVersion::V2 <==> offers(
                settings.offered@,
                settings.v2@,
            )
            &&& upgrade.may_send_input <==> offers(settings.offered@, settings.v2@) && texts(
                auth.scopes@,
            ).contains("terminals:input"@)
        },
{
    if let Step::Done(upgrade) = step {
        let shown = upgrade@;
    }
}

/// A device connects exactly as itself, while it is not revoked and publishes, in the
/// newest version that it offered.
pub proof fn law_devices_connect_as_themselves(
    device_id: Uuid,
    settings: ConnectSettings,
    answers: ConnectAnswers,
    step: Step<ConnectQuestion, PublisherUpgrade>,
    auth: Auth,
)
    requires
        answers.auth matches Some(Ok(who)) && who == auth,
        call_ensures(relay_upgrade, (device_id, &settings, &answers), step),
    ensures
        step is Done <==> {
            &&& is_possible(settings)
            &&& auth.kind == PrincipalKind::Device
            &&& auth.principal_id@ == uuid_text(device_id.value)
            &&& texts(auth.scopes@).contains("terminals:publish"@)
            &&& answers.device matches Some(Some(device)) && device.revoked_at is None && (
            device.role == DeviceRole::Publisher || device.role == DeviceRole::Both)
            &&& has_room(settings.rate_limit, answers.within_limit, answers.connection)
        },
        step matches Step::Done(upgrade) ==> {
            &&& upgrade.device_id == device_id
            &&& upgrade.version == ProtocolVersion::V2 <==> offers(
                settings.offered@,
                settings.v2@,
            )
        },
{
}

/// An identity's token is that of its key, with the scopes of identities; a device's is
/// that of the device, with the scopes of its role.
pub proof fn law_tokens_are_granted_by_kind(
    record: ChallengeRecord,
    settings: TokenSettings,
    answers: TokenAnswers,
    step: Step<TokenQuestion, Grant>,
)
    requires
        call_ensures(grant_token, (&record, &settings, &answers), step),
    ensures
        record.operation == Operation::AuthenticateIdentity ==> {
            &&& step is Done <==> answers.identity_exists == Some(true)
            &&& step matches Step::Done(grant) ==> {
                &&& grant.kind == PrincipalKind::Identity
                &&& grant.principal_id@ == fingerprint_text(record.algorithm@, record.public_key@)
                &&& grant.identity_id@ == fingerprint_text(record.algorithm@, record.public_key@)
                &&& texts(grant.scopes@) == texts(settings.identity_scopes@)
                &&& grant.seen is None
            }
        },
        record.operation == Operation::AuthenticateDevice ==> {
            &&& step is Done <==> (answers.device matches Some(Some(device))
                && device.revoked_at is None)
            &&& step matches Step::Done(grant) ==> {
                let device = (answers.device->0)->0;
                &&& grant.kind == PrincipalKind::Device
                &&& grant.principal_id@ == uuid_text(device.device_id.value)
                &&& grant.identity_id@ == device.identity_id@
                &&& grant.seen == Some(device.device_id)
                &&& device.role == DeviceRole::Publisher ==> texts(grant.scopes@) == texts(
                    settings.publisher_scopes@,
                )
                &&& device.role == DeviceRole::Client ==> texts(grant.scopes@) == texts(
                    settings.client_scopes@,
                )
            }
        },
        record.operation == Operation::RegisterIdentity || record.operation
            == Operation::RegisterDevice ==> step is Refuse,
{
    if let Step::Done(grant) = step {
        let shown = grant@;
    }
}

/// A token is granted only against a challenge that was claimed for it, and within the
/// limit.
pub proof fn law_tokens_take_a_claimed_challenge(
    request: SignedRequest,
    settings: TokenSettings,
    answers: TokenAnswers,
    step: Step<TokenQuestion, Grant>,
)
    requires
        call_ensures(create_token, (&request, &settings, &answers), step),
    ensures
        step is Done ==> {
            &&& answers.claim matches Some(ChallengeClaim::Claimed(record)) && (record.operation
                == Operation::AuthenticateIdentity || record.operation
                == Operation::AuthenticateDevice)
            &&& settings.rate_limit is None || answers.within_limit == Some(true)
        },
        step matches Step::Ask(TokenQuestion::Claim(question)) ==> question.challenge_id@
            == request.challenge_id@ && answers.claim is None,
{
    if let Step::Ask(question) = step {
        let shown = question@;
        if let TokenQuestion::Claim(claim) = question {
            let inner = claim@;
        }
    }
}

/// The answer to a request for a token says what was granted, to whom, and for how long.
pub proof fn law_granted_tokens_are_answered(
    grant: Grant,
    token: String,
    issued: i64,
    expires: i64,
    response: TokenResponse,
)
    requires
        i64::MIN <= expires - issued <= i64::MAX,
        call_ensures(token_response, (grant, token, issued, expires), response),
    ensures
        response.access_token@ == token@,
        response.token_type@ == "Bearer"@,
        issued + response.expires_in == expires,
        texts(response.scopes@) == texts(grant.scopes@),
        grant.kind == PrincipalKind::Identity ==> response.principal@ == "identity"@,
        grant.kind == PrincipalKind::Device ==> response.principal@ == "device"@,
        response.principal_id@ == grant.principal_id@,
{
}

/// A token no longer counts from the moment on up to which its principal's tokens were
/// invalidated, nor if it is of a device that is not there or was revoked; otherwise it
/// does.
pub proof fn law_revocation_takes_effect_at_once(
    cutoff: Option<i64>,
    issued: i64,
    kind: PrincipalKind,
    device: Standing,
    revoked: bool,
)
    requires
        call_ensures(is_revoked, (cutoff, issued, kind, device), revoked),
    ensures
        cutoff is Some && issued <= cutoff->0 ==> revoked,
        kind == PrincipalKind::Device && (device == Standing::Revoked || device
            == Standing::Missing) ==> revoked,
        (cutoff is None || cutoff->0 < issued) && (kind == PrincipalKind::Identity || device
            == Standing::Active) ==> !revoked,
{
}

/// A challenge that is handed out is kept as it was drafted, is to be signed as it will be
/// checked, and expires when it should.
pub proof fn law_challenges_are_kept_as_drafted(
    draft: ChallengeDraft,
    origin: &str,
    challenge_id: String,
    challenge: Vec<u8>,
    now: i64,
    ttl: i64,
    issued: (ChallengeRecord, ChallengeResponse),
)
    requires
        i64::MIN <= now + ttl * 1000 <= i64::MAX,
        call_ensures(issue_challenge, (draft, origin, challenge_id, challenge, now, ttl), issued),
    ensures
        ({
            let record = issued.0;
            let answer = issued.1;
            &&& record.challenge_id@ == challenge_id@
            &&& record.operation == draft.operation
            &&& record.algorithm@ == draft.algorithm@
            &&& record.public_key@ == draft.public_key@
            &&& record.key_fingerprint@ == draft.fingerprint@
            &&& option_view(record.owner_identity_id) == option_view(draft.owner)
            &&& draft.operation == Operation::RegisterDevice ==> option_view(
                record.device_key_fingerprint,
            ) == Some(draft.fingerprint@)
            &&& draft.operation != Operation::RegisterDevice ==> record.device_key_fingerprint
                is None
            &&& record.challenge@ == challenge@
            &&& record.expires_at - now == ttl * 1000
            &&& answer.challenge_id@ == challenge_id@
            &&& answer.challenge@ == base64url(challenge@)
            &&& answer.signature_context@ == "terminal-relay-challenge-v1"@
            &&& answer.signing_input@ == base64url(binding_of(record@, origin@).signed_bytes())
            &&& answer.expires_at == record.expires_at
            &&& answer.key_fingerprint@ == draft.fingerprint@
        }),
{
    let shown = issued.0@;
    assert(shown.device_key_fingerprint == option_view(issued.0.device_key_fingerprint));
}

/// A ticket stands for the authority of whoever it was issued to, on its path, until it
/// expires; and what is stored of it is its hash.
pub proof fn law_issued_tickets_carry_their_authority(
    auth: Auth,
    path: &str,
    now: i64,
    ttl: i64,
    issued: (String, String, StoredTicket),
    later: i64,
    used: (Option<TicketRecord>, bool),
)
    requires
        i64::MIN <= now + ttl * 1000 <= i64::MAX,
        forall|i: int| 0 <= i < auth.scopes@.len() ==> is_word((#[trigger] auth.scopes@[i])@),
        call_ensures(issue_ticket, (&auth, path, now, ttl), issued),
        call_ensures(consume_ticket, (Some(issued.2), path, later), used),
    ensures
        issued.1@ == stored_hash(issued.0@),
        used.1,
        used.0 is Some <==> later - now <= ttl * 1000,
        (used.0 matches Some(record) ==> {
            &&& record.principal_kind == auth.kind
            &&& record.principal_id@ == auth.principal_id@
            &&& record.identity_id@ == auth.identity_id@
            &&& texts(record.scopes@) == texts(auth.scopes@)
        }),
{
    let scopes = texts(auth.scopes@);
    assert forall|i: int| 0 <= i < scopes.len() implies is_word(#[trigger] scopes[i]) by {
        assert(is_word(auth.scopes@[i]@));
    }
    lemma_words_of_spaced(scopes);
    reveal_strlit("identity");
    reveal_strlit("device");
    assert("identity"@.len() == 8 && "device"@.len() == 6);
    if let Some(record) = used.0 {
        assert(option_view(used.0)->0 == record@);
    }
}

/// Registering an identity answers that it was created, the first time, and that it is
/// there afterwards.
pub proof fn law_registrations_are_answered(outcome: IdentityOutcome, status: u16)
    requires
        call_ensures(IdentityOutcome::status, (&outcome,), status),
    ensures
        (outcome matches IdentityOutcome::Registered { identity_id, created_at, created } ==> {
            &&& created ==> status == 201
            &&& !created ==> status == 200
        }),
        (outcome matches IdentityOutcome::Again(replay) ==> status == replay.status),
{
}

} // verus!
