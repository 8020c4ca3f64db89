//! What can be counted on of the requests that come before any authority is granted.

use crate::ed25519::{ed25519_accepts, ed25519_valid_key};
use crate::encoding::decoded;
use crate::ids::{uuid_text, uuid_value, Uuid};
use crate::publisher::crypto::fingerprint_text;
use crate::relay::auth::{
    authenticate, authenticate_operator, bearer_token, binding_of, check_claim, create_challenge,
    register_identity, verify_challenge, Auth, AuthQuestion, ChallengeAnswers, ChallengeDraft,
    ChallengeQuestion, ChallengeRequest, ChallengeSettings, ClaimChallenge, IdentityAnswers,
    IdentityOutcome, IdentityQuestion, OperatorAuth, SignedRequest,
};
use crate::relay::crypto::{stored_hash, Operation, PrincipalKind, TokenClaims};
use crate::relay::error::{ApiError, ApiResult};
use crate::relay::repo::{ChallengeClaim, TerminalRow};
use crate::relay::step::Step;
use crate::relay::ws::{
    authenticate_upgrade, cookie_in, create_websocket_ticket, negotiate, offers, path_parts,
    FindTerminal, ProtocolVersion, TicketRequest, UpgradeAnswers, UpgradeHeaders, UpgradeQuestion,
};
use crate::text::{begins_with, lowered, option_view, texts, trimmed};
use vstd::prelude::*;

verus! {

/// A request speaks for the principal of its token, with the token's own authority, if and
/// only if the token verifies, was not revoked, and its principal is within its limit.
pub proof fn law_requests_speak_for_their_token(
    token: ApiResult<String>,
    claims: Option<ApiResult<TokenClaims>>,
    revoked: Option<bool>,
    rate_limit: Option<u64>,
    within: Option<bool>,
    step: Step<AuthQuestion, Auth>,
)
    requires
        call_ensures(authenticate, (&token, &claims, revoked, rate_limit, within), step),
    ensures
        step is Done <==> {
            &&& token is Ok
            &&& claims matches Some(Ok(_))
            &&& revoked == Some(false)
            &&& rate_limit is None || within == Some(true)
        },
        (step matches Step::Done(auth) ==> {
            let read = (claims->0)->Ok_0;
            &&& auth.kind == read.principal
            &&& auth.principal_id@ == read.sub@
            &&& auth.identity_id@ == read.identity_id@
            &&& texts(auth.scopes@) == texts(read.scopes@)
            &&& auth.jti@ == read.jti@
        }),
        (step matches Step::Ask(AuthQuestion::Verify(raw)) ==> token is Ok && raw@
            == token->Ok_0@),
        (step matches Step::Ask(AuthQuestion::Revoked(principal)) ==> principal@ == (
        claims->0)->Ok_0.sub@),
        (step matches Step::Ask(AuthQuestion::WithinLimit(principal)) ==> principal@ == (
        claims->0)->Ok_0.sub@),
        token is Ok && (claims matches Some(Ok(_))) && revoked == Some(true) ==> (
        step matches Step::Refuse(error) && error.status == 401 && error.code@
            == "device_revoked"@),
{
    if let Step::Done(auth) = step {
        let shown = auth@;
    }
    if let Step::Ask(question) = step {
        let shown = question@;
    }
    if let Step::Refuse(error) = step {
        let shown = error@;
    }
}

/// A token is taken from its header, under either spelling of its scheme, and from nowhere
/// else.
pub proof fn law_tokens_come_in_their_header(
    header: Option<String>,
    rest: Seq<char>,
    result: ApiResult<String>,
)
    requires
        call_ensures(bearer_token, (&None::<String>, &header), result),
    ensures
        header is None ==> (result matches Err(error) && error.status == 401),
        header is Some && ((header->0)@ == "Bearer "@ + rest || (header->0)@ == "bearer "@ + rest)
            ==> result is Ok && result->Ok_0@ == trimmed(rest),
        header is Some && !begins_with((header->0)@, "Bearer "@) && !begins_with(
            (header->0)@,
            "bearer "@,
        ) ==> (result matches Err(error) && error.status == 401),
{
    reveal_strlit("Bearer ");
    reveal_strlit("bearer ");
    assert(("Bearer "@ + rest).take("Bearer "@.len() as int) =~= "Bearer "@);
    assert(("bearer "@ + rest).take("bearer "@.len() as int) =~= "bearer "@);
    assert(("Bearer "@ + rest).skip("Bearer "@.len() as int) =~= rest);
    assert(("bearer "@ + rest).skip("bearer "@.len() as int) =~= rest);
    if header is Some && (header->0)@ == "bearer "@ + rest {
        assert((header->0)@[0] == 'b');
        assert((header->0)@.take("Bearer "@.len() as int)[0] == 'b');
        assert("Bearer "@[0] == 'B');
    }
}

/// An operator is whoever presents the credential that the relay keeps the hash of.
pub proof fn law_operators_present_their_credential(
    token: ApiResult<String>,
    expected: Option<String>,
    result: ApiResult<OperatorAuth>,
)
    requires
        call_ensures(authenticate_operator, (&token, &expected), result),
    ensures
        result is Ok <==> token is Ok && expected is Some && stored_hash(token->Ok_0@) == (
        expected->0)@,
        token is Err ==> (result matches Err(error) && error.status == 401),
        token is Ok && expected is None ==> (result matches Err(error) && error.status == 500),
{
}

/// A challenge is drafted for the operation, the key and the owner that were asked for, and
/// exactly where everything speaks for it.
pub proof fn law_challenges_are_drafted_as_asked(
    request: ChallengeRequest,
    settings: ChallengeSettings,
    answers: ChallengeAnswers,
    step: Step<ChallengeQuestion, ChallengeDraft>,
)
    requires
        call_ensures(create_challenge, (&request, &settings, answers), step),
    ensures
        step matches Step::Done(draft) ==> {
            &&& request.operation@ == (match draft.operation {
                Operation::RegisterIdentity => "register_identity"@,
                Operation::AuthenticateIdentity => "authenticate_identity"@,
                Operation::RegisterDevice => "register_device"@,
                Operation::AuthenticateDevice => "authenticate_device"@,
            })
            &&& draft.algorithm@ == "ed25519"@
            &&& decoded(request.key.public_key@) == Some(draft.public_key@)
            &&& draft.fingerprint@ == fingerprint_text("ed25519"@, draft.public_key@)
            &&& draft.operation == Operation::RegisterDevice ==> option_view(draft.owner)
                == option_view(request.owner_identity_id) && draft.owner is Some && answers.owner
                == Some(true) && settings.device_registration
            &&& draft.operation != Operation::RegisterDevice ==> draft.owner is None
            &&& draft.operation == Operation::RegisterIdentity ==> settings.identity_registration
            &&& settings.rate_limit is None || (answers.source == Some(true) && answers.fingerprint
                == Some(true))
        },
        step matches Step::Ask(ChallengeQuestion::IdentityExists(identity)) ==> option_view(
            request.owner_identity_id,
        ) == Some(identity@) && answers.owner is None,
        request.operation@ == "register_identity"@ && !settings.identity_registration
            ==> !(step is Done),
        request.operation@ == "register_device"@ && !settings.device_registration ==> !(
        step is Done),
{
    lemma_operation_words();
    if let Step::Done(draft) = step {
        let shown = draft@;
    }
    if let Step::Ask(question) = step {
        let shown = question@;
    }
}

proof fn lemma_operation_words()
    ensures
        "register_identity"@.len() == 17,
        "authenticate_identity"@.len() == 21,
        "register_device"@.len() == 15,
        "authenticate_device"@.len() == 19,
{
    reveal_strlit("register_identity");
    reveal_strlit("authenticate_identity");
    reveal_strlit("register_device");
    reveal_strlit("authenticate_device");
}

/// A sound request for a challenge is granted.
pub proof fn law_sound_requests_get_a_challenge(
    request: ChallengeRequest,
    settings: ChallengeSettings,
    answers: ChallengeAnswers,
    step: Step<ChallengeQuestion, ChallengeDraft>,
    key: Seq<u8>,
)
    requires
        call_ensures(create_challenge, (&request, &settings, answers), step),
        lowered(trimmed(request.key.algorithm@)) == "ed25519"@,
        exists|i: int|
            0 <= i < settings.supported_algorithms@.len() && lowered(
                (#[trigger] settings.supported_algorithms@[i])@,
            ) == lowered("ed25519"@),
        decoded(request.key.public_key@) == Some(key),
        key.len() == 32,
        ed25519_valid_key(key),
        settings.rate_limit is None || (answers.source == Some(true) && answers.fingerprint == Some(
            true,
        )),
    ensures
        request.operation@ == "authenticate_identity"@ || request.operation@
            == "authenticate_device"@ ==> step is Done,
        request.operation@ == "register_identity"@ && settings.identity_registration
            ==> step is Done,
        request.operation@ == "register_device"@ && settings.device_registration
            && request.owner_identity_id is Some && answers.owner == Some(true) ==> step is Done,
{
    let i = choose|i: int|
        0 <= i < settings.supported_algorithms@.len() && lowered(
            (#[trigger] settings.supported_algorithms@[i])@,
        ) == lowered("ed25519"@);
    assert(texts(settings.supported_algorithms@)[i] == settings.supported_algorithms@[i]@);
    lemma_operation_words();
}

/// A challenge that was claimed is met by a signature of its own key over itself, for an
/// operation that is expected; and each failure is told as what it is.
pub proof fn law_challenges_are_met_by_their_key(
    challenge_id: &str,
    signature: &str,
    claim: ChallengeClaim,
    expected: &[Operation],
    origin: &str,
    step: Step<ClaimChallenge, ()>,
    checked: ApiResult<()>,
)
    requires
        call_ensures(
            verify_challenge,
            (challenge_id, signature, &Some(claim), expected, origin),
            step,
        ),
        call_ensures(check_claim, (&claim,), checked),
    ensures
        step is Done <==> {
            &&& decoded(signature@) is Some
            &&& (decoded(signature@)->0).len() == 64
            &&& claim matches ChallengeClaim::Claimed(record) && {
                &&& expected@.contains(record.operation)
                &&& record.algorithm@ == "ed25519"@
                &&& record.public_key@.len() == 32
                &&& ed25519_accepts(
                    record.public_key@,
                    binding_of(record@, origin@).signed_bytes(),
                    decoded(signature@)->0,
                )
            }
        },
        checked is Ok <==> claim is Claimed,
        claim is AlreadyConsumed ==> (checked matches Err(error) && error.status == 401
            && error.code@ == "challenge_consumed"@),
        claim is Expired ==> (checked matches Err(error) && error.status == 401 && error.code@
            == "challenge_expired"@),
        claim is Unknown ==> (checked matches Err(error) && error.status == 401 && error.code@
            == "challenge_invalid"@),
{
    let shown = claim@;
    if let ChallengeClaim::Claimed(record) = claim {
        assert(shown->Claimed_0 == record@);
    }
    if let Err(error) = checked {
        let told = error@;
    }
}

/// An identity is registered as that of the key that signed, if and only if registration is
/// enabled, nothing was answered under the same key before, its source is within its
/// limit and the proof holds; it is created unless it is known.
pub proof fn law_identities_are_registered_by_their_key(
    enabled: bool,
    client: &str,
    request: SignedRequest,
    rate_limit: Option<(i64, u64)>,
    origin: &str,
    answers: IdentityAnswers,
    now: i64,
    step: Step<IdentityQuestion, IdentityOutcome>,
)
    requires
        i64::MIN <= now - 3_600_000,
        call_ensures(
            register_identity,
            (enabled, client, &Ok::<SignedRequest, ApiError>(request), rate_limit, origin, &answers, now),
            step,
        ),
    ensures
        !enabled ==> (step matches Step::Refuse(error) && error.status == 403),
        (step matches Step::Done(
            IdentityOutcome::Registered { identity_id, created_at, created },
        ) ==> {
            &&& enabled
            &&& answers.claim matches Some(ChallengeClaim::Claimed(record)) && {
                &&& record.operation == Operation::RegisterIdentity
                &&& identity_id@ == fingerprint_text(record.algorithm@, record.public_key@)
                &&& ed25519_accepts(
                    record.public_key@,
                    binding_of(record@, origin@).signed_bytes(),
                    decoded(request.signature@)->0,
                )
            }
            &&& answers.created_at matches Some(known) && {
                &&& created <==> known is None
                &&& known is None ==> created_at == now
                &&& known is Some ==> created_at == known->0
            }
            &&& rate_limit matches Some((limit, wait)) ==> answers.registrations is Some
                && answers.registrations->0 < limit
        }),
        (step matches Step::Ask(IdentityQuestion::Registrations { source, since }) ==> source@
            == client@ && now - since == 3_600_000),
        (step matches Step::Ask(IdentityQuestion::Claim(question)) ==> question.challenge_id@
            == request.challenge_id@),
        (step matches Step::Ask(IdentityQuestion::CreatedAt(identity)) ==> (
        answers.claim matches Some(ChallengeClaim::Claimed(record)) && identity@
            == fingerprint_text(record.algorithm@, record.public_key@))),
{
    if let Step::Done(outcome) = step {
        let shown = outcome@;
    }
    if let Step::Ask(question) = step {
        let shown = question@;
        if let IdentityQuestion::Claim(claim) = question {
            let inner = claim@;
        }
    }
    if let Some(ChallengeClaim::Claimed(record)) = answers.claim {
        assert(option_view(answers.claim)->0->Claimed_0 == record@);
    }
}

/// A ticket is for one path, and goes to whoever may use that path: the device itself, or
/// the owner of the terminal.
pub proof fn law_tickets_are_for_their_path(
    auth: Auth,
    request: TicketRequest,
    terminal: Option<Option<TerminalRow>>,
    step: Step<FindTerminal, String>,
)
    requires
        call_ensures(create_websocket_ticket, (&auth, &request, &terminal), step),
    ensures
        ({
            let path = trimmed(request.path@);
            let parts = path_parts(path);
            let id = uuid_value(parts[2]);
            let relay = parts.len() == 4 && parts[0] == "v1"@ && parts[1] == "devices"@ && parts[3]
                == "relay"@ && id is Some;
            let mirror = parts.len() == 4 && parts[0] == "v1"@ && parts[1] == "terminals"@
                && parts[3] == "mirror"@ && id is Some;
            &&& step matches Step::Done(granted) ==> granted@ == path && (relay || mirror)
            &&& relay ==> (step is Done <==> texts(auth.scopes@).contains("terminals:publish"@)
                && auth.kind == PrincipalKind::Device && auth.principal_id@ == uuid_text(id->0))
            &&& mirror && !relay ==> (step is Done <==> texts(auth.scopes@).contains(
                "terminals:mirror"@,
            ) && (terminal matches Some(Some(row)) && row.identity_id@ == auth.identity_id@))
            &&& mirror && !relay ==> (step matches Step::Ask(question) ==> question.terminal_id
                == (Uuid { value: id->0 }) && terminal is None)
        }),
{
    if let Step::Done(granted) = step {
        assert(granted@ == trimmed(request.path@));
    }
}

/// A connection speaks for its ticket where it has one, from its header or its cookie, and
/// for its token otherwise; a ticket is looked up by its hash.
pub proof fn law_connections_speak_for_their_credential(
    headers: UpgradeHeaders,
    answers: UpgradeAnswers,
    step: Step<UpgradeQuestion, Auth>,
)
    requires
        call_ensures(authenticate_upgrade, (&headers, &answers), step),
    ensures
        ({
            let cookie = option_view(headers.cookie);
            let has_ticket = headers.ticket is Some || cookie_in(cookie, "relay_ticket"@) is Some;
            let raw = if headers.ticket is Some {
                (headers.ticket->0)@
            } else {
                cookie_in(cookie, "relay_ticket"@)->0
            };
            &&& step matches Step::Ask(UpgradeQuestion::Ticket(hash)) ==> has_ticket && hash@
                == stored_hash(raw)
            &&& has_ticket ==> (step is Done <==> (answers.ticket matches Some(Some(_))))
            &&& has_ticket && step is Done ==> {
                let record = (answers.ticket->0)->0;
                let auth = step->Done_0;
                &&& auth.kind == record.principal_kind
                &&& auth.principal_id@ == record.principal_id@
                &&& auth.identity_id@ == record.identity_id@
                &&& texts(auth.scopes@) == texts(record.scopes@)
            }
            &&& !has_ticket && step is Done ==> {
                let claims = (answers.claims->0)->Ok_0;
                let auth = step->Done_0;
                &&& answers.claims matches Some(Ok(_))
                &&& answers.revoked == Some(false)
                &&& auth.kind == claims.principal
                &&& auth.principal_id@ == claims.sub@
                &&& auth.identity_id@ == claims.identity_id@
                &&& texts(auth.scopes@) == texts(claims.scopes@)
                &&& auth.jti@ == claims.jti@
            }
        }),
{
    if let Step::Done(auth) = step {
        let shown = auth@;
    }
    if let Step::Ask(question) = step {
        let shown = question@;
    }
}

/// The newer version is spoken where it is offered, the older one where only that is, and
/// none where neither is.
pub proof fn law_versions_are_agreed_on(
    offered: &str,
    v1: &str,
    v2: &str,
    result: ApiResult<ProtocolVersion>,
)
    requires
        call_ensures(negotiate, (offered, v1, v2), result),
    ensures
        offers(offered@, v2@) ==> result is Ok && result->Ok_0 == ProtocolVersion::V2,
        !offers(offered@, v2@) && offers(offered@, v1@) ==> result is Ok && result->Ok_0
            == ProtocolVersion::V1,
        !offers(offered@, v2@) && !offers(offered@, v1@) ==> (result matches Err(error)
            && error.status == 400),
{
}

} // verus!
