//! Which counters a request moves, told by how it ended.

use crate::relay::auth::{
    authenticated, requested_challenge, requested_token, verified_challenge, ChallengeAnswers,
    ChallengeStep,
};
use crate::relay::crypto::{admitted_key, Claims, Operation};
use crate::relay::error::{code, outcome, ApiError, ApiResult, Refusal};
use crate::relay::repo::{ChallengeClaim, Device};
use crate::relay::step::{step_view, Step, StepModel};
use crate::relay::terminals::{OpenCount, OpenStep};
use crate::text;
use vstd::prelude::*;

verus! {

/// The counters that one request moves, each by one.
#[derive(Debug, Clone, Copy, PartialEq, Eq, Structural)]
pub struct Moved {
    pub auth_failures: bool,
    pub auth_successes: bool,
    pub challenges_issued: bool,
    pub challenges_consumed: bool,
    pub rate_limited_requests: bool,
    pub device_revocations: bool,
    pub open_requests: OpenCount,
}

impl Moved {
    /// No counter moves.
    pub open spec fn none() -> Moved {
        Moved {
            auth_failures: false,
            auth_successes: false,
            challenges_issued: false,
            challenges_consumed: false,
            rate_limited_requests: false,
            device_revocations: false,
            open_requests: OpenCount::Nowhere,
        }
    }

    /// No counter moves.
    pub fn nothing() -> (moved: Self)
        ensures
            moved == Moved::none(),
    {
        Moved {
            auth_failures: false,
            auth_successes: false,
            challenges_issued: false,
            challenges_consumed: false,
            rate_limited_requests: false,
            device_revocations: false,
            open_requests: OpenCount::Nowhere,
        }
    }
}

/// A request was refused because there were too many.
pub open spec fn is_limit(refusal: Refusal) -> bool {
    refusal.code == code::RATE_LIMITED@
}

fn limits(error: &ApiError) -> (limited: bool)
    ensures
        limited == is_limit(error@),
{
    text::same(error.code, code::RATE_LIMITED)
}

/// Authenticating a request or an upgrade: a principal is a success, and a refusal is a
/// failure, unless the principal was authentic and only asked too often.
pub open spec fn authentication_moves<Q, T>(step: StepModel<Q, T>) -> Moved {
    match step {
        StepModel::Ask(question) => Moved::none(),
        StepModel::Done(principal) => Moved { auth_successes: true, ..Moved::none() },
        StepModel::Refuse(refusal) => Moved {
            auth_failures: !is_limit(refusal),
            rate_limited_requests: is_limit(refusal),
            ..Moved::none()
        },
    }
}

/// Which counters the authentication of a request or an upgrade moves.
pub fn authentication<Q: View, T: View>(step: &Step<Q, T>) -> (moved: Moved)
    ensures
        moved == authentication_moves(step_view(*step)),
{
    let mut moved = Moved::nothing();
    match step {
        Step::Ask(question) => {},
        Step::Done(principal) => {
            moved.auth_successes = true;
        },
        Step::Refuse(error) => {
            moved.rate_limited_requests = limits(error);
            moved.auth_failures = !moved.rate_limited_requests;
        },
    }
    moved
}

/// Authenticating an operator: a credential that is missing or wrong is a failure, but a
/// relay without a credential to hold it against is not.
pub open spec fn operator_moves<T>(result: Result<T, Refusal>) -> Moved {
    match result {
        Ok(operator) => Moved { auth_successes: true, ..Moved::none() },
        Err(refusal) => Moved {
            auth_failures: refusal.code == code::UNAUTHORIZED@,
            ..Moved::none()
        },
    }
}

/// Which counters the authentication of an operator moves.
pub fn operator<T: View>(result: &ApiResult<T>) -> (moved: Moved)
    ensures
        moved == operator_moves(outcome(*result)),
{
    let mut moved = Moved::nothing();
    match result {
        Ok(operator) => {
            moved.auth_successes = true;
        },
        Err(error) => {
            moved.auth_failures = text::same(error.code, code::UNAUTHORIZED);
        },
    }
    moved
}

/// Reading the metrics: only a credential that was presented and is wrong is a failure.
pub open spec fn reading_moves(result: Result<(), Refusal>, presented: bool) -> Moved {
    match result {
        Ok(()) => Moved::none(),
        Err(refusal) => Moved {
            auth_failures: presented && refusal.code == code::UNAUTHORIZED@,
            ..Moved::none()
        },
    }
}

/// Which counters a request for the metrics moves. `presented` says that it carried a
/// bearer token.
pub fn reading(result: &ApiResult<()>, presented: bool) -> (moved: Moved)
    ensures
        moved == reading_moves(outcome(*result), presented),
{
    let mut moved = Moved::nothing();
    match result {
        Ok(()) => {},
        Err(error) => {
            moved.auth_failures = presented && text::same(error.code, code::UNAUTHORIZED);
        },
    }
    moved
}

/// Asking for a challenge: one that is handed out is counted, and a request that was one
/// too many.
pub open spec fn issue_moves<Q, T>(step: StepModel<Q, T>) -> Moved {
    match step {
        StepModel::Ask(question) => Moved::none(),
        StepModel::Done(draft) => Moved { challenges_issued: true, ..Moved::none() },
        StepModel::Refuse(refusal) => Moved {
            rate_limited_requests: is_limit(refusal),
            ..Moved::none()
        },
    }
}

/// Which counters a request for a challenge moves.
pub fn issue<Q: View, T: View>(step: &Step<Q, T>) -> (moved: Moved)
    ensures
        moved == issue_moves(step_view(*step)),
{
    let mut moved = Moved::nothing();
    match step {
        Step::Ask(question) => {},
        Step::Done(draft) => {
            moved.challenges_issued = true;
        },
        Step::Refuse(error) => {
            moved.rate_limited_requests = limits(error);
        },
    }
    moved
}

/// Registering an identity, or asking for a token: a challenge that was claimed counts as
/// used up, and what is refused from there on is a failure, unless it was one too many.
pub open spec fn proof_moves<Q, T>(step: StepModel<Q, T>, claimed: bool) -> Moved {
    match step {
        StepModel::Ask(question) => Moved::none(),
        StepModel::Done(granted) => Moved { challenges_consumed: claimed, ..Moved::none() },
        StepModel::Refuse(refusal) => Moved {
            challenges_consumed: claimed,
            auth_failures: claimed && !is_limit(refusal),
            rate_limited_requests: is_limit(refusal),
            ..Moved::none()
        },
    }
}

/// Which counters the registration of an identity or a request for a token moves.
/// `claimed` says that its challenge was looked up, whatever came of that.
pub fn proven<Q: View, T: View>(step: &Step<Q, T>, claimed: bool) -> (moved: Moved)
    ensures
        moved == proof_moves(step_view(*step), claimed),
{
    let mut moved = Moved::nothing();
    match step {
        Step::Ask(question) => {},
        Step::Done(granted) => {
            moved.challenges_consumed = claimed;
        },
        Step::Refuse(error) => {
            moved.challenges_consumed = claimed;
            moved.rate_limited_requests = limits(error);
            moved.auth_failures = claimed && !moved.rate_limited_requests;
        },
    }
    moved
}

/// Registering a device: a challenge that was claimed counts as used up, and only a
/// signature that does not verify is a failure.
pub open spec fn registration_moves<Q, T>(step: StepModel<Q, T>, claimed: bool) -> Moved {
    match step {
        StepModel::Ask(question) => Moved::none(),
        StepModel::Done(device) => Moved { challenges_consumed: claimed, ..Moved::none() },
        StepModel::Refuse(refusal) => Moved {
            challenges_consumed: claimed,
            auth_failures: refusal.code == code::SIGNATURE_INVALID@,
            ..Moved::none()
        },
    }
}

/// Which counters the registration of a device moves. `claimed` says that its challenge
/// was looked up, whatever came of that.
pub fn registration<Q: View, T: View>(step: &Step<Q, T>, claimed: bool) -> (moved: Moved)
    ensures
        moved == registration_moves(step_view(*step), claimed),
{
    let mut moved = Moved::nothing();
    match step {
        Step::Ask(question) => {},
        Step::Done(device) => {
            moved.challenges_consumed = claimed;
        },
        Step::Refuse(error) => {
            moved.challenges_consumed = claimed;
            moved.auth_failures = text::same(error.code, code::SIGNATURE_INVALID);
        },
    }
    moved
}

/// Holding a connection against its limits: one that was one too many is counted.
pub open spec fn connection_moves<Q, T>(step: StepModel<Q, T>) -> Moved {
    match step {
        StepModel::Refuse(refusal) => Moved {
            rate_limited_requests: is_limit(refusal),
            ..Moved::none()
        },
        _ => Moved::none(),
    }
}

/// Which counters the limits of a connection move.
pub fn connection<Q: View, T: View>(step: &Step<Q, T>) -> (moved: Moved)
    ensures
        moved == connection_moves(step_view(*step)),
{
    let mut moved = Moved::nothing();
    match step {
        Step::Refuse(error) => {
            moved.rate_limited_requests = limits(error);
        },
        _ => {},
    }
    moved
}

/// Which counter a request for a terminal moves.
pub fn opening(step: &OpenStep) -> (moved: Moved)
    ensures
        moved == (Moved { open_requests: step@.count(), ..Moved::none() }),
{
    let mut moved = Moved::nothing();
    match step {
        OpenStep::Refuse { error, pending, counted } => {
            moved.open_requests = *counted;
        },
        OpenStep::Opened { terminal_id, deduplicated, pending } => {
            moved.open_requests = OpenCount::Opened;
        },
        _ => {},
    }
    moved
}

/// Which counter the revocation of a device moves: revoking it again changes nothing and
/// is not counted.
pub fn revocation(changed: bool) -> (moved: Moved)
    ensures
        moved == (Moved { device_revocations: changed, ..Moved::none() }),
{
    let mut moved = Moved::nothing();
    moved.device_revocations = changed;
    moved
}

/// A request's authentication is counted once, when it is over: as a success exactly if
/// it has a principal, as limited exactly if an authentic principal was over its limit,
/// and else as a failure. What the token comes to is never itself a limit.
pub proof fn law_authentications_are_counted_once(
    token: Result<Seq<char>, Refusal>,
    claims: Option<Result<Claims, Refusal>>,
    revoked: Option<bool>,
    rate_limit: Option<u64>,
    within_limit: Option<bool>,
)
    requires
        token matches Err(refusal) ==> !is_limit(refusal),
        claims matches Some(Err(refusal)) ==> !is_limit(refusal),
    ensures
        ({
            let step = authenticated(token, claims, revoked, rate_limit, within_limit);
            let moved = authentication_moves(step);
            &&& moved.auth_successes <==> step is Done
            &&& moved.rate_limited_requests <==> token is Ok && claims is Some && claims->0 is Ok
                && revoked == Some(false) && rate_limit is Some && within_limit == Some(false)
            &&& moved.auth_failures <==> step is Refuse && !moved.rate_limited_requests
        }),
{
    reveal_strlit("rate_limited");
    reveal_strlit("device_revoked");
    assert(code::RATE_LIMITED@.len() != code::DEVICE_REVOKED@.len());
}

/// A request for a challenge is counted as limited exactly if its operation and its key
/// are good and its source or its key is over its limit.
pub proof fn law_limited_challenges_are_counted(
    word: Seq<char>,
    operation: Option<Operation>,
    algorithm: Seq<char>,
    supported: Seq<Seq<char>>,
    bytes: Option<Seq<u8>>,
    valid_point: bool,
    rate_limit: Option<u64>,
    identity_registration: bool,
    device_registration: bool,
    owner: Option<Seq<char>>,
    answers: ChallengeAnswers,
)
    ensures
        ({
            let key = admitted_key(algorithm, supported, bytes, valid_point);
            let step: ChallengeStep = requested_challenge(
                word,
                operation,
                key,
                rate_limit,
                identity_registration,
                device_registration,
                owner,
                answers,
            );
            &&& issue_moves(step).challenges_issued <==> step is Done
            &&& issue_moves(step).rate_limited_requests <==> operation is Some && key is Ok
                && rate_limit is Some && (answers.source == Some(false) || (answers.source == Some(
                true,
            ) && answers.fingerprint == Some(false)))
        }),
{
    reveal_strlit("rate_limited");
    reveal_strlit("invalid_request");
    reveal_strlit("validation_failed");
    reveal_strlit("unsupported_algorithm");
    reveal_strlit("feature_disabled");
    let limited = code::RATE_LIMITED@.len();
    assert(code::INVALID_REQUEST@.len() != limited && code::VALIDATION_FAILED@.len() != limited);
    assert(code::UNSUPPORTED_ALGORITHM@.len() != limited);
    assert(code::FEATURE_DISABLED@.len() != limited);
}

/// A request for a token is counted once, when it is over: its challenge as used up if it
/// was looked up, as limited exactly if it was verified and its key is over its limit, and
/// as a failure exactly if it was refused otherwise after its challenge was looked up.
pub proof fn law_requests_for_tokens_are_counted_once(
    challenge_id: Seq<char>,
    signature: Seq<u8>,
    origin: Seq<char>,
    rate_limit: Option<u64>,
    scopes: (Seq<Seq<char>>, Seq<Seq<char>>, Seq<Seq<char>>),
    claim: Option<ChallengeClaim<Seq<char>, Seq<u8>>>,
    within_limit: Option<bool>,
    identity_exists: Option<bool>,
    device: Option<Option<Device<Seq<char>, Seq<u8>>>>,
)
    ensures
        ({
            let step = requested_token(
                challenge_id,
                Some(signature),
                origin,
                rate_limit,
                scopes.0,
                scopes.1,
                scopes.2,
                claim,
                within_limit,
                identity_exists,
                device,
            );
            let verified = verified_challenge(
                challenge_id,
                Some(signature),
                claim,
                seq![Operation::AuthenticateIdentity, Operation::AuthenticateDevice],
                origin,
            );
            let moved = proof_moves(step, claim is Some);
            &&& moved.challenges_consumed <==> claim is Some && !(step is Ask)
            &&& moved.rate_limited_requests <==> verified is Done && rate_limit is Some
                && within_limit == Some(false)
            &&& moved.auth_failures <==> step is Refuse && !moved.rate_limited_requests
        }),
{
    reveal_strlit("rate_limited");
    reveal_strlit("unauthorized");
    reveal_strlit("device_revoked");
    reveal_strlit("challenge_consumed");
    reveal_strlit("challenge_expired");
    reveal_strlit("challenge_invalid");
    reveal_strlit("signature_invalid");
    let limited = code::RATE_LIMITED@;
    assert(code::UNAUTHORIZED@[0] != limited[0]);
    assert(code::DEVICE_REVOKED@.len() != limited.len());
    assert(code::CHALLENGE_CONSUMED@.len() != limited.len());
    assert(code::CHALLENGE_EXPIRED@.len() != limited.len());
    assert(code::CHALLENGE_INVALID@.len() != limited.len());
    assert(code::SIGNATURE_INVALID@.len() != limited.len());
}

} // verus!
