//! Proof-of-possession registration and authentication.

use crate::ed25519::{ed25519_accepts, ed25519_public_key, ed25519_signature, is_degenerate};
use crate::encoding::{b64_decode, b64_encode, base64url, decoded};
use crate::ids::{uuid_text, Uuid};
use crate::json;
use crate::json::{comes_first_at, is_name, is_orderly, is_written, json_string, object_text};
use crate::publisher::crypto::{fingerprint_text, is_good_signature};
use crate::relay::crypto::{
    admitted_key, ct_eq, hash_operator_token, scope, stored_hash, Binding, Claims, DeviceRole,
    KeyModel, Operation, PrincipalKind, PublicKey, SigningInput, TokenClaims, ALGORITHM_ED25519,
    CHALLENGE_SIGNATURE_CONTEXT,
};
use crate::relay::error::{code, outcome, ApiError, ApiResult, Refusal};
use crate::relay::idempotency::{identity_subject, Remembered, Replay, Subject};
use crate::relay::repo::{expiry, ChallengeClaim, ChallengeRecord, Device};
use crate::relay::step::{step_view, Step, StepModel};
use crate::text;
use crate::text::{
    begins_with, first_of, lowered, option_view, split_on, texts, trimmed,
};
use vstd::prelude::*;

verus! {

/// An authenticated identity or device.
#[derive(Debug, Clone)]
pub struct Auth<S = String, L = Vec<String>> {
    pub kind: PrincipalKind,
    pub principal_id: S,
    pub identity_id: S,
    pub scopes: L,
    pub jti: S,
}

impl View for Auth {
    type V = Auth<Seq<char>, Seq<Seq<char>>>;

    open spec fn view(&self) -> Auth<Seq<char>, Seq<Seq<char>>> {
        Auth {
            kind: self.kind,
            principal_id: self.principal_id@,
            identity_id: self.identity_id@,
            scopes: texts(self.scopes@),
            jti: self.jti@,
        }
    }
}

/// The refusal of a credential without a scope.
pub open spec fn missing_scope(scope: Seq<char>) -> Refusal {
    Refusal::insufficient_scope("this operation requires the "@ + scope + " scope"@)
}

/// The refusal of a credential that is not an identity's.
pub open spec fn not_an_identity() -> Refusal {
    Refusal::insufficient_scope("this operation requires an identity token"@)
}

impl Auth {
    pub fn require_scope(&self, scope: &str) -> (result: ApiResult<()>)
        ensures
            outcome(result) == (if self@.scopes.contains(scope@) {
                Ok::<(), Refusal>(())
            } else {
                Err::<(), Refusal>(missing_scope(scope@))
            }),
    {
        if text::holds(self.scopes.as_slice(), scope) {
            Ok(())
        } else {
            let words = "this operation requires the ".to_owned().concat(scope).concat(" scope");
            Err(ApiError::insufficient_scope(words.as_str()))
        }
    }

    pub fn require_identity(&self) -> (result: ApiResult<()>)
        ensures
            outcome(result) == (if self.kind == PrincipalKind::Identity {
                Ok::<(), Refusal>(())
            } else {
                Err::<(), Refusal>(not_an_identity())
            }),
    {
        match self.kind {
            PrincipalKind::Identity => Ok(()),
            PrincipalKind::Device => Err(
                ApiError::insufficient_scope("this operation requires an identity token"),
            ),
        }
    }
}

/// The name of one part of a query string.
pub open spec fn query_key(pair: Seq<char>) -> Seq<char> {
    pair.take(first_of(pair, '=') as int)
}

/// Names under which a credential must never appear in a query string.
pub open spec fn is_forbidden_key(key: Seq<char>) -> bool {
    ||| lowered(key) == "access_token"@
    ||| lowered(key) == "token"@
    ||| lowered(key) == "ticket"@
    ||| lowered(key) == "bearer"@
}

/// A query string that names a credential.
pub open spec fn carries_credential(query: Seq<char>) -> bool {
    exists|i: int|
        0 <= i < split_on(query, '&').len() && is_forbidden_key(
            query_key(#[trigger] split_on(query, '&')[i]),
        )
}

/// The token in an `Authorization` header, if it uses the Bearer scheme.
pub open spec fn header_token(header: Seq<char>) -> Option<Seq<char>> {
    if begins_with(header, "Bearer "@) {
        Some(trimmed(header.skip("Bearer "@.len() as int)))
    } else if begins_with(header, "bearer "@) {
        Some(trimmed(header.skip("bearer "@.len() as int)))
    } else {
        None
    }
}

/// What the credentials of a request come to.
pub open spec fn presented(query: Option<Seq<char>>, header: Option<Seq<char>>) -> Result<
    Seq<char>,
    Refusal,
> {
    if query is Some && carries_credential(query->0) {
        Err(
            Refusal::invalid(
                "credentials must not be supplied in the query string; use the Authorization header"@,
            ),
        )
    } else {
        match header {
            None => Err(Refusal::unauthorized("missing Authorization header"@)),
            Some(header) => match header_token(header) {
                None => Err(
                    Refusal::unauthorized("Authorization header must use the Bearer scheme"@),
                ),
                Some(token) => Ok(token),
            },
        }
    }
}

fn names_credential(query: &str) -> (found: bool)
    ensures
        found == carries_credential(query@),
{
    let pairs = text::split(query, '&');
    let ghost model = split_on(query@, '&');
    let mut index: usize = 0;
    while index < pairs.len()
        invariant
            index <= pairs@.len(),
            model == texts(pairs@),
            model == split_on(query@, '&'),
            forall|i: int| 0 <= i < index ==> !is_forbidden_key(query_key(#[trigger] model[i])),
        decreases pairs@.len() - index,
    {
        let key = match text::split_once(pairs[index].as_str(), '=') {
            Some((key, value)) => key,
            None => pairs[index].as_str().to_owned(),
        };
        proof {
            text::lemma_first_of_bound(model[index as int], '=');
            assert(key@ =~= query_key(model[index as int]));
        }
        let key = text::to_lower(key.as_str());
        if text::same(key.as_str(), "access_token") || text::same(key.as_str(), "token")
            || text::same(key.as_str(), "ticket") || text::same(key.as_str(), "bearer") {
            assert(is_forbidden_key(query_key(model[index as int])));
            return true;
        }
        index = index + 1;
    }
    false
}

/// The token in an `Authorization` header, if it uses the Bearer scheme.
pub fn bearer_of(header: &str) -> (token: Option<String>)
    ensures
        option_view(token) == header_token(header@),
{
    match text::strip_prefix(header, "Bearer ") {
        Some(rest) => Some(text::trim(rest.as_str())),
        None => match text::strip_prefix(header, "bearer ") {
            Some(rest) => Some(text::trim(rest.as_str())),
            None => None,
        },
    }
}

/// Extract the bearer token, rejecting any attempt to pass one in the query string.
pub fn bearer_token(query: &Option<String>, header: &Option<String>) -> (result: ApiResult<String>)
    ensures
        outcome(result) == presented(option_view(*query), option_view(*header)),
{
    match query {
        Some(query) => {
            // Token material must never appear in a URL.
            if names_credential(query.as_str()) {
                return Err(
                    ApiError::invalid(
                        "credentials must not be supplied in the query string; use the Authorization header",
                    ),
                );
            }
        },
        None => {},
    }
    match header {
        None => Err(ApiError::unauthorized("missing Authorization header")),
        Some(header) => match bearer_of(header.as_str()) {
            Some(token) => Ok(token),
            None => Err(ApiError::unauthorized("Authorization header must use the Bearer scheme")),
        },
    }
}

/// How a device stands when its token is checked.
#[derive(Debug, Clone, Copy, PartialEq, Eq, Structural)]
pub enum Standing {
    Active,
    Revoked,
    Missing,
}

/// Whether a token of a principal no longer counts. `cutoff` is the time, in seconds, up
/// to which the principal's tokens were invalidated, if they were; `device` is how the
/// device stands, for a device's token. Checked on every request, so that a revoked
/// device loses access at once rather than when its token expires.
pub fn is_revoked(
    cutoff: Option<i64>,
    issued_at: i64,
    kind: PrincipalKind,
    device: Standing,
) -> (revoked: bool)
    ensures
        revoked == ((cutoff is Some && cutoff->0 >= issued_at) || (kind == PrincipalKind::Device
            && device != Standing::Active)),
{
    match cutoff {
        Some(cutoff) => {
            if cutoff >= issued_at {
                return true;
            }
        },
        None => {},
    }
    match kind {
        PrincipalKind::Device => !matches!(device, Standing::Active),
        PrincipalKind::Identity => false,
    }
}

/// What a request's authentication still needs to know.
#[derive(Debug)]
pub enum AuthQuestion<S = String> {
    /// Verify this token.
    Verify(S),
    /// Whether the credentials of this principal have been revoked.
    Revoked(S),
    /// Whether this principal is within its request limit.
    WithinLimit(S),
}

impl View for AuthQuestion {
    type V = AuthQuestion<Seq<char>>;

    open spec fn view(&self) -> AuthQuestion<Seq<char>> {
        match self {
            AuthQuestion::Verify(token) => AuthQuestion::Verify(token@),
            AuthQuestion::Revoked(principal) => AuthQuestion::Revoked(principal@),
            AuthQuestion::WithinLimit(principal) => AuthQuestion::WithinLimit(principal@),
        }
    }
}

/// The principal that some claims speak for.
pub open spec fn principal_of(claims: Claims) -> Auth<Seq<char>, Seq<Seq<char>>> {
    Auth {
        kind: claims.principal,
        principal_id: claims.sub,
        identity_id: claims.identity_id,
        scopes: claims.scopes,
        jti: claims.jti,
    }
}

fn principal_from(claims: &TokenClaims) -> (auth: Auth)
    ensures
        auth@ == principal_of(claims@),
{
    Auth {
        kind: claims.principal,
        principal_id: claims.sub.as_str().to_owned(),
        identity_id: claims.identity_id.as_str().to_owned(),
        scopes: text::copy_texts(claims.scopes.as_slice()),
        jti: claims.jti.as_str().to_owned(),
    }
}

/// The refusal of a credential that was revoked.
pub open spec fn revoked_refusal() -> Refusal {
    Refusal::unauthorized("credential has been revoked"@).with_code(code::DEVICE_REVOKED@)
}

/// What authenticating a request comes to, as far as its answers go.
pub open spec fn authenticated(
    token: Result<Seq<char>, Refusal>,
    claims: Option<Result<Claims, Refusal>>,
    revoked: Option<bool>,
    rate_limit: Option<u64>,
    within_limit: Option<bool>,
) -> StepModel<AuthQuestion<Seq<char>>, Auth<Seq<char>, Seq<Seq<char>>>> {
    match token {
        Err(refusal) => StepModel::Refuse(refusal),
        Ok(token) => match claims {
            None => StepModel::Ask(AuthQuestion::Verify(token)),
            Some(Err(refusal)) => StepModel::Refuse(refusal),
            Some(Ok(claims)) => match revoked {
                None => StepModel::Ask(AuthQuestion::Revoked(claims.sub)),
                Some(true) => StepModel::Refuse(revoked_refusal()),
                Some(false) => match rate_limit {
                    None => StepModel::Done(principal_of(claims)),
                    Some(retry_after) => match within_limit {
                        None => StepModel::Ask(AuthQuestion::WithinLimit(claims.sub)),
                        Some(true) => StepModel::Done(principal_of(claims)),
                        Some(false) => StepModel::Refuse(Refusal::rate_limited(retry_after)),
                    },
                },
            },
        },
    }
}

/// The view of an answer that may not be there yet.
pub open spec fn answer_view<T: View>(answer: Option<ApiResult<T>>) -> Option<
    Result<T::V, Refusal>,
> {
    match answer {
        Some(result) => Some(outcome(result)),
        None => None,
    }
}

/// Authenticates a request: the token is verified, then looked up among the revoked, then
/// held against the principal's request limit. `rate_limit` is the number of seconds
/// after which a limited caller may try again, where limits apply.
pub fn authenticate(
    token: &ApiResult<String>,
    claims: &Option<ApiResult<TokenClaims>>,
    revoked: Option<bool>,
    rate_limit: Option<u64>,
    within_limit: Option<bool>,
) -> (step: Step<AuthQuestion, Auth>)
    ensures
        step_view(step) == authenticated(
            outcome(*token),
            answer_view(*claims),
            revoked,
            rate_limit,
            within_limit,
        ),
{
    let token = match token {
        Ok(token) => token,
        Err(error) => return Step::Refuse(error.copy()),
    };
    let claims = match claims {
        None => return Step::Ask(AuthQuestion::Verify(token.as_str().to_owned())),
        Some(Err(error)) => return Step::Refuse(error.copy()),
        Some(Ok(claims)) => claims,
    };
    match revoked {
        None => return Step::Ask(AuthQuestion::Revoked(claims.sub.as_str().to_owned())),
        Some(true) => return Step::Refuse(
            ApiError::unauthorized("credential has been revoked").with_code(code::DEVICE_REVOKED),
        ),
        Some(false) => {},
    }
    match rate_limit {
        None => {},
        Some(retry_after) => match within_limit {
            None => return Step::Ask(AuthQuestion::WithinLimit(claims.sub.as_str().to_owned())),
            Some(true) => {},
            Some(false) => return Step::Refuse(ApiError::rate_limited(retry_after)),
        },
    }
    Step::Done(principal_from(claims))
}

/// A revoked credential gets nothing: whatever else is answered, it is refused, and
/// refused as revoked.
pub proof fn law_revoked_credentials_are_refused(
    token: Seq<char>,
    claims: Claims,
    rate_limit: Option<u64>,
    within_limit: Option<bool>,
)
    ensures
        authenticated(
            Ok(token),
            Some(Ok(claims)),
            Some(true),
            rate_limit,
            within_limit,
        ) == StepModel::<AuthQuestion<Seq<char>>, Auth<Seq<char>, Seq<Seq<char>>>>::Refuse(
            revoked_refusal(),
        ),
{
}

/// An authenticated operator.
#[derive(Debug)]
pub struct OperatorAuth {
    /// Enough to correlate audit entries without recording the credential.
    pub principal: String,
}

impl View for OperatorAuth {
    type V = Seq<char>;

    open spec fn view(&self) -> Seq<char> {
        self.principal@
    }
}

/// What an operator's credential comes to. `hash` is what is stored of the credential
/// that was presented.
pub open spec fn operator_admitted(hash: Seq<char>, expected: Seq<char>) -> Result<
    Seq<char>,
    Refusal,
> {
    if hash == expected {
        Ok(
            "operator:"@ + hash.take(
                if hash.len() < 12 {
                    hash.len() as int
                } else {
                    12
                },
            ),
        )
    } else {
        Err(Refusal::unauthorized("operator authentication failed"@))
    }
}

/// Holds the hash of a presented operator credential against the configured one.
pub fn admit_operator(hash: &str, expected: &str) -> (result: ApiResult<OperatorAuth>)
    ensures
        outcome(result) == operator_admitted(hash@, expected@),
{
    proof {
        text::lemma_same_bytes(hash@, expected@);
    }
    if !ct_eq(hash.as_bytes(), expected.as_bytes()) {
        return Err(ApiError::unauthorized("operator authentication failed"));
    }
    let list = text::characters(hash);
    let size: usize = if list.len() < 12 {
        list.len()
    } else {
        12
    };
    let front = text::string_of(&list, 0, size);
    assert(front@ =~= hash@.take(size as int));
    Ok(OperatorAuth { principal: "operator:".to_owned().concat(front.as_str()) })
}

/// Operator authentication, deliberately a separate mechanism from that of identities
/// and devices. `expected` is the configured hash of the operator's credential.
pub fn authenticate_operator(token: &ApiResult<String>, expected: &Option<String>) -> (result:
    ApiResult<OperatorAuth>)
    ensures
        outcome(result) == (match outcome(*token) {
            Err(refusal) => Err(Refusal::unauthorized("operator authentication required"@)),
            Ok(token) => match option_view(*expected) {
                None => Err(Refusal::internal("no operator credential is configured"@)),
                Some(expected) => operator_admitted(stored_hash(token), expected),
            },
        }),
{
    let token = match token {
        Ok(token) => token,
        Err(error) => return Err(ApiError::unauthorized("operator authentication required")),
    };
    match expected {
        None => Err(ApiError::internal("no operator credential is configured")),
        Some(expected) => admit_operator(
            hash_operator_token(token.as_str()).as_str(),
            expected.as_str(),
        ),
    }
}

/// A public key as a request names it.
#[derive(Debug)]
pub struct KeyInput {
    pub algorithm: String,
    pub public_key: String,
}

/// A request for a challenge.
#[derive(Debug)]
pub struct ChallengeRequest {
    pub operation: String,
    pub key: KeyInput,
    /// Required to register a device: the identity that will own it.
    pub owner_identity_id: Option<String>,
}

/// What governs the handing out of challenges.
#[derive(Debug)]
pub struct ChallengeSettings {
    pub supported_algorithms: Vec<String>,
    /// Where limits apply, the seconds after which a limited caller may try again.
    pub rate_limit: Option<u64>,
    pub identity_registration: bool,
    pub device_registration: bool,
}

/// The answers to what handing out a challenge needs to know.
#[derive(Debug, Clone, Copy)]
pub struct ChallengeAnswers {
    /// The source is within its limit.
    pub source: Option<bool>,
    /// The key is within its limit.
    pub fingerprint: Option<bool>,
    /// The owner is a registered identity.
    pub owner: Option<bool>,
}

/// What handing out a challenge still needs to know.
#[derive(Debug)]
pub enum ChallengeQuestion<S = String> {
    SourceWithinLimit,
    FingerprintWithinLimit(S),
    IdentityExists(S),
}

impl View for ChallengeQuestion {
    type V = ChallengeQuestion<Seq<char>>;

    open spec fn view(&self) -> ChallengeQuestion<Seq<char>> {
        match self {
            ChallengeQuestion::SourceWithinLimit => ChallengeQuestion::SourceWithinLimit,
            ChallengeQuestion::FingerprintWithinLimit(fingerprint) =>
                ChallengeQuestion::FingerprintWithinLimit(fingerprint@),
            ChallengeQuestion::IdentityExists(identity) => ChallengeQuestion::IdentityExists(
                identity@,
            ),
        }
    }
}

/// A challenge that may be handed out.
#[derive(Debug)]
pub struct ChallengeDraft<S = String, B = Vec<u8>> {
    pub operation: Operation,
    pub algorithm: S,
    pub public_key: B,
    pub fingerprint: S,
    pub owner: Option<S>,
}

impl View for ChallengeDraft {
    type V = ChallengeDraft<Seq<char>, Seq<u8>>;

    open spec fn view(&self) -> ChallengeDraft<Seq<char>, Seq<u8>> {
        ChallengeDraft {
            operation: self.operation,
            algorithm: self.algorithm@,
            public_key: self.public_key@,
            fingerprint: self.fingerprint@,
            owner: option_view(self.owner),
        }
    }
}

/// The refusal of a feature that is switched off.
pub open spec fn disabled(message: Seq<char>) -> Refusal {
    Refusal::new(403, code::FEATURE_DISABLED@, message)
}

/// Whether the operation that a challenge is for is switched on.
pub open spec fn feature_fault(
    operation: Operation,
    identity_registration: bool,
    device_registration: bool,
) -> Option<Refusal> {
    if operation == Operation::RegisterIdentity && !identity_registration {
        Some(disabled("identity registration is disabled"@))
    } else if operation == Operation::RegisterDevice && !device_registration {
        Some(disabled("device registration is disabled"@))
    } else {
        None
    }
}

/// A challenge question and its outcome.
pub type ChallengeStep = StepModel<
    ChallengeQuestion<Seq<char>>,
    ChallengeDraft<Seq<char>, Seq<u8>>,
>;

/// What a request for a challenge comes to once its limits have been held: the operation
/// has to be switched on, and a device's owner has to be named and registered.
pub open spec fn bound_challenge(
    draft: ChallengeDraft<Seq<char>, Seq<u8>>,
    identity_registration: bool,
    device_registration: bool,
    owner: Option<Seq<char>>,
    owner_exists: Option<bool>,
) -> ChallengeStep {
    match feature_fault(draft.operation, identity_registration, device_registration) {
        Some(refusal) => StepModel::Refuse(refusal),
        None => if draft.operation != Operation::RegisterDevice {
            StepModel::Done(ChallengeDraft { owner: None, ..draft })
        } else {
            match owner {
                None => StepModel::Refuse(
                    Refusal::validation("owner_identity_id is required for register_device"@),
                ),
                Some(identity) => match owner_exists {
                    None => StepModel::Ask(ChallengeQuestion::IdentityExists(identity)),
                    Some(false) => StepModel::Refuse(
                        Refusal::validation("owner_identity_id is not a registered identity"@),
                    ),
                    Some(true) => StepModel::Done(ChallengeDraft { owner: Some(identity), ..draft }),
                },
            }
        },
    }
}

/// What a request for a challenge comes to once its operation and its key are known: the
/// source and the key have to be within their limits.
pub open spec fn limited_challenge(
    draft: ChallengeDraft<Seq<char>, Seq<u8>>,
    rate_limit: Option<u64>,
    identity_registration: bool,
    device_registration: bool,
    owner: Option<Seq<char>>,
    answers: ChallengeAnswers,
) -> ChallengeStep {
    let bound = bound_challenge(
        draft,
        identity_registration,
        device_registration,
        owner,
        answers.owner,
    );
    match rate_limit {
        None => bound,
        Some(retry_after) => match answers.source {
            None => StepModel::Ask(ChallengeQuestion::SourceWithinLimit),
            Some(false) => StepModel::Refuse(Refusal::rate_limited(retry_after)),
            Some(true) => match answers.fingerprint {
                None => StepModel::Ask(
                    ChallengeQuestion::FingerprintWithinLimit(draft.fingerprint),
                ),
                Some(false) => StepModel::Refuse(Refusal::rate_limited(retry_after)),
                Some(true) => bound,
            },
        },
    }
}

/// What a request for a challenge comes to, given what its operation and its key come to.
pub open spec fn requested_challenge(
    operation_text: Seq<char>,
    operation: Option<Operation>,
    key: Result<KeyModel, Refusal>,
    rate_limit: Option<u64>,
    identity_registration: bool,
    device_registration: bool,
    owner: Option<Seq<char>>,
    answers: ChallengeAnswers,
) -> ChallengeStep {
    match operation {
        None => StepModel::Refuse(Refusal::validation("unknown operation: "@ + operation_text)),
        Some(operation) => match key {
            Err(refusal) => StepModel::Refuse(refusal),
            Ok(key) => limited_challenge(
                ChallengeDraft {
                    operation,
                    algorithm: key.algorithm,
                    public_key: key.bytes,
                    fingerprint: fingerprint_text(key.algorithm, key.bytes),
                    owner: None,
                },
                rate_limit,
                identity_registration,
                device_registration,
                owner,
                answers,
            ),
        },
    }
}

/// The operation that a word names, if it names one.
pub open spec fn named_operation(word: Seq<char>) -> Option<Operation> {
    crate::relay::repo::stored_operation(word)
}

fn read_operation(word: &str) -> (operation: Option<Operation>)
    ensures
        operation == named_operation(word@),
{
    proof {
        assert forall|a: Operation, b: Operation| #[trigger] a.word() == #[trigger] b.word()
            implies a == b by {
            crate::relay::crypto::law_operation_words_differ(a, b);
        }
    }
    Operation::parse(word)
}

fn bind_challenge(
    draft: ChallengeDraft,
    settings: &ChallengeSettings,
    owner: &Option<String>,
    owner_exists: Option<bool>,
) -> (step: Step<ChallengeQuestion, ChallengeDraft>)
    ensures
        step_view(step) == bound_challenge(
            draft@,
            settings.identity_registration,
            settings.device_registration,
            option_view(*owner),
            owner_exists,
        ),
{
    match draft.operation {
        Operation::RegisterIdentity => {
            if !settings.identity_registration {
                return Step::Refuse(
                    ApiError::new(403, code::FEATURE_DISABLED, "identity registration is disabled"),
                );
            }
        },
        Operation::RegisterDevice => {
            if !settings.device_registration {
                return Step::Refuse(
                    ApiError::new(403, code::FEATURE_DISABLED, "device registration is disabled"),
                );
            }
            // A challenge that registers a device binds the intended owner, so it
            // cannot be replayed against a different one.
            let identity = match owner {
                Some(identity) => identity,
                None => return Step::Refuse(
                    ApiError::validation("owner_identity_id is required for register_device"),
                ),
            };
            return match owner_exists {
                None => Step::Ask(
                    ChallengeQuestion::IdentityExists(identity.as_str().to_owned()),
                ),
                Some(false) => Step::Refuse(
                    ApiError::validation("owner_identity_id is not a registered identity"),
                ),
                Some(true) => {
                    let mut draft = draft;
                    draft.owner = Some(identity.as_str().to_owned());
                    Step::Done(draft)
                },
            };
        },
        _ => {},
    }
    let mut draft = draft;
    draft.owner = None;
    Step::Done(draft)
}

/// Decides on a challenge for a known operation and key. Challenges are limited by their
/// source and by the key's fingerprint.
pub fn draft_challenge(
    draft: ChallengeDraft,
    settings: &ChallengeSettings,
    owner: &Option<String>,
    answers: ChallengeAnswers,
) -> (step: Step<ChallengeQuestion, ChallengeDraft>)
    ensures
        step_view(step) == limited_challenge(
            draft@,
            settings.rate_limit,
            settings.identity_registration,
            settings.device_registration,
            option_view(*owner),
            answers,
        ),
{
    match settings.rate_limit {
        None => {},
        Some(retry_after) => {
            match answers.source {
                None => return Step::Ask(ChallengeQuestion::SourceWithinLimit),
                Some(false) => return Step::Refuse(ApiError::rate_limited(retry_after)),
                Some(true) => {},
            }
            match answers.fingerprint {
                None => return Step::Ask(
                    ChallengeQuestion::FingerprintWithinLimit(draft.fingerprint),
                ),
                Some(false) => return Step::Refuse(ApiError::rate_limited(retry_after)),
                Some(true) => {},
            }
        },
    }
    bind_challenge(draft, settings, owner, answers.owner)
}

/// Decides whether a challenge is handed out: the operation and the key have to be good,
/// the source and the key within their limits, the operation switched on, and a device's
/// owner registered.
pub fn create_challenge(
    request: &ChallengeRequest,
    settings: &ChallengeSettings,
    answers: ChallengeAnswers,
) -> (step: Step<ChallengeQuestion, ChallengeDraft>)
    ensures
        step_view(step) == requested_challenge(
            request.operation@,
            named_operation(request.operation@),
            admitted_key(
                lowered(trimmed(request.key.algorithm@)),
                texts(settings.supported_algorithms@),
                decoded(request.key.public_key@),
                decoded(request.key.public_key@) is Some && crate::ed25519::ed25519_valid_key(
                    decoded(request.key.public_key@)->0,
                ),
            ),
            settings.rate_limit,
            settings.identity_registration,
            settings.device_registration,
            option_view(request.owner_identity_id),
            answers,
        ),
{
    let operation = match read_operation(request.operation.as_str()) {
        Some(operation) => operation,
        None => {
            let words = "unknown operation: ".to_owned().concat(request.operation.as_str());
            return Step::Refuse(ApiError::validation(words.as_str()));
        },
    };
    let key = match PublicKey::parse(
        request.key.algorithm.as_str(),
        request.key.public_key.as_str(),
        settings.supported_algorithms.as_slice(),
    ) {
        Ok(key) => key,
        Err(error) => return Step::Refuse(error),
    };
    let fingerprint = key.fingerprint();
    let draft = ChallengeDraft {
        operation,
        algorithm: key.algorithm,
        public_key: key.bytes,
        fingerprint,
        owner: None,
    };
    draft_challenge(draft, settings, &request.owner_identity_id, answers)
}

/// An optional text, or the empty one.
pub open spec fn or_empty(text: Option<Seq<char>>) -> Seq<char> {
    match text {
        Some(text) => text,
        None => Seq::empty(),
    }
}

/// A point in time as it is signed: never below zero.
pub open spec fn signed_time(millis: i64) -> u64 {
    if millis < 0 {
        0
    } else {
        millis as u64
    }
}

/// What the holder of a key has to sign for a challenge.
pub open spec fn binding_of(record: ChallengeRecord<Seq<char>, Seq<u8>>, origin: Seq<char>) -> Binding {
    Binding {
        origin,
        challenge_id: record.challenge_id,
        challenge: record.challenge,
        operation: record.operation,
        key_fingerprint: record.key_fingerprint,
        owner_identity_id: or_empty(record.owner_identity_id),
        device_key_fingerprint: or_empty(record.device_key_fingerprint),
        expires_at_unix_ms: signed_time(record.expires_at),
    }
}

fn text_or_empty(text: &Option<String>) -> (value: String)
    ensures
        value@ == or_empty(option_view(*text)),
{
    match text {
        Some(text) => text.as_str().to_owned(),
        None => {
            let value = String::new();
            assert(value@ =~= Seq::<char>::empty());
            value
        },
    }
}

/// The bytes that the holder of a key has to sign for a challenge.
pub fn signing_bytes(record: &ChallengeRecord, origin: &str) -> (bytes: Vec<u8>)
    ensures
        bytes@ == binding_of(record@, origin@).signed_bytes(),
{
    let owner = text_or_empty(&record.owner_identity_id);
    let device = text_or_empty(&record.device_key_fingerprint);
    let expires_at_unix_ms: u64 = if record.expires_at < 0 {
        0
    } else {
        record.expires_at as u64
    };
    let input = SigningInput {
        origin,
        challenge_id: record.challenge_id.as_str(),
        challenge: record.challenge.as_slice(),
        operation: record.operation,
        key_fingerprint: record.key_fingerprint.as_str(),
        owner_identity_id: owner.as_str(),
        device_key_fingerprint: device.as_str(),
        expires_at_unix_ms,
    };
    input.encode()
}

/// What is answered to a request for a challenge.
#[derive(Debug)]
pub struct ChallengeResponse {
    pub challenge_id: String,
    pub challenge: String,
    pub signature_context: &'static str,
    /// The exact bytes to sign, base64url. The relay derives them again when it
    /// verifies.
    pub signing_input: String,
    pub expires_at: i64,
    pub key_fingerprint: String,
}

/// Hands a challenge out: the record that is kept, and the answer. What is to be signed
/// is what the relay will derive from the record. It expires `ttl_seconds` from now.
pub fn issue_challenge(
    draft: ChallengeDraft,
    origin: &str,
    challenge_id: String,
    challenge: Vec<u8>,
    now: i64,
    ttl_seconds: i64,
) -> (issued: (ChallengeRecord, ChallengeResponse))
    requires
        i64::MIN <= now + ttl_seconds * 1000 <= i64::MAX,
    ensures
        issued.0@ == (ChallengeRecord {
            challenge_id: challenge_id@,
            operation: draft.operation,
            algorithm: draft.algorithm@,
            public_key: draft.public_key@,
            key_fingerprint: draft.fingerprint@,
            owner_identity_id: option_view(draft.owner),
            device_key_fingerprint: if draft.operation == Operation::RegisterDevice {
                Some(draft.fingerprint@)
            } else {
                None
            },
            challenge: challenge@,
            expires_at: (now + ttl_seconds * 1000) as i64,
        }),
        issued.1.challenge_id@ == challenge_id@,
        issued.1.challenge@ == base64url(challenge@),
        issued.1.signature_context@ == CHALLENGE_SIGNATURE_CONTEXT@,
        decoded(issued.1.signing_input@) == Some(
            binding_of(issued.0@, origin@).signed_bytes(),
        ),
        issued.1.signing_input@ == base64url(binding_of(issued.0@, origin@).signed_bytes()),
        issued.1.expires_at == now + ttl_seconds * 1000,
        issued.1.key_fingerprint@ == draft.fingerprint@,
{
    let expires_at: i64 = expiry(now, ttl_seconds);
    let device_key_fingerprint = match draft.operation {
        Operation::RegisterDevice => Some(draft.fingerprint.as_str().to_owned()),
        _ => None,
    };
    let record = ChallengeRecord {
        challenge_id,
        operation: draft.operation,
        algorithm: draft.algorithm,
        public_key: draft.public_key,
        key_fingerprint: draft.fingerprint.as_str().to_owned(),
        owner_identity_id: draft.owner,
        device_key_fingerprint,
        challenge,
        expires_at,
    };
    let signing_input = signing_bytes(&record, origin);
    let response = ChallengeResponse {
        challenge_id: record.challenge_id.as_str().to_owned(),
        challenge: b64_encode(record.challenge.as_slice()),
        signature_context: CHALLENGE_SIGNATURE_CONTEXT,
        signing_input: b64_encode(signing_input.as_slice()),
        expires_at,
        key_fingerprint: draft.fingerprint,
    };
    (record, response)
}

/// A request that carries a signed challenge.
#[derive(Debug)]
pub struct SignedRequest {
    pub challenge_id: String,
    pub signature: String,
}

/// Asks for this challenge to be claimed.
#[derive(Debug)]
pub struct ClaimChallenge<S = String> {
    pub challenge_id: S,
}

impl View for ClaimChallenge {
    type V = ClaimChallenge<Seq<char>>;

    open spec fn view(&self) -> ClaimChallenge<Seq<char>> {
        ClaimChallenge { challenge_id: self.challenge_id@ }
    }
}

/// The refusal of a challenge that was issued for something else.
pub open spec fn wrong_operation(operation: Operation) -> Refusal {
    Refusal::new(401, code::CHALLENGE_INVALID@, "challenge was issued for "@ + operation.word())
}

/// What is wrong with a claim, if it did not claim anything.
pub open spec fn claim_fault(claim: ChallengeClaim<Seq<char>, Seq<u8>>) -> Option<Refusal> {
    match claim {
        ChallengeClaim::Claimed(record) => None,
        ChallengeClaim::AlreadyConsumed => Some(
            Refusal::new(
                401,
                code::CHALLENGE_CONSUMED@,
                "this challenge has already been used"@,
            ),
        ),
        ChallengeClaim::Expired => Some(
            Refusal::new(401, code::CHALLENGE_EXPIRED@, "this challenge has expired"@),
        ),
        ChallengeClaim::Unknown => Some(
            Refusal::new(401, code::CHALLENGE_INVALID@, "unknown challenge"@),
        ),
    }
}

/// Says what is wrong with a claim that did not claim anything.
pub fn check_claim(claim: &ChallengeClaim) -> (result: ApiResult<()>)
    ensures
        outcome(result) == (match claim_fault(claim@) {
            None => Ok::<(), Refusal>(()),
            Some(refusal) => Err::<(), Refusal>(refusal),
        }),
{
    match claim {
        ChallengeClaim::Claimed(record) => Ok(()),
        ChallengeClaim::AlreadyConsumed => Err(
            ApiError::new(401, code::CHALLENGE_CONSUMED, "this challenge has already been used"),
        ),
        ChallengeClaim::Expired => Err(
            ApiError::new(401, code::CHALLENGE_EXPIRED, "this challenge has expired"),
        ),
        ChallengeClaim::Unknown => Err(
            ApiError::new(401, code::CHALLENGE_INVALID, "unknown challenge"),
        ),
    }
}

/// What a signed challenge comes to, given whether its signature is good.
pub open spec fn judged(
    claim: ChallengeClaim<Seq<char>, Seq<u8>>,
    expected: Seq<Operation>,
    signature_is_good: bool,
) -> Result<(), Refusal> {
    match claim {
        ChallengeClaim::Claimed(record) => if !expected.contains(record.operation) {
            Err(wrong_operation(record.operation))
        } else if !signature_is_good {
            Err(
                Refusal::new(
                    401,
                    code::SIGNATURE_INVALID@,
                    "signature does not verify against the challenge"@,
                ),
            )
        } else {
            Ok(())
        },
        _ => Err(claim_fault(claim)->0),
    }
}

fn is_expected(expected: &[Operation], operation: Operation) -> (found: bool)
    ensures
        found == expected@.contains(operation),
{
    let mut index: usize = 0;
    while index < expected.len()
        invariant
            index <= expected@.len(),
            forall|i: int| 0 <= i < index ==> expected@[i] != operation,
        decreases expected@.len() - index,
    {
        if expected[index] == operation {
            assert(expected@[index as int] == operation);
            return true;
        }
        index = index + 1;
    }
    false
}

/// Decides on a signed challenge whose signature has been checked.
pub fn judge_challenge(
    claim: &ChallengeClaim,
    expected: &[Operation],
    signature_is_good: bool,
) -> (result: ApiResult<()>)
    ensures
        outcome(result) == judged(claim@, expected@, signature_is_good),
{
    match claim {
        ChallengeClaim::Claimed(record) => {
            if !is_expected(expected, record.operation) {
                let words = "challenge was issued for ".to_owned().concat(
                    record.operation.as_str(),
                );
                return Err(ApiError::new(401, code::CHALLENGE_INVALID, words.as_str()));
            }
            if !signature_is_good {
                return Err(
                    ApiError::new(
                        401,
                        code::SIGNATURE_INVALID,
                        "signature does not verify against the challenge",
                    ),
                );
            }
            Ok(())
        },
        _ => check_claim(claim),
    }
}

/// Whether a signature over a challenge is its key's.
pub open spec fn signature_holds(
    record: ChallengeRecord<Seq<char>, Seq<u8>>,
    origin: Seq<char>,
    signature: Seq<u8>,
) -> bool {
    &&& record.algorithm == ALGORITHM_ED25519@
    &&& record.public_key.len() == 32
    &&& signature.len() == 64
    &&& ed25519_accepts(
        record.public_key,
        binding_of(record, origin).signed_bytes(),
        signature,
    )
}

/// What verifying a signed challenge comes to. `signature` is what the signature's text
/// decodes to.
pub open spec fn verified_challenge(
    challenge_id: Seq<char>,
    signature: Option<Seq<u8>>,
    claim: Option<ChallengeClaim<Seq<char>, Seq<u8>>>,
    expected: Seq<Operation>,
    origin: Seq<char>,
) -> StepModel<ClaimChallenge<Seq<char>>, ()> {
    match signature {
        None => StepModel::Refuse(Refusal::invalid("signature must be base64url-encoded"@)),
        Some(signature) => match claim {
            None => StepModel::Ask(ClaimChallenge { challenge_id }),
            Some(claim) => match judged(
                claim,
                expected,
                claim is Claimed && signature_holds(claim->Claimed_0, origin, signature),
            ) {
                Ok(()) => StepModel::Done(()),
                Err(refusal) => StepModel::Refuse(refusal),
            },
        },
    }
}

/// Claims a challenge and verifies its signature. The challenge is used up by the attempt
/// itself, so a failed verification cannot be retried against it.
pub fn verify_challenge(
    challenge_id: &str,
    signature: &str,
    claim: &Option<ChallengeClaim>,
    expected: &[Operation],
    origin: &str,
) -> (step: Step<ClaimChallenge, ()>)
    ensures
        step_view(step) == verified_challenge(
            challenge_id@,
            decoded(signature@),
            option_view(*claim),
            expected@,
            origin@,
        ),
{
    let signature = match b64_decode(signature) {
        Some(signature) => signature,
        None => return Step::Refuse(ApiError::invalid("signature must be base64url-encoded")),
    };
    let claim = match claim {
        Some(claim) => claim,
        None => return Step::Ask(ClaimChallenge { challenge_id: challenge_id.to_owned() }),
    };
    let signature_is_good: bool = match claim {
        ChallengeClaim::Claimed(record) => {
            let message = signing_bytes(record, origin);
            record.key().verify(message.as_slice(), signature.as_slice())
        },
        _ => false,
    };
    match judge_challenge(claim, expected, signature_is_good) {
        Ok(()) => Step::Done(()),
        Err(error) => Step::Refuse(error),
    }
}

/// The relay verifies the bytes that it handed out, and no others: a signature that is
/// accepted for a challenge was made over exactly what its holder was given to sign, for
/// this origin, this operation and this key.
pub proof fn law_verified_signatures_are_over_the_challenge(
    challenge_id: Seq<char>,
    signature: Seq<u8>,
    record: ChallengeRecord<Seq<char>, Seq<u8>>,
    expected: Seq<Operation>,
    origin: Seq<char>,
)
    requires
        verified_challenge(
            challenge_id,
            Some(signature),
            Some(ChallengeClaim::Claimed(record)),
            expected,
            origin,
        ) is Done,
    ensures
        expected.contains(record.operation),
        ed25519_accepts(
            record.public_key,
            binding_of(record, origin).signed_bytes(),
            signature,
        ),
{
}

/// What the holder of the bound key signs, the relay accepts: a challenge that is claimed
/// for an expected operation verifies with the signature that the key's holder makes over
/// the bytes that the relay handed out.
pub proof fn law_the_holders_signature_verifies(
    challenge_id: Seq<char>,
    seed: Seq<u8>,
    record: ChallengeRecord<Seq<char>, Seq<u8>>,
    expected: Seq<Operation>,
    origin: Seq<char>,
)
    requires
        record.algorithm == ALGORITHM_ED25519@,
        record.public_key == ed25519_public_key(seed),
        record.public_key.len() == 32,
        expected.contains(record.operation),
        is_good_signature(seed, binding_of(record, origin).signed_bytes()),
        !is_degenerate(ed25519_signature(seed, binding_of(record, origin).signed_bytes())),
    ensures
        verified_challenge(
            challenge_id,
            Some(ed25519_signature(seed, binding_of(record, origin).signed_bytes())),
            Some(ChallengeClaim::Claimed(record)),
            expected,
            origin,
        ) == StepModel::<ClaimChallenge<Seq<char>>, ()>::Done(()),
{
}

/// The time over which a source's registrations are counted, in milliseconds.
pub const AN_HOUR: i64 = 3_600_000;

/// What registering an identity still needs to know.
#[derive(Debug)]
pub enum IdentityQuestion<S = String> {
    /// What is remembered under the request's idempotency key.
    Remembered(Subject<S>),
    /// How many identities this source has registered since then.
    Registrations { source: S, since: i64 },
    Claim(ClaimChallenge<S>),
    /// When the identity was created, if it is registered already.
    CreatedAt(S),
}

impl View for IdentityQuestion {
    type V = IdentityQuestion<Seq<char>>;

    open spec fn view(&self) -> IdentityQuestion<Seq<char>> {
        match self {
            IdentityQuestion::Remembered(subject) => IdentityQuestion::Remembered(subject@),
            IdentityQuestion::Registrations { source, since } => IdentityQuestion::Registrations {
                source: source@,
                since: *since,
            },
            IdentityQuestion::Claim(claim) => IdentityQuestion::Claim(claim@),
            IdentityQuestion::CreatedAt(identity) => IdentityQuestion::CreatedAt(identity@),
        }
    }
}

/// The answers to what registering an identity needs to know.
#[derive(Debug)]
pub struct IdentityAnswers {
    pub remembered: Option<ApiResult<Remembered>>,
    pub registrations: Option<i64>,
    pub claim: Option<ChallengeClaim>,
    /// For the identity of the challenge's key: when it was created, if it was.
    pub created_at: Option<Option<i64>>,
}

/// How the registration of an identity ends.
#[derive(Debug)]
pub enum IdentityOutcome<S = String> {
    /// As it ended before.
    Again(Replay<S>),
    /// With this identity; it is new, and has to be inserted, if `created`.
    Registered { identity_id: S, created_at: i64, created: bool },
}

impl View for IdentityOutcome {
    type V = IdentityOutcome<Seq<char>>;

    open spec fn view(&self) -> IdentityOutcome<Seq<char>> {
        match self {
            IdentityOutcome::Again(replay) => IdentityOutcome::Again(replay@),
            IdentityOutcome::Registered { identity_id, created_at, created } =>
                IdentityOutcome::Registered {
                identity_id: identity_id@,
                created_at: *created_at,
                created: *created,
            },
        }
    }
}

impl IdentityOutcome {
    /// Registering the same key again is no error and answers differently from the first
    /// time only in its status.
    pub fn status(&self) -> (status: u16)
        ensures
            status == (match self@ {
                IdentityOutcome::Again(replay) => replay.status,
                IdentityOutcome::Registered { identity_id, created_at, created } => if created {
                    201
                } else {
                    200
                },
            }),
    {
        match self {
            IdentityOutcome::Again(replay) => replay.status,
            IdentityOutcome::Registered { identity_id, created_at, created } => if *created {
                201
            } else {
                200
            },
        }
    }
}

/// The refusal of a source that has registered too many identities, if it has.
pub open spec fn over_limit(rate_limit: Option<(i64, u64)>, registrations: Option<i64>) -> Option<
    Refusal,
> {
    match (rate_limit, registrations) {
        (Some((limit, retry_after)), Some(count)) => if count >= limit {
            Some(Refusal::rate_limited(retry_after))
        } else {
            None
        },
        _ => None,
    }
}

/// The body that answers the registration of an identity.
pub fn identity_json(identity_id: &str, created_at: &str) -> (json: String)
    ensures
        json@ == object_text(
            seq![
                ("created_at"@, json_string(created_at@)),
                ("identity_id"@, json_string(identity_id@)),
            ],
        ),
        is_written(json@, 2),
{
    proof {
        let views = seq![
            ("created_at"@, json_string(created_at@)),
            ("identity_id"@, json_string(identity_id@)),
        ];
        reveal_strlit("created_at");
        reveal_strlit("identity_id");
        assert(is_name("created_at"@));
        assert(is_name("identity_id"@));
        assert("created_at"@.take(0) =~= "identity_id"@.take(0));
        assert(comes_first_at("created_at"@, "identity_id"@, 0));
        assert(views[0].0 == "created_at"@ && views[1].0 == "identity_id"@);
        assert(is_orderly(views));
        json::lemma_values_are_written(1);
        json::lemma_object_is_written(views, 1);
    }
    let list = vec![
        json::member("created_at", json::string(created_at)),
        json::member("identity_id", json::string(identity_id)),
    ];
    assert(json::member_views(list@) =~= seq![
        ("created_at"@, json_string(created_at@)),
        ("identity_id"@, json_string(identity_id@)),
    ]);
    json::object(&list)
}

/// What the registration of a known identity comes to.
pub open spec fn settled_identity(
    identity_id: Seq<char>,
    created_at: Option<Option<i64>>,
    now: i64,
) -> StepModel<IdentityQuestion<Seq<char>>, IdentityOutcome<Seq<char>>> {
    match created_at {
        None => StepModel::Ask(IdentityQuestion::CreatedAt(identity_id)),
        Some(Some(at)) => StepModel::Done(
            IdentityOutcome::Registered { identity_id, created_at: at, created: false },
        ),
        Some(None) => StepModel::Done(
            IdentityOutcome::Registered { identity_id, created_at: now, created: true },
        ),
    }
}

/// Settles the registration of a known identity: one that is registered already stays as
/// it is.
pub fn settle_identity(identity_id: String, created_at: Option<Option<i64>>, now: i64) -> (step: Step<
    IdentityQuestion,
    IdentityOutcome,
>)
    ensures
        step_view(step) == settled_identity(identity_id@, created_at, now),
{
    match created_at {
        None => Step::Ask(IdentityQuestion::CreatedAt(identity_id)),
        Some(Some(at)) => Step::Done(
            IdentityOutcome::Registered { identity_id, created_at: at, created: false },
        ),
        Some(None) => Step::Done(
            IdentityOutcome::Registered { identity_id, created_at: now, created: true },
        ),
    }
}

/// What registering an identity comes to. `rate_limit` is the number of registrations
/// that a source has within the hour, and the seconds after which it may try again, where
/// limits apply. `request` is the challenge that the request names and its decoded
/// signature, where the request could be read, and `client` where it comes from.
pub open spec fn registered_identity(
    enabled: bool,
    client: Seq<char>,
    request: Result<(Seq<char>, Option<Seq<u8>>), Refusal>,
    rate_limit: Option<(i64, u64)>,
    origin: Seq<char>,
    remembered: Option<Result<Remembered<Seq<char>>, Refusal>>,
    registrations: Option<i64>,
    claim: Option<ChallengeClaim<Seq<char>, Seq<u8>>>,
    created_at: Option<Option<i64>>,
    now: i64,
) -> StepModel<IdentityQuestion<Seq<char>>, IdentityOutcome<Seq<char>>> {
    if !enabled {
        StepModel::Refuse(disabled("identity registration is disabled"@))
    } else {
        match request {
            Err(refusal) => StepModel::Refuse(refusal),
            Ok((challenge_id, signature)) => match remembered {
                None => StepModel::Ask(IdentityQuestion::Remembered(identity_subject(client))),
                Some(Err(refusal)) => StepModel::Refuse(refusal),
                Some(Ok(Remembered::Again(replay))) => StepModel::Done(
                    IdentityOutcome::Again(replay),
                ),
                Some(Ok(Remembered::Nothing)) => if rate_limit is Some && registrations is None {
                    StepModel::Ask(
                        IdentityQuestion::Registrations {
                            source: client,
                            since: (now - AN_HOUR) as i64,
                        },
                    )
                } else if over_limit(rate_limit, registrations) is Some {
                    StepModel::Refuse(over_limit(rate_limit, registrations)->0)
                } else {
                    match verified_challenge(
                        challenge_id,
                        signature,
                        claim,
                        seq![Operation::RegisterIdentity],
                        origin,
                    ) {
                        StepModel::Ask(question) => StepModel::Ask(
                            IdentityQuestion::Claim(question),
                        ),
                        StepModel::Refuse(refusal) => StepModel::Refuse(refusal),
                        StepModel::Done(()) => {
                            let record = claim->0->Claimed_0;
                            settled_identity(
                                fingerprint_text(record.algorithm, record.public_key),
                                created_at,
                                now,
                            )
                        },
                    }
                },
            },
        }
    }
}

/// Registers an identity: the feature has to be switched on, the request readable and not
/// a repetition, the source within its limit, and the challenge signed by the key that
/// the identity is named after.
pub fn register_identity(
    enabled: bool,
    client: &str,
    request: &ApiResult<SignedRequest>,
    rate_limit: Option<(i64, u64)>,
    origin: &str,
    answers: &IdentityAnswers,
    now: i64,
) -> (step: Step<IdentityQuestion, IdentityOutcome>)
    requires
        i64::MIN <= now - AN_HOUR,
    ensures
        step_view(step) == registered_identity(
            enabled,
            client@,
            match request {
                Ok(request) => Ok((request.challenge_id@, decoded(request.signature@))),
                Err(error) => Err(error@),
            },
            rate_limit,
            origin@,
            answer_view(answers.remembered),
            answers.registrations,
            option_view(answers.claim),
            answers.created_at,
            now,
        ),
{
    if !enabled {
        return Step::Refuse(
            ApiError::new(403, code::FEATURE_DISABLED, "identity registration is disabled"),
        );
    }
    let request = match request {
        Ok(request) => request,
        Err(error) => return Step::Refuse(error.copy()),
    };
    match &answers.remembered {
        None => return Step::Ask(IdentityQuestion::Remembered(Subject::identity(client))),
        Some(Err(error)) => return Step::Refuse(error.copy()),
        Some(Ok(Remembered::Again(replay))) => return Step::Done(
            IdentityOutcome::Again(
                Replay { status: replay.status, body: replay.body.as_str().to_owned() },
            ),
        ),
        Some(Ok(Remembered::Nothing)) => {},
    }
    match rate_limit {
        None => {},
        Some((limit, retry_after)) => match answers.registrations {
            None => return Step::Ask(
                IdentityQuestion::Registrations { source: client.to_owned(), since: now - AN_HOUR },
            ),
            Some(count) => {
                if count >= limit {
                    return Step::Refuse(ApiError::rate_limited(retry_after));
                }
            },
        },
    }
    let expected: [Operation; 1] = [Operation::RegisterIdentity];
    assert(expected@ =~= seq![Operation::RegisterIdentity]);
    match verify_challenge(
        request.challenge_id.as_str(),
        request.signature.as_str(),
        &answers.claim,
        &expected,
        origin,
    ) {
        Step::Ask(question) => Step::Ask(IdentityQuestion::Claim(question)),
        Step::Refuse(error) => Step::Refuse(error),
        Step::Done(()) => match &answers.claim {
            Some(ChallengeClaim::Claimed(record)) => {
                settle_identity(record.key().fingerprint(), answers.created_at, now)
            },
            _ => {
                assert(false);
                Step::Refuse(ApiError::not_found())
            },
        },
    }
}

/// An access token that may be minted.
#[derive(Debug)]
pub struct Grant<S = String, L = Vec<String>> {
    pub kind: PrincipalKind,
    pub principal_id: S,
    pub identity_id: S,
    pub scopes: L,
    /// The device that has to be noted as seen, for a device's token.
    pub seen: Option<Uuid>,
}

impl View for Grant {
    type V = Grant<Seq<char>, Seq<Seq<char>>>;

    open spec fn view(&self) -> Grant<Seq<char>, Seq<Seq<char>>> {
        Grant {
            kind: self.kind,
            principal_id: self.principal_id@,
            identity_id: self.identity_id@,
            scopes: texts(self.scopes@),
            seen: self.seen,
        }
    }
}

/// What governs the granting of tokens.
#[derive(Debug)]
pub struct TokenSettings {
    pub origin: String,
    /// Where limits apply, the seconds after which a limited caller may try again.
    pub rate_limit: Option<u64>,
    pub identity_scopes: Vec<String>,
    pub publisher_scopes: Vec<String>,
    pub client_scopes: Vec<String>,
}

/// What granting a token still needs to know.
#[derive(Debug)]
pub enum TokenQuestion<S = String> {
    Claim(ClaimChallenge<S>),
    /// Whether the key is within its limit.
    WithinLimit(S),
    IdentityExists(S),
    /// The device with this key.
    DeviceByFingerprint(S),
}

impl View for TokenQuestion {
    type V = TokenQuestion<Seq<char>>;

    open spec fn view(&self) -> TokenQuestion<Seq<char>> {
        match self {
            TokenQuestion::Claim(claim) => TokenQuestion::Claim(claim@),
            TokenQuestion::WithinLimit(fingerprint) => TokenQuestion::WithinLimit(fingerprint@),
            TokenQuestion::IdentityExists(identity) => TokenQuestion::IdentityExists(identity@),
            TokenQuestion::DeviceByFingerprint(fingerprint) => TokenQuestion::DeviceByFingerprint(
                fingerprint@,
            ),
        }
    }
}

/// The answers to what granting a token needs to know.
#[derive(Debug)]
pub struct TokenAnswers {
    pub claim: Option<ChallengeClaim>,
    pub within_limit: Option<bool>,
    pub identity_exists: Option<bool>,
    pub device: Option<Option<Device>>,
}

/// A list with those of another that it does not hold yet behind it.
pub open spec fn merged(list: Seq<Seq<char>>, more: Seq<Seq<char>>) -> Seq<Seq<char>>
    decreases more.len(),
{
    if more.len() == 0 {
        list
    } else {
        let front = merged(list, more.drop_last());
        if front.contains(more.last()) {
            front
        } else {
            front.push(more.last())
        }
    }
}

/// The scopes that a device's role carries.
pub open spec fn role_scopes(
    role: DeviceRole,
    publisher_scopes: Seq<Seq<char>>,
    client_scopes: Seq<Seq<char>>,
) -> Seq<Seq<char>> {
    match role {
        DeviceRole::Publisher => publisher_scopes,
        DeviceRole::Client => client_scopes,
        DeviceRole::Both => merged(publisher_scopes, client_scopes),
    }
}

fn merge(list: &Vec<String>, more: &Vec<String>) -> (result: Vec<String>)
    ensures
        texts(result@) == merged(texts(list@), texts(more@)),
{
    let mut result = text::copy_texts(list.as_slice());
    let mut index: usize = 0;
    assert(texts(more@).take(0) =~= Seq::empty());
    while index < more.len()
        invariant
            index <= more@.len(),
            texts(result@) == merged(texts(list@), texts(more@).take(index as int)),
        decreases more@.len() - index,
    {
        let ghost before = texts(result@);
        proof {
            let longer = texts(more@).take(index + 1);
            assert(longer.drop_last() =~= texts(more@).take(index as int));
            assert(longer.last() == more@[index as int]@);
        }
        if !text::holds(result.as_slice(), more[index].as_str()) {
            result.push(more[index].as_str().to_owned());
            assert(texts(result@) =~= before.push(more@[index as int]@));
        }
        index = index + 1;
    }
    assert(texts(more@).take(index as int) =~= texts(more@));
    result
}

/// Granting a token and what it needs to know.
pub type TokenStep = StepModel<TokenQuestion<Seq<char>>, Grant<Seq<char>, Seq<Seq<char>>>>;

/// What granting a token comes to for a challenge that was verified.
pub open spec fn granted_token(
    record: ChallengeRecord<Seq<char>, Seq<u8>>,
    identity_scopes: Seq<Seq<char>>,
    publisher_scopes: Seq<Seq<char>>,
    client_scopes: Seq<Seq<char>>,
    identity_exists: Option<bool>,
    device: Option<Option<Device<Seq<char>, Seq<u8>>>>,
) -> TokenStep {
    if record.operation == Operation::AuthenticateIdentity {
        let identity_id = fingerprint_text(record.algorithm, record.public_key);
        match identity_exists {
            None => StepModel::Ask(TokenQuestion::IdentityExists(identity_id)),
            Some(false) => StepModel::Refuse(
                Refusal::unauthorized("this key is not a registered identity"@),
            ),
            Some(true) => StepModel::Done(
                Grant {
                    kind: PrincipalKind::Identity,
                    principal_id: identity_id,
                    identity_id,
                    scopes: identity_scopes,
                    seen: None,
                },
            ),
        }
    } else if record.operation == Operation::AuthenticateDevice {
        match device {
            None => StepModel::Ask(TokenQuestion::DeviceByFingerprint(record.key_fingerprint)),
            Some(None) => StepModel::Refuse(
                Refusal::unauthorized("this key is not a registered device"@),
            ),
            Some(Some(device)) => if device.revoked_at is Some {
                StepModel::Refuse(
                    Refusal::unauthorized("this device has been revoked"@).with_code(
                        code::DEVICE_REVOKED@,
                    ),
                )
            } else {
                StepModel::Done(
                    Grant {
                        kind: PrincipalKind::Device,
                        principal_id: uuid_text(device.device_id.value),
                        identity_id: device.identity_id,
                        scopes: role_scopes(device.role, publisher_scopes, client_scopes),
                        seen: Some(device.device_id),
                    },
                )
            },
        }
    } else {
        StepModel::Refuse(wrong_operation(record.operation))
    }
}

/// What a request for a token comes to. `signature` is what its signature decodes to.
pub open spec fn requested_token(
    challenge_id: Seq<char>,
    signature: Option<Seq<u8>>,
    origin: Seq<char>,
    rate_limit: Option<u64>,
    identity_scopes: Seq<Seq<char>>,
    publisher_scopes: Seq<Seq<char>>,
    client_scopes: Seq<Seq<char>>,
    claim: Option<ChallengeClaim<Seq<char>, Seq<u8>>>,
    within_limit: Option<bool>,
    identity_exists: Option<bool>,
    device: Option<Option<Device<Seq<char>, Seq<u8>>>>,
) -> TokenStep {
    match verified_challenge(
        challenge_id,
        signature,
        claim,
        seq![Operation::AuthenticateIdentity, Operation::AuthenticateDevice],
        origin,
    ) {
        StepModel::Ask(question) => StepModel::Ask(TokenQuestion::Claim(question)),
        StepModel::Refuse(refusal) => StepModel::Refuse(refusal),
        StepModel::Done(()) => {
            let record = claim->0->Claimed_0;
            if rate_limit is Some && within_limit is None {
                StepModel::Ask(TokenQuestion::WithinLimit(record.key_fingerprint))
            } else if rate_limit is Some && !within_limit->0 {
                StepModel::Refuse(Refusal::rate_limited(rate_limit->0))
            } else {
                granted_token(
                    record,
                    identity_scopes,
                    publisher_scopes,
                    client_scopes,
                    identity_exists,
                    device,
                )
            }
        },
    }
}

/// Grants a token for a challenge that was verified. Scopes follow the device's role, so
/// a publisher can never receive mirror or input authority and a client can never
/// publish.
pub fn grant_token(record: &ChallengeRecord, settings: &TokenSettings, answers: &TokenAnswers) -> (
    step: Step<TokenQuestion, Grant>)
    ensures
        step_view(step) == granted_token(
            record@,
            texts(settings.identity_scopes@),
            texts(settings.publisher_scopes@),
            texts(settings.client_scopes@),
            answers.identity_exists,
            match answers.device {
                Some(device) => Some(option_view(device)),
                None => None,
            },
        ),
{
    match record.operation {
        Operation::AuthenticateIdentity => {
            let identity_id = record.key().fingerprint();
            match answers.identity_exists {
                None => Step::Ask(TokenQuestion::IdentityExists(identity_id)),
                Some(false) => Step::Refuse(
                    ApiError::unauthorized("this key is not a registered identity"),
                ),
                Some(true) => Step::Done(
                    Grant {
                        kind: PrincipalKind::Identity,
                        principal_id: identity_id.as_str().to_owned(),
                        identity_id,
                        scopes: text::copy_texts(settings.identity_scopes.as_slice()),
                        seen: None,
                    },
                ),
            }
        },
        Operation::AuthenticateDevice => {
            let device = match &answers.device {
                None => return Step::Ask(
                    TokenQuestion::DeviceByFingerprint(record.key_fingerprint.as_str().to_owned()),
                ),
                Some(None) => return Step::Refuse(
                    ApiError::unauthorized("this key is not a registered device"),
                ),
                Some(Some(device)) => device,
            };
            if device.revoked_at.is_some() {
                return Step::Refuse(
                    ApiError::unauthorized("this device has been revoked").with_code(
                        code::DEVICE_REVOKED,
                    ),
                );
            }
            let scopes = match device.role {
                DeviceRole::Publisher => text::copy_texts(settings.publisher_scopes.as_slice()),
                DeviceRole::Client => text::copy_texts(settings.client_scopes.as_slice()),
                DeviceRole::Both => merge(&settings.publisher_scopes, &settings.client_scopes),
            };
            Step::Done(
                Grant {
                    kind: PrincipalKind::Device,
                    principal_id: device.device_id.to_text(),
                    identity_id: device.identity_id.as_str().to_owned(),
                    scopes,
                    seen: Some(device.device_id),
                },
            )
        },
        _ => {
            let words = "challenge was issued for ".to_owned().concat(record.operation.as_str());
            Step::Refuse(ApiError::new(401, code::CHALLENGE_INVALID, words.as_str()))
        },
    }
}

/// Grants a token to whoever signs a challenge with a registered key.
pub fn create_token(request: &SignedRequest, settings: &TokenSettings, answers: &TokenAnswers) -> (
    step: Step<TokenQuestion, Grant>)
    ensures
        step_view(step) == requested_token(
            request.challenge_id@,
            decoded(request.signature@),
            settings.origin@,
            settings.rate_limit,
            texts(settings.identity_scopes@),
            texts(settings.publisher_scopes@),
            texts(settings.client_scopes@),
            option_view(answers.claim),
            answers.within_limit,
            answers.identity_exists,
            match answers.device {
                Some(device) => Some(option_view(device)),
                None => None,
            },
        ),
{
    let expected: [Operation; 2] = [
        Operation::AuthenticateIdentity,
        Operation::AuthenticateDevice,
    ];
    assert(expected@ =~= seq![Operation::AuthenticateIdentity, Operation::AuthenticateDevice]);
    match verify_challenge(
        request.challenge_id.as_str(),
        request.signature.as_str(),
        &answers.claim,
        &expected,
        settings.origin.as_str(),
    ) {
        Step::Ask(question) => return Step::Ask(TokenQuestion::Claim(question)),
        Step::Refuse(error) => return Step::Refuse(error),
        Step::Done(()) => {},
    }
    match &answers.claim {
        Some(ChallengeClaim::Claimed(record)) => {
            match settings.rate_limit {
                None => {},
                Some(retry_after) => match answers.within_limit {
                    None => return Step::Ask(
                        TokenQuestion::WithinLimit(record.key_fingerprint.as_str().to_owned()),
                    ),
                    Some(false) => return Step::Refuse(ApiError::rate_limited(retry_after)),
                    Some(true) => {},
                },
            }
            grant_token(record, settings, answers)
        },
        _ => {
            assert(false);
            Step::Refuse(ApiError::not_found())
        },
    }
}

/// Every scope of a merged list comes from one of the two.
proof fn lemma_merged(list: Seq<Seq<char>>, more: Seq<Seq<char>>, scope: Seq<char>)
    ensures
        merged(list, more).contains(scope) <==> list.contains(scope) || more.contains(scope),
    decreases more.len(),
{
    if more.len() > 0 {
        let shorter = more.drop_last();
        let front = merged(list, shorter);
        lemma_merged(list, shorter, scope);
        assert(more =~= shorter.push(more.last()));
        assert(more.contains(scope) <==> shorter.contains(scope) || more.last() == scope) by {
            if shorter.contains(scope) {
                assert(more[shorter.index_of(scope)] == scope);
            }
            if more.last() == scope {
                assert(more[more.len() - 1] == scope);
            }
            if more.contains(scope) {
                let k = more.index_of(scope);
                if k < shorter.len() {
                    assert(shorter[k] == scope);
                }
            }
        }
        let pushed = front.push(more.last());
        assert(pushed.contains(scope) <==> front.contains(scope) || more.last() == scope) by {
            if front.contains(scope) {
                assert(pushed[front.index_of(scope)] == scope);
            }
            if more.last() == scope {
                assert(pushed[front.len() as int] == scope);
            }
            if pushed.contains(scope) {
                let k = pushed.index_of(scope);
                if k < front.len() {
                    assert(front[k] == scope);
                }
            }
        }
    }
}

/// A granted token as it is answered.
#[derive(Debug)]
pub struct TokenResponse {
    pub access_token: String,
    pub token_type: &'static str,
    pub expires_in: i64,
    pub scopes: Vec<String>,
    pub principal: &'static str,
    pub principal_id: String,
}

/// The answer to a request for a token. `issued_at` and `expires_at` are those of the
/// token's claims.
pub fn token_response(grant: Grant, access_token: String, issued_at: i64, expires_at: i64) -> (
    response: TokenResponse)
    requires
        i64::MIN <= expires_at - issued_at <= i64::MAX,
    ensures
        response.access_token@ == access_token@,
        response.token_type@ == "Bearer"@,
        response.expires_in == expires_at - issued_at,
        texts(response.scopes@) == grant@.scopes,
        response.principal@ == grant.kind.word(),
        response.principal_id@ == grant@.principal_id,
{
    TokenResponse {
        access_token,
        token_type: "Bearer",
        expires_in: expires_at - issued_at,
        principal: grant.kind.as_str(),
        scopes: grant.scopes,
        principal_id: grant.principal_id,
    }
}

/// A device's token carries what its role is configured to carry and nothing else: a
/// publisher's only publisher scopes, a client's only client scopes, and only a device
/// that is both carries both.
pub proof fn law_scopes_follow_the_role(
    record: ChallengeRecord<Seq<char>, Seq<u8>>,
    identity_scopes: Seq<Seq<char>>,
    publisher_scopes: Seq<Seq<char>>,
    client_scopes: Seq<Seq<char>>,
    device: Device<Seq<char>, Seq<u8>>,
    scope: Seq<char>,
)
    requires
        record.operation == Operation::AuthenticateDevice,
        device.revoked_at is None,
    ensures
        ({
            let step = granted_token(
                record,
                identity_scopes,
                publisher_scopes,
                client_scopes,
                None,
                Some(Some(device)),
            );
            &&& step is Done
            &&& step->Done_0.identity_id == device.identity_id
            &&& step->Done_0.scopes.contains(scope) <==> {
                ||| (device.role != DeviceRole::Client && publisher_scopes.contains(scope))
                ||| (device.role != DeviceRole::Publisher && client_scopes.contains(scope))
            }
        }),
{
    lemma_merged(publisher_scopes, client_scopes, scope);
}

/// A revoked device is granted no token.
pub proof fn law_revoked_devices_get_no_token(
    record: ChallengeRecord<Seq<char>, Seq<u8>>,
    identity_scopes: Seq<Seq<char>>,
    publisher_scopes: Seq<Seq<char>>,
    client_scopes: Seq<Seq<char>>,
    identity_exists: Option<bool>,
    device: Device<Seq<char>, Seq<u8>>,
)
    requires
        record.operation == Operation::AuthenticateDevice,
        device.revoked_at is Some,
    ensures
        granted_token(
            record,
            identity_scopes,
            publisher_scopes,
            client_scopes,
            identity_exists,
            Some(Some(device)),
        ) is Refuse,
{
}

} // verus!
