//! Readiness, and who may read the metrics.

use crate::json;
use crate::json::{json_string, object_text};
use crate::relay::auth::{admit_operator, bearer_of, header_token, operator_admitted};
use crate::relay::crypto::{hash_operator_token, stored_hash};
use crate::relay::error::{code, outcome, ApiError, ApiResult, Refusal};
use crate::text;
use crate::text::{option_view, signed_decimal};
use vstd::prelude::*;

verus! {

/// What readiness depends on. `probe` is what loading the settings and writing to durable
/// state came to, once that was tried.
#[derive(Debug)]
pub struct Vitals {
    pub shutting_down: bool,
    pub started: bool,
    pub storage_failing: bool,
    /// A token that holds nothing was accepted.
    pub empty_token_accepted: bool,
    pub probe: Option<Result<(), String>>,
}

/// Whether the relay is ready.
#[derive(Debug)]
pub enum Readiness<S = String> {
    /// Nothing stands in the way so far: try durable state.
    Probe,
    Ready,
    NotReady(S),
}

impl View for Readiness {
    type V = Readiness<Seq<char>>;

    open spec fn view(&self) -> Readiness<Seq<char>> {
        match self {
            Readiness::Probe => Readiness::Probe,
            Readiness::Ready => Readiness::Ready,
            Readiness::NotReady(reason) => Readiness::NotReady(reason@),
        }
    }
}

/// Whether the relay is ready.
pub open spec fn is_ready(vitals: Vitals) -> Readiness<Seq<char>> {
    if vitals.shutting_down {
        Readiness::NotReady("server is shutting down"@)
    } else if !vitals.started {
        Readiness::NotReady("startup recovery has not finished"@)
    } else if vitals.storage_failing {
        Readiness::NotReady("durable storage is failing"@)
    } else if vitals.empty_token_accepted {
        Readiness::NotReady("token verification is misconfigured"@)
    } else {
        match vitals.probe {
            None => Readiness::Probe,
            Some(Ok(())) => Readiness::Ready,
            Some(Err(reason)) => Readiness::NotReady(reason@),
        }
    }
}

/// Readiness: authentication works, durable state reads and writes, relay traffic is
/// being accepted, and the committed settings revision is loadable.
pub fn readiness(vitals: &Vitals) -> (readiness: Readiness)
    ensures
        readiness@ == is_ready(*vitals),
{
    if vitals.shutting_down {
        return Readiness::NotReady("server is shutting down".to_owned());
    }
    if !vitals.started {
        return Readiness::NotReady("startup recovery has not finished".to_owned());
    }
    if vitals.storage_failing {
        return Readiness::NotReady("durable storage is failing".to_owned());
    }
    if vitals.empty_token_accepted {
        return Readiness::NotReady("token verification is misconfigured".to_owned());
    }
    match &vitals.probe {
        None => Readiness::Probe,
        Some(Ok(())) => Readiness::Ready,
        Some(Err(reason)) => Readiness::NotReady(reason.as_str().to_owned()),
    }
}

/// How a relay that is not ready answers.
pub fn not_ready(reason: &str) -> (error: ApiError)
    ensures
        error@ == Refusal::new(503, code::NOT_READY@, reason@),
{
    ApiError::new(503, code::NOT_READY, reason)
}

/// How a relay that is ready answers.
pub fn ready_json(settings_revision: i64) -> (json: String)
    ensures
        json@ == object_text(
            seq![
                ("settings_revision"@, signed_decimal(settings_revision as int)),
                ("status"@, json_string("ready"@)),
            ],
        ),
{
    let list = vec![
        json::member("settings_revision", text::signed_of(settings_revision as i128)),
        json::member("status", json::string("ready")),
    ];
    assert(json::member_views(list@) =~= seq![
        ("settings_revision"@, signed_decimal(settings_revision as int)),
        ("status"@, json_string("ready"@)),
    ]);
    json::object(&list)
}

/// What a request for the metrics comes to.
pub open spec fn metrics_granted(
    enabled: bool,
    require_operator: bool,
    expected: Option<Seq<char>>,
    header: Option<Seq<char>>,
) -> Result<(), Refusal> {
    if !enabled {
        Err(Refusal::new(404, code::FEATURE_DISABLED@, "the metrics endpoint is disabled"@))
    } else if !require_operator {
        Ok(())
    } else {
        match expected {
            None => Err(Refusal::internal("no operator credential is configured"@)),
            Some(expected) => {
                let token = match header {
                    Some(header) => header_token(header),
                    None => None,
                };
                match token {
                    None => Err(Refusal::unauthorized("operator authentication required"@)),
                    Some(token) => match operator_admitted(stored_hash(token), expected) {
                        Ok(principal) => Ok(()),
                        Err(refusal) => Err(refusal),
                    },
                }
            },
        }
    }
}

/// Whether the metrics may be read: only by an operator, unless an operator has switched
/// that off.
pub fn metrics_endpoint(
    enabled: bool,
    require_operator: bool,
    expected: &Option<String>,
    header: &Option<String>,
) -> (result: ApiResult<()>)
    ensures
        outcome(result) == metrics_granted(
            enabled,
            require_operator,
            option_view(*expected),
            option_view(*header),
        ),
{
    if !enabled {
        return Err(
            ApiError::new(404, code::FEATURE_DISABLED, "the metrics endpoint is disabled"),
        );
    }
    if !require_operator {
        return Ok(());
    }
    let expected = match expected {
        Some(expected) => expected,
        None => return Err(ApiError::internal("no operator credential is configured")),
    };
    let token = match header {
        Some(header) => bearer_of(header.as_str()),
        None => None,
    };
    match token {
        None => Err(ApiError::unauthorized("operator authentication required")),
        Some(token) => match admit_operator(
            hash_operator_token(token.as_str()).as_str(),
            expected.as_str(),
        ) {
            Ok(operator) => Ok(()),
            Err(error) => Err(error),
        },
    }
}

} // verus!
