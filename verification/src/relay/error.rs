//! The error model: every refused request is answered with one of these.

use crate::json;
use crate::json::{json_string, object_text};
use vstd::prelude::*;

pub mod code;

verus! {

/// What a refused request is answered, over character sequences.
#[verifier::ext_equal]
pub struct Refusal {
    pub status: int,
    pub code: Seq<char>,
    pub message: Seq<char>,
    pub retry_after: Option<u64>,
    pub www_authenticate: Option<Seq<char>>,
}

impl Refusal {
    /// A refusal with no advice on when or how to try again.
    pub open spec fn new(status: int, code: Seq<char>, message: Seq<char>) -> Refusal {
        Refusal { status, code, message, retry_after: None, www_authenticate: None }
    }

    pub open spec fn invalid(message: Seq<char>) -> Refusal {
        Refusal::new(400, code::INVALID_REQUEST@, message)
    }

    pub open spec fn validation(message: Seq<char>) -> Refusal {
        Refusal::new(422, code::VALIDATION_FAILED@, message)
    }

    pub open spec fn insufficient_scope(message: Seq<char>) -> Refusal {
        Refusal::new(403, code::INSUFFICIENT_SCOPE@, message)
    }

    pub open spec fn conflict(message: Seq<char>) -> Refusal {
        Refusal::new(409, code::CONFLICT@, message)
    }

    pub open spec fn limit_exceeded(message: Seq<char>) -> Refusal {
        Refusal::new(409, code::LIMIT_EXCEEDED@, message)
    }

    pub open spec fn idempotency_key_required(message: Seq<char>) -> Refusal {
        Refusal::new(400, code::IDEMPOTENCY_KEY_REQUIRED@, message)
    }

    pub open spec fn publisher_declined(message: Seq<char>) -> Refusal {
        Refusal::new(502, code::PUBLISHER_DECLINED@, message)
    }

    pub open spec fn publisher_timeout(message: Seq<char>) -> Refusal {
        Refusal::new(504, code::PUBLISHER_TIMEOUT@, message)
    }

    pub open spec fn internal(message: Seq<char>) -> Refusal {
        Refusal::new(500, code::INTERNAL@, message)
    }

    pub open spec fn storage_unavailable(message: Seq<char>) -> Refusal {
        Refusal::new(503, code::STORAGE_UNAVAILABLE@, message)
    }

    pub open spec fn unauthorized(message: Seq<char>) -> Refusal {
        Refusal {
            www_authenticate: Some("Bearer"@),
            ..Refusal::new(401, code::UNAUTHORIZED@, message)
        }
    }

    pub open spec fn not_found() -> Refusal {
        Refusal::new(404, code::NOT_FOUND@, "Resource not found"@)
    }

    pub open spec fn rate_limited(retry_after: u64) -> Refusal {
        Refusal {
            retry_after: Some(retry_after),
            ..Refusal::new(429, code::RATE_LIMITED@, "Rate limit exceeded"@)
        }
    }

    pub open spec fn publisher_unavailable(message: Seq<char>) -> Refusal {
        Refusal {
            retry_after: Some(5),
            ..Refusal::new(503, code::PUBLISHER_UNAVAILABLE@, message)
        }
    }

    /// What the refusal looks like on the wire.
    pub open spec fn envelope(self, request_id: Seq<char>) -> Seq<char> {
        object_text(
            seq![
                (
                    "error"@,
                    object_text(
                        seq![
                            ("code"@, json_string(self.code)),
                            ("message"@, json_string(self.message)),
                            ("request_id"@, json_string(request_id)),
                        ],
                    ),
                ),
            ],
        )
    }

    pub open spec fn with_code(self, code: Seq<char>) -> Refusal {
        Refusal { code, ..self }
    }
}

/// A refused request: an HTTP status, a stable code and a message for a person.
#[derive(Debug, Clone)]
pub struct ApiError {
    pub status: u16,
    pub code: &'static str,
    pub message: String,
    /// Seconds after which trying again may help.
    pub retry_after: Option<u64>,
    /// How to authenticate, for a request that did not.
    pub www_authenticate: Option<String>,
}

pub type ApiResult<T> = Result<T, ApiError>;

impl View for ApiError {
    type V = Refusal;

    open spec fn view(&self) -> Refusal {
        Refusal {
            status: self.status as int,
            code: self.code@,
            message: self.message@,
            retry_after: self.retry_after,
            www_authenticate: match self.www_authenticate {
                Some(text) => Some(text@),
                None => None,
            },
        }
    }
}

/// What a fallible operation came to, over the views of its two outcomes.
pub open spec fn outcome<T: View>(result: ApiResult<T>) -> Result<T::V, Refusal> {
    match result {
        Ok(value) => Ok(value@),
        Err(error) => Err(error@),
    }
}

impl ApiError {
    pub fn new(status: u16, code: &'static str, message: &str) -> (error: Self)
        ensures
            error@ == Refusal::new(status as int, code@, message@),
    {
        Self {
            status,
            code,
            message: message.to_owned(),
            retry_after: None,
            www_authenticate: None,
        }
    }

    /// The request itself is malformed.
    pub fn invalid(message: &str) -> (error: Self)
        ensures
            error@ == Refusal::invalid(message@),
    {
        Self::new(400, code::INVALID_REQUEST, message)
    }

    /// The request's body is not the JSON that was asked for. `detail` is what the parser
    /// said.
    pub fn malformed_json(detail: &str) -> (error: Self)
        ensures
            error@ == Refusal::invalid("malformed JSON: "@ + detail@),
    {
        Self::invalid("malformed JSON: ".to_owned().concat(detail).as_str())
    }

    /// The request is well formed and asks for something that is not acceptable.
    pub fn validation(message: &str) -> (error: Self)
        ensures
            error@ == Refusal::validation(message@),
    {
        Self::new(422, code::VALIDATION_FAILED, message)
    }

    /// The credential is good and does not carry the needed authority.
    pub fn insufficient_scope(message: &str) -> (error: Self)
        ensures
            error@ == Refusal::insufficient_scope(message@),
    {
        Self::new(403, code::INSUFFICIENT_SCOPE, message)
    }

    /// The request contradicts what is already there.
    pub fn conflict(message: &str) -> (error: Self)
        ensures
            error@ == Refusal::conflict(message@),
    {
        Self::new(409, code::CONFLICT, message)
    }

    /// A configured limit would be exceeded.
    pub fn limit_exceeded(message: &str) -> (error: Self)
        ensures
            error@ == Refusal::limit_exceeded(message@),
    {
        Self::new(409, code::LIMIT_EXCEEDED, message)
    }

    /// The operation must carry an idempotency key.
    pub fn idempotency_key_required(message: &str) -> (error: Self)
        ensures
            error@ == Refusal::idempotency_key_required(message@),
    {
        Self::new(400, code::IDEMPOTENCY_KEY_REQUIRED, message)
    }

    /// The publisher answered, and said no. What it said in its own words is for the
    /// operator alone.
    pub fn publisher_declined(message: &str) -> (error: Self)
        ensures
            error@ == Refusal::publisher_declined(message@),
    {
        Self::new(502, code::PUBLISHER_DECLINED, message)
    }

    /// The publisher did not answer in time.
    pub fn publisher_timeout(message: &str) -> (error: Self)
        ensures
            error@ == Refusal::publisher_timeout(message@),
    {
        Self::new(504, code::PUBLISHER_TIMEOUT, message)
    }

    /// Something failed that the caller can do nothing about.
    pub fn internal(message: &str) -> (error: Self)
        ensures
            error@ == Refusal::internal(message@),
    {
        Self::new(500, code::INTERNAL, message)
    }

    /// The database cannot be reached.
    pub fn storage_unavailable(message: &str) -> (error: Self)
        ensures
            error@ == Refusal::storage_unavailable(message@),
    {
        Self::new(503, code::STORAGE_UNAVAILABLE, message)
    }

    /// The request is not authenticated.
    pub fn unauthorized(message: &str) -> (error: Self)
        ensures
            error@ == Refusal::unauthorized(message@),
    {
        let mut error = Self::new(401, code::UNAUTHORIZED, message);
        error.www_authenticate = Some("Bearer".to_owned());
        error
    }

    /// Ownership failures render as this too, so that whether a resource exists is
    /// never revealed to anyone but its owner.
    pub fn not_found() -> (error: Self)
        ensures
            error@ == Refusal::not_found(),
    {
        Self::new(404, code::NOT_FOUND, "Resource not found")
    }

    /// Too many requests; trying again after `retry_after` seconds may help.
    pub fn rate_limited(retry_after: u64) -> (error: Self)
        ensures
            error@ == Refusal::rate_limited(retry_after),
    {
        let mut error = Self::new(429, code::RATE_LIMITED, "Rate limit exceeded");
        error.retry_after = Some(retry_after);
        error
    }

    /// The device may reconnect at any moment, so this is a "not now" and not a
    /// "never".
    pub fn publisher_unavailable(message: &str) -> (error: Self)
        ensures
            error@ == Refusal::publisher_unavailable(message@),
    {
        let mut error = Self::new(503, code::PUBLISHER_UNAVAILABLE, message);
        error.retry_after = Some(5);
        error
    }

    /// A copy of the error.
    pub fn copy(&self) -> (error: Self)
        ensures
            error@ == self@,
    {
        Self {
            status: self.status,
            code: self.code,
            message: self.message.as_str().to_owned(),
            retry_after: self.retry_after,
            www_authenticate: crate::text::copy_option(&self.www_authenticate),
        }
    }

    /// The same error under another code.
    pub fn with_code(self, code: &'static str) -> (error: Self)
        ensures
            error@ == self@.with_code(code@),
    {
        let mut error = self;
        error.code = code;
        error
    }

    /// The envelope that every refused request is answered with.
    pub fn to_json(&self, request_id: &str) -> (body: String)
        ensures
            body@ == self@.envelope(request_id@),
    {
        let inner = vec![
            json::member("code", json::string(self.code)),
            json::member("message", json::string(self.message.as_str())),
            json::member("request_id", json::string(request_id)),
        ];
        let outer = vec![json::member("error", json::object(&inner))];
        proof {
            assert(json::member_views(inner@) =~= seq![
                ("code"@, json_string(self.code@)),
                ("message"@, json_string(self.message@)),
                ("request_id"@, json_string(request_id@)),
            ]);
            assert(json::member_views(outer@) =~= seq![
                ("error"@, object_text(json::member_views(inner@))),
            ]);
        }
        json::object(&outer)
    }

    /// Whether the fault is the relay's, so that it is worth an entry in the log.
    pub fn is_server_error(&self) -> (fault: bool)
        ensures
            fault == (500 <= self.status < 600),
    {
        500 <= self.status && self.status < 600
    }

    /// The error as one line of text.
    pub fn to_text(&self) -> (text: String)
        ensures
            text@ == self.code@ + ": "@ + self.message@,
    {
        let text = self.code.to_owned();
        let text = text.concat(": ");
        text.concat(self.message.as_str())
    }
}

} // verus!
