//! Stable machine-readable error codes. These are part of the public contract.

use vstd::prelude::*;

verus! {

pub const INVALID_REQUEST: &'static str = "invalid_request";
pub const VALIDATION_FAILED: &'static str = "validation_failed";
pub const UNAUTHORIZED: &'static str = "unauthorized";
pub const NOT_FOUND: &'static str = "not_found";
pub const CONFLICT: &'static str = "conflict";
pub const RATE_LIMITED: &'static str = "rate_limited";
pub const PAYLOAD_TOO_LARGE: &'static str = "payload_too_large";
pub const UNSUPPORTED_MEDIA_TYPE: &'static str = "unsupported_media_type";
pub const INTERNAL: &'static str = "internal_error";
pub const STORAGE_UNAVAILABLE: &'static str = "storage_unavailable";
pub const SETTINGS_REVISION_CONFLICT: &'static str = "settings_revision_conflict";
pub const SETTINGS_INVALID: &'static str = "settings_invalid";
pub const CHALLENGE_INVALID: &'static str = "challenge_invalid";
pub const CHALLENGE_EXPIRED: &'static str = "challenge_expired";
pub const CHALLENGE_CONSUMED: &'static str = "challenge_consumed";
pub const SIGNATURE_INVALID: &'static str = "signature_invalid";
pub const UNSUPPORTED_ALGORITHM: &'static str = "unsupported_algorithm";
pub const DEVICE_REVOKED: &'static str = "device_revoked";
pub const LIMIT_EXCEEDED: &'static str = "limit_exceeded";
pub const FEATURE_DISABLED: &'static str = "feature_disabled";
pub const INSECURE_TRANSPORT: &'static str = "insecure_transport";
pub const IDEMPOTENCY_KEY_CONFLICT: &'static str = "idempotency_key_conflict";
pub const IDEMPOTENCY_KEY_REQUIRED: &'static str = "idempotency_key_required";
pub const INSUFFICIENT_SCOPE: &'static str = "insufficient_scope";
pub const NOT_READY: &'static str = "not_ready";
/// No capable publisher is connected for the device.
pub const PUBLISHER_UNAVAILABLE: &'static str = "publisher_unavailable";
/// The publisher answered, and said no.
pub const PUBLISHER_DECLINED: &'static str = "publisher_declined";
/// The publisher did not answer in time. Deliberately ambiguous: a terminal may
/// still have been created, so a caller must re-ask rather than guess.
pub const PUBLISHER_TIMEOUT: &'static str = "publisher_timeout";

} // verus!
