//! What can be counted on of every request, whatever it asks for.

use crate::ids::{uuid_text, Uuid};
use crate::json::json_value;
use crate::relay::context::{
    first_entry, is_failure, middleware, resolve_client, time_limit, timed_out, Address, ConnMeta,
    Network, PrincipalLog, RequestLimits,
};
use crate::relay::crypto::stored_hash;
use crate::relay::error::{ApiError, ApiResult};
use crate::relay::extract::{clean, is_cleanable, reject_json, JsonFault};
use crate::relay::idempotency::{
    extract, lookup, store, LookUp, Remembered, Subject,
};
use crate::relay::ops::{metrics_endpoint, not_ready, readiness, Readiness, Vitals};
use crate::relay::auth::header_token;
use crate::relay::repo::IdempotentResponse;
use crate::relay::step::Step;
use crate::text::{lowered, number, option_view, split_on, trimmed};
use vstd::arithmetic::power2::pow2;
use vstd::prelude::*;
use vstd::utf8::encode_utf8;

verus! {

/// Each kind of refusal has its own status and code, and says what it was given to say.
pub proof fn law_refusals_are_told_apart(message: &str, wait: u64)
    ensures
        forall|error: ApiError| #[trigger]
            call_ensures(ApiError::invalid, (message,), error) ==> error.status == 400
                && error.code@ == "invalid_request"@ && error.message@ == message@,
        forall|error: ApiError| #[trigger]
            call_ensures(ApiError::validation, (message,), error) ==> error.status == 422
                && error.code@ == "validation_failed"@ && error.message@ == message@,
        forall|error: ApiError| #[trigger]
            call_ensures(ApiError::insufficient_scope, (message,), error) ==> error.status == 403
                && error.code@ == "insufficient_scope"@ && error.message@ == message@,
        forall|error: ApiError| #[trigger]
            call_ensures(ApiError::conflict, (message,), error) ==> error.status == 409
                && error.code@ == "conflict"@ && error.message@ == message@,
        forall|error: ApiError| #[trigger]
            call_ensures(ApiError::limit_exceeded, (message,), error) ==> error.status == 409
                && error.code@ == "limit_exceeded"@ && error.message@ == message@,
        forall|error: ApiError| #[trigger]
            call_ensures(ApiError::idempotency_key_required, (message,), error) ==> error.status
                == 400 && error.code@ == "idempotency_key_required"@ && error.message@ == message@,
        forall|error: ApiError| #[trigger]
            call_ensures(ApiError::publisher_declined, (message,), error) ==> error.status == 502
                && error.code@ == "publisher_declined"@ && error.message@ == message@,
        forall|error: ApiError| #[trigger]
            call_ensures(ApiError::publisher_timeout, (message,), error) ==> error.status == 504
                && error.code@ == "publisher_timeout"@ && error.message@ == message@,
        forall|error: ApiError| #[trigger]
            call_ensures(ApiError::publisher_unavailable, (message,), error) ==> error.status
                == 503 && error.code@ == "publisher_unavailable"@ && error.message@ == message@
                && error.retry_after == Some(5u64),
        forall|error: ApiError| #[trigger]
            call_ensures(ApiError::internal, (message,), error) ==> error.status == 500
                && error.code@ == "internal_error"@ && error.message@ == message@,
        forall|error: ApiError| #[trigger]
            call_ensures(ApiError::storage_unavailable, (message,), error) ==> error.status == 503
                && error.code@ == "storage_unavailable"@ && error.message@ == message@,
        forall|error: ApiError| #[trigger]
            call_ensures(ApiError::unauthorized, (message,), error) ==> error.status == 401
                && error.code@ == "unauthorized"@ && error.message@ == message@
                && option_view(error.www_authenticate) == Some("Bearer"@),
        forall|error: ApiError| #[trigger]
            call_ensures(ApiError::rate_limited, (wait,), error) ==> error.status == 429
                && error.code@ == "rate_limited"@ && error.retry_after == Some(wait),
        forall|error: ApiError| #[trigger]
            call_ensures(ApiError::not_found, (), error) ==> error.status == 404 && error.code@
                == "not_found"@,
        forall|error: ApiError| #[trigger]
            call_ensures(not_ready, (message,), error) ==> error.status == 503 && error.code@
                == "not_ready"@ && error.message@ == message@,
        forall|error: ApiError| #[trigger]
            call_ensures(timed_out, (), error) ==> error.status == 504,
{
    assert forall|error: ApiError| #[trigger]
        call_ensures(ApiError::invalid, (message,), error) implies error.status == 400
        && error.code@ == "invalid_request"@ && error.message@ == message@ by {
        let shown = error@;
    }
    assert forall|error: ApiError| #[trigger]
        call_ensures(ApiError::unauthorized, (message,), error) implies option_view(
        error.www_authenticate,
    ) == Some("Bearer"@) by {
        let shown = error@;
        assert(shown.www_authenticate == Some("Bearer"@));
    }
}

/// An error keeps everything but its code when it gets another, and everything when it is
/// copied.
pub proof fn law_errors_keep_what_they_say(
    error: ApiError,
    code: &'static str,
    renamed: ApiError,
    copied: ApiError,
)
    requires
        call_ensures(ApiError::with_code, (error, code), renamed),
        call_ensures(ApiError::copy, (&error,), copied),
    ensures
        renamed.code@ == code@,
        renamed.status == error.status,
        renamed.message@ == error.message@,
        renamed.retry_after == error.retry_after,
        copied.code@ == error.code@,
        copied.status == error.status,
        copied.message@ == error.message@,
        copied.retry_after == error.retry_after,
        option_view(copied.www_authenticate) == option_view(error.www_authenticate),
{
    let shown = copied@;
    assert(shown.www_authenticate == error@.www_authenticate);
}

/// A fault of the relay's is one whose status says so, and a failed request is one that
/// was refused for whatever reason.
pub proof fn law_statuses_tell_whose_fault_it_was(error: ApiError, fault: bool, failed: bool)
    requires
        call_ensures(ApiError::is_server_error, (&error,), fault),
        call_ensures(is_failure, (error.status,), failed),
    ensures
        fault <==> 500 <= error.status < 600,
        failed <==> 400 <= error.status < 600,
{
}

/// A request is served if and only if its transport is good enough and it does not
/// announce a body over the limit.
pub proof fn law_requests_are_admitted(
    secure: bool,
    client: Address,
    length: Option<String>,
    limits: RequestLimits,
    result: ApiResult<()>,
)
    requires
        call_ensures(middleware, (secure, client, &length, &limits), result),
    ensures
        ({
            let transport = secure || !limits.require_secure || (limits.allow_loopback
                && client.loops_back()) || exists|i: int|
                0 <= i < limits.terminated_by@.len() && #[trigger] limits.terminated_by@[i].holds(
                    client,
                );
            let small = length is None || number((length->0)@) is None || number(
                (length->0)@,
            )->0 <= limits.max_body_bytes;
            &&& result is Ok <==> transport && small
            &&& !transport ==> (result matches Err(error) && error.status == 403 && error.code@
                == "insecure_transport"@)
            &&& transport && !small ==> (result matches Err(error) && error.status == 413
                && error.code@ == "payload_too_large"@)
        }),
{
}

/// A client is the peer itself, unless the peer is a trusted proxy that names another; and
/// its transport is secure if the peer's is, or if a trusted proxy says so.
pub proof fn law_clients_are_found_behind_trusted_proxies(
    conn: ConnMeta,
    enabled: bool,
    networks: &[Network],
    forwarded_for: Option<Address>,
    forwarded_proto: Option<String>,
    client: (Address, bool),
)
    requires
        call_ensures(
            resolve_client,
            (Some(conn), enabled, networks, forwarded_for, &forwarded_proto),
            client,
        ),
    ensures
        ({
            let trusted = enabled && exists|i: int|
                0 <= i < networks@.len() && #[trigger] networks@[i].holds(conn.peer);
            &&& client.0 == (if trusted && forwarded_for is Some {
                forwarded_for->0
            } else {
                conn.peer
            })
            &&& client.1 <==> conn.tls || (trusted && forwarded_proto is Some && lowered(
                trimmed(split_on((forwarded_proto->0)@, ',')[0]),
            ) == "https"@)
        }),
{
}

/// A network holds an address if and only if both are of one family and differ in nothing
/// but the bits behind the prefix. A whole address is a network of itself, and an empty
/// prefix holds every address of its family.
pub proof fn law_networks_hold_their_addresses(
    network: Network,
    one: Network,
    every: Network,
    a: u32,
    b: u32,
    inside: bool,
    itself: bool,
    anything: bool,
)
    requires
        network.address == Address::V4(a),
        network.prefix <= 32,
        one == (Network { address: Address::V4(a), prefix: 32 }),
        every == (Network { address: Address::V4(a), prefix: 0 }),
        call_ensures(Network::contains, (&network, Address::V4(b)), inside),
        call_ensures(Network::contains, (&one, Address::V4(b)), itself),
        call_ensures(Network::contains, (&every, Address::V4(b)), anything),
    ensures
        inside <==> a as nat / pow2((32 - network.prefix) as nat) == b as nat / pow2(
            (32 - network.prefix) as nat,
        ),
        itself <==> a == b,
        anything,
        !network.holds(Address::V6(b as u128)),
{
    vstd::arithmetic::power2::lemma2_to64();
    vstd::arithmetic::power2::lemma2_to64_rest();
    assert(a as nat / 1 == a && b as nat / 1 == b);
    assert(a as nat / 0x1_0000_0000 == 0 && b as nat / 0x1_0000_0000 == 0);
}

/// The machine itself is the block that begins with 127, or the last address but all.
pub proof fn law_loopback_is_the_machine_itself(a: u32, b: u128, v4: bool, v6: bool)
    requires
        call_ensures(Address::is_loopback, (&Address::V4(a),), v4),
        call_ensures(Address::is_loopback, (&Address::V6(b),), v6),
    ensures
        v4 <==> 0x7f00_0000 <= a <= 0x7fff_ffff,
        v6 <==> b == 1,
{
}

/// The client of a forwarded header is what stands before the first comma.
pub proof fn law_the_first_entry_counts(client: Seq<char>, header: &str, entry: String)
    requires
        !client.contains(','),
        header@ == client || exists|rest: Seq<char>| header@ == #[trigger] (client.push(',') + rest),
        call_ensures(first_entry, (header,), entry),
    ensures
        entry@ == trimmed(client),
{
    if header@ == client {
        crate::text::lemma_split_on(client, ',', client);
    } else {
        let rest = choose|rest: Seq<char>| header@ == #[trigger] (client.push(',') + rest);
        crate::text::lemma_split_on(client, ',', rest);
    }
}

/// Every request has its time but one that is upgraded to a socket.
pub proof fn law_sockets_have_no_time_limit(
    upgrade: Option<String>,
    seconds: u64,
    limit: Option<u64>,
)
    requires
        call_ensures(time_limit, (&upgrade, seconds), limit),
    ensures
        limit is None <==> upgrade is Some && lowered((upgrade->0)@) == "websocket"@,
        limit is Some ==> limit->0 == seconds,
{
}

/// The relay is ready if and only if it has started, is not shutting down, refuses what it
/// must and can use its storage.
pub proof fn law_readiness_needs_everything(vitals: Vitals, ready: Readiness)
    requires
        call_ensures(readiness, (&vitals,), ready),
    ensures
        ({
            let sound = vitals.started && !vitals.shutting_down && !vitals.storage_failing
                && !vitals.empty_token_accepted;
            &&& ready is Ready <==> sound && (vitals.probe matches Some(Ok(_)))
            &&& ready is Probe <==> sound && vitals.probe is None
            &&& sound && (vitals.probe matches Some(Err(reason))) ==> ready is NotReady
                && ready->NotReady_0@ == (vitals.probe->0)->Err_0@
        }),
{
    if ready is NotReady {
        assert(ready@->NotReady_0 == ready->NotReady_0@);
    }
}

/// The metrics are read by operators, or by everyone where that was switched on, and by
/// nobody where they are disabled.
pub proof fn law_metrics_are_for_operators(
    enabled: bool,
    require_operator: bool,
    expected: Option<String>,
    header: Option<String>,
    result: ApiResult<()>,
)
    requires
        call_ensures(metrics_endpoint, (enabled, require_operator, &expected, &header), result),
    ensures
        result is Ok <==> enabled && (!require_operator || (expected is Some && header is Some
            && header_token((header->0)@) is Some && stored_hash(
            header_token((header->0)@)->0,
        ) == (expected->0)@)),
        !enabled ==> (result matches Err(error) && error.status == 404),
{
}

/// A key is taken from its header, trimmed, if it is not empty and not too long, and only
/// where keys are enabled.
pub proof fn law_keys_are_taken_from_their_header(
    header: Option<String>,
    enabled: bool,
    key: Option<String>,
)
    requires
        call_ensures(extract, (&header, enabled), key),
    ensures
        key is Some <==> enabled && header is Some && trimmed((header->0)@).len() > 0
            && encode_utf8(trimmed((header->0)@)).len() <= 255,
        key is Some ==> (key->0)@ == trimmed((header->0)@),
{
}

/// What is stored under a key is found by a request with the same key for the same thing,
/// which gets the same answer; with another body it conflicts, and without a key nothing
/// is stored or found.
pub proof fn law_answers_are_given_again(
    scope: &str,
    method: &str,
    path: &str,
    key: Option<String>,
    body: &[u8],
    status: u16,
    response: &str,
    record: Option<(String, IdempotentResponse)>,
    asked: Step<LookUp, Remembered>,
    again: Step<LookUp, Remembered>,
    absent: Step<LookUp, Remembered>,
)
    requires
        100 <= status <= 999,
        json_value(response@) == Some(response@),
        call_ensures(store, (scope, method, path, &key, body, status, response), record),
        call_ensures(
            lookup,
            (scope, method, path, &key, body, &None::<Option<IdempotentResponse>>),
            asked,
        ),
        record is Some ==> call_ensures(
            lookup,
            (scope, method, path, &key, body, &Some(Some((record->0).1))),
            again,
        ),
        call_ensures(
            lookup,
            (scope, method, path, &key, body, &Some(None::<IdempotentResponse>)),
            absent,
        ),
    ensures
        record is Some <==> key is Some,
        key is None ==> (asked matches Step::Done(Remembered::Nothing)),
        key is Some ==> {
            &&& asked matches Step::Ask(question) && question.key_hash@ == (record->0).0@
            &&& again matches Step::Done(Remembered::Again(replay)) && replay.status == status
                && replay.body@ == response@
        },
        absent matches Step::Done(Remembered::Nothing),
{
    if let Some((hash, response)) = record {
        let shown = response@;
        if let Step::Done(Remembered::Again(replay)) = again {
            let shown = replay@;
        }
    }
}

/// A key is good for one body: with another it is refused.
pub proof fn law_keys_are_for_one_body(
    scope: &str,
    method: &str,
    path: &str,
    key: String,
    body: &[u8],
    known: IdempotentResponse,
    step: Step<LookUp, Remembered>,
)
    requires
        call_ensures(
            lookup,
            (scope, method, path, &Some(key), body, &Some(Some(known))),
            step,
        ),
        known.request_hash@ != crate::text::hex(crate::encoding::sha256_digest(body@)),
    ensures
        step matches Step::Refuse(error) && error.status == 409 && error.code@
            == "idempotency_key_conflict"@,
{
}

/// What a key stands for is told apart by who asks and for what.
pub proof fn law_subjects_are_told_apart(
    client: &str,
    identity_id: &str,
    device_id: Uuid,
    identity: Subject,
    device: Subject,
    opening: Subject,
)
    requires
        call_ensures(Subject::identity, (client,), identity),
        call_ensures(Subject::device, (identity_id,), device),
        call_ensures(Subject::opening, (identity_id, device_id), opening),
    ensures
        identity.scope@ == "source:"@ + client@,
        device.scope@ == identity_id@,
        opening.scope@ == identity_id@,
        identity.path@ == "/v1/identities"@,
        device.path@ == "/v1/devices"@,
        opening.path@ == "/v1/devices/"@ + uuid_text(device_id.value) + "/terminals"@,
        identity.method@ == "POST"@,
        device.method@ == "POST"@,
        opening.method@ == "POST"@,
{
}

/// An unreadable body is refused for what is wrong with it: its type, its size, its syntax
/// or its contents.
pub proof fn law_unreadable_bodies_are_refused_by_kind(
    fault: JsonFault,
    text: &str,
    cleanable: bool,
    message: String,
    error: ApiError,
)
    requires
        call_ensures(is_cleanable, (text,), cleanable),
        cleanable,
        encode_utf8(trimmed(crate::relay::extract::single_line(text@))).len() <= 300,
        call_ensures(clean, (text,), message),
        call_ensures(reject_json, (fault, text), error),
    ensures
        message@ == trimmed(crate::relay::extract::single_line(text@)),
        fault == JsonFault::ContentType ==> error.status == 415 && error.code@
            == "unsupported_media_type"@,
        fault == JsonFault::Unreadable ==> error.status == 413 && error.code@
            == "payload_too_large"@,
        fault == JsonFault::Data ==> error.status == 422 && error.message@ == message@,
        fault == JsonFault::Syntax || fault == JsonFault::Other ==> error.status == 400
            && error.message@ == message@,
{
    let shown = error@;
}

/// A principal that was noted is shown; before that there is a dash.
pub proof fn law_principals_are_logged(log: PrincipalLog, shown: String)
    requires
        call_ensures(PrincipalLog::get, (&log,), shown),
    ensures
        log.principal is Some ==> shown@ == (log.principal->0)@,
        log.principal is None ==> shown@ == "-"@,
{
}

} // verus!
