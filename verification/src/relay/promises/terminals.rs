//! What can be counted on when terminals are listed, looked at and asked for.

use crate::ids::{uuid_text, Uuid};
use crate::json::reading::{
    has_member, has_number, has_text, has_truth, lemma_has_number, lemma_may_have_number,
    lemma_written_members, may_have_number, may_have_text,
};
use crate::json::{json_string, number_or_null, object_text, text_or_null, truth_text};
use crate::relay::auth::Auth;
use crate::relay::crypto::DeviceRole;
use crate::relay::devices::PageRequest;
use crate::relay::error::{ApiResult, Refusal};
use crate::relay::idempotency::{key_hash, Remembered, Subject};
use crate::relay::repo::{read_cursor, Device, TerminalFilters, TerminalRow, TerminalState};
use crate::relay::step::Step;
use crate::relay::terminals::{
    capacity_member, create_for_device, current_offsets, duplicate_member, get, has_control,
    is_blank, lemma_terminal_is_written, list, location, offsets_for, open_request_id,
    opened_status, process_member, terminal_json, terminal_members, validate_label, BeginOpen, CreateTerminalRequest, Offsets, OpenAnswers,
    OpenCount, OpenOutcome, OpenQuestion, OpenSettings, OpenStep, Pending, TerminalTimes,
};
use crate::relay::ws::FindTerminal;
use crate::text::{decimal, option_view, texts};
use vstd::prelude::*;
use vstd::utf8::encode_utf8;

verus! {

/// A request for a terminal may be put to this device: it is the caller's own, was not
/// revoked, and publishes.
pub open spec fn is_own_publisher(device: Device, auth: Auth) -> bool {
    &&& device.identity_id@ == auth.identity_id@
    &&& device.revoked_at is None
    &&& device.role == DeviceRole::Publisher || device.role == DeviceRole::Both
}

/// A request is well made: it has a label that can be shown, if any, and a size that a
/// terminal can have, if any.
pub open spec fn is_well_made(request: CreateTerminalRequest, max_label_bytes: usize) -> bool {
    &&& request.label is Some ==> {
        &&& encode_utf8((request.label->0)@).len() <= max_label_bytes
        &&& !is_blank((request.label->0)@)
        &&& !has_control((request.label->0)@)
    }
    &&& request.cols is Some ==> 1 <= request.cols->0 <= 10_000
    &&& request.rows is Some ==> 1 <= request.rows->0 <= 10_000
}

/// A request gets as far as the device: the caller may open terminals, opening is
/// enabled, nothing was answered under its key before, it is well made, and the limits
/// hold.
pub open spec fn gets_through(
    auth: Auth,
    settings: OpenSettings,
    key: Option<String>,
    request: CreateTerminalRequest,
    answers: OpenAnswers,
) -> bool {
    &&& texts(auth.scopes@).contains("terminals:create"@)
    &&& settings.enabled
    &&& key is Some
    &&& answers.remembered matches Some(Ok(Remembered::Nothing))
    &&& is_well_made(request, settings.max_label_bytes)
    &&& answers.device matches Some(Some(device)) && is_own_publisher(device, auth)
    &&& settings.rate_limited ==> answers.principal_within == Some(true) && answers.device_within
        == Some(true)
    &&& answers.supported == Some(true)
}

/// A terminal that was asked for is opened if and only if the request got to the device,
/// the device opened one, and it can be read; and it is the one that the device opened.
pub proof fn law_opened_terminals_are_those_of_the_device(
    auth: Auth,
    device_id: Uuid,
    settings: OpenSettings,
    key: Option<String>,
    request: CreateTerminalRequest,
    answers: OpenAnswers,
    step: OpenStep,
)
    requires
        call_ensures(
            create_for_device,
            (&auth, device_id, &settings, &key, &Ok::<CreateTerminalRequest, _>(request), &answers),
            step,
        ),
    ensures
        step is Opened <==> {
            &&& gets_through(auth, settings, key, request, answers)
            &&& {
                ||| answers.begun matches Some(Ok(BeginOpen::Joined))
                ||| (answers.begun matches Some(Ok(BeginOpen::Fresh))) && answers.delivered == Some(
                    true,
                )
            }
            &&& answers.answer matches Some(OpenOutcome::Opened { .. })
            &&& answers.readable == Some(true)
        },
        (step matches OpenStep::Opened { terminal_id, deduplicated, pending } ==> {
            &&& answers.answer == Some(OpenOutcome::<String>::Opened { terminal_id, deduplicated })
            &&& pending == Pending::Finished <==> (answers.begun matches Some(Ok(BeginOpen::Fresh)))
            &&& pending == Pending::Stays <==> (answers.begun matches Some(Ok(BeginOpen::Joined)))
        }),
{
}

/// What is put to a device is the label and the size that were asked for, under the ID
/// that the caller's key stands for; and it is put to it if and only if the request got
/// through and was the first under its key.
pub proof fn law_requests_are_delivered_as_made(
    auth: Auth,
    device_id: Uuid,
    settings: OpenSettings,
    key: Option<String>,
    request: CreateTerminalRequest,
    answers: OpenAnswers,
    step: OpenStep,
)
    requires
        call_ensures(
            create_for_device,
            (&auth, device_id, &settings, &key, &Ok::<CreateTerminalRequest, _>(request), &answers),
            step,
        ),
    ensures
        (step matches OpenStep::Ask(OpenQuestion::Deliver(_))) <==> {
            &&& gets_through(auth, settings, key, request, answers)
            &&& answers.begun matches Some(Ok(BeginOpen::Fresh))
            &&& answers.delivered is None
        },
        step matches OpenStep::Ask(OpenQuestion::Deliver(delivery)) ==> {
            &&& delivery@.label == (match request.label {
                Some(label) => Some(label@),
                None => None,
            })
            &&& delivery.cols == request.cols
            &&& delivery.rows == request.rows
            &&& delivery.device_id == (answers.device->0)->0.device_id
            &&& delivery.request_id@ == open_request_id(auth.identity_id@, device_id, (key->0)@)
        },
        (step matches OpenStep::Ask(OpenQuestion::Begin(id)) ==> id@ == open_request_id(
            auth.identity_id@,
            device_id,
            (key->0)@,
        )),
{
}

/// Each question is about the caller, the device and the terminal at hand, and is put only
/// while it is open.
pub proof fn law_openings_ask_about_what_is_at_hand(
    auth: Auth,
    device_id: Uuid,
    settings: OpenSettings,
    key: Option<String>,
    request: CreateTerminalRequest,
    answers: OpenAnswers,
    step: OpenStep,
)
    requires
        call_ensures(
            create_for_device,
            (&auth, device_id, &settings, &key, &Ok::<CreateTerminalRequest, _>(request), &answers),
            step,
        ),
    ensures
        (step matches OpenStep::Ask(OpenQuestion::Remembered(subject)) ==> {
            &&& answers.remembered is None
            &&& subject.method@ == "POST"@
            &&& subject.path@ == "/v1/devices/"@ + uuid_text(device_id.value) + "/terminals"@
        }),
        (step matches OpenStep::Ask(OpenQuestion::Device(id)) ==> answers.device is None && id
            == device_id),
        (step matches OpenStep::Ask(OpenQuestion::PrincipalWithinLimit(principal)) ==> {
            &&& settings.rate_limited
            &&& answers.principal_within is None
            &&& principal@ == auth.principal_id@
        }),
        (step matches OpenStep::Ask(OpenQuestion::DeviceWithinLimit(device)) ==> {
            &&& settings.rate_limited
            &&& answers.principal_within == Some(true)
            &&& answers.device_within is None
            &&& device@ == uuid_text((answers.device->0)->0.device_id.value)
        }),
        (step matches OpenStep::Ask(OpenQuestion::Supported(id)) ==> answers.supported is None && id
            == (answers.device->0)->0.device_id),
        (step matches OpenStep::Ask(OpenQuestion::Answer) ==> answers.answer is None),
        (step matches OpenStep::Ask(OpenQuestion::Terminal(id)) ==> {
            &&& answers.readable is None
            &&& answers.answer matches Some(OpenOutcome::Opened { terminal_id, .. })
                && terminal_id == id
        }),
{
}

/// Each way in which opening a terminal comes to nothing has its own status, is counted as
/// what it was, and leaves behind what it should.
pub proof fn law_failed_openings_say_why(
    auth: Auth,
    device_id: Uuid,
    settings: OpenSettings,
    key: Option<String>,
    request: CreateTerminalRequest,
    answers: OpenAnswers,
    step: OpenStep,
)
    requires
        call_ensures(
            create_for_device,
            (&auth, device_id, &settings, &key, &Ok::<CreateTerminalRequest, _>(request), &answers),
            step,
        ),
    ensures
        ({
            let may = texts(auth.scopes@).contains("terminals:create"@);
            let fresh = may && settings.enabled && key is Some && (answers.remembered matches Some(
                Ok(Remembered::Nothing),
            ));
            let delivered = gets_through(auth, settings, key, request, answers) && (
            answers.begun matches Some(Ok(BeginOpen::Fresh))) && answers.delivered == Some(true);
            &&& !may ==> (step matches OpenStep::Refuse { error, pending, counted } && error@.status
                == 403 && counted == OpenCount::Nowhere)
            &&& may && !settings.enabled ==> (step matches OpenStep::Refuse {
                error,
                pending,
                counted,
            } && error@.status == 403 && counted == OpenCount::Refused)
            &&& may && settings.enabled && key is None ==> (step matches OpenStep::Refuse {
                error,
                pending,
                counted,
            } && error@.status == 400 && counted == OpenCount::Nowhere)
            &&& fresh && !is_well_made(request, settings.max_label_bytes) ==> (
            step matches OpenStep::Refuse { error, pending, counted } && error@.status == 422)
            &&& fresh && is_well_made(request, settings.max_label_bytes) && (
            answers.device matches Some(found) && !(found is Some && is_own_publisher(
                found->0,
                auth,
            ))) ==> (step matches OpenStep::Refuse { error, pending, counted } && error@.status
                == 404)
            &&& delivered && (answers.answer matches Some(OpenOutcome::Declined { .. })) ==> (
            step matches OpenStep::Refuse { error, pending, counted } && error@.status == 502
                && pending == Pending::Finished && counted == OpenCount::Nowhere)
            &&& delivered && (answers.answer matches Some(OpenOutcome::Unavailable)) ==> (
            step matches OpenStep::Refuse { error, pending, counted } && error@.status == 503
                && pending == Pending::Finished && counted == OpenCount::Unavailable)
            &&& delivered && (answers.answer matches Some(OpenOutcome::TimedOut)) ==> (
            step matches OpenStep::Refuse { error, pending, counted } && error@.status == 504
                && pending == Pending::Stays && counted == OpenCount::TimedOut)
            &&& gets_through(auth, settings, key, request, answers) && (
            answers.begun matches Some(Ok(BeginOpen::Fresh))) && answers.delivered == Some(false)
                ==> (step matches OpenStep::Refuse { error, pending, counted } && error@.status
                == 503 && pending == Pending::Undeliverable && counted == OpenCount::Unavailable)
        }),
{
}

/// Whoever asks too often, for itself or of one device, is told to wait a minute; where the
/// device takes no requests, that is said; and what the device says of a failure is passed
/// on.
pub proof fn law_openings_are_held_back(
    auth: Auth,
    device_id: Uuid,
    settings: OpenSettings,
    key: Option<String>,
    request: CreateTerminalRequest,
    answers: OpenAnswers,
    step: OpenStep,
)
    requires
        call_ensures(
            create_for_device,
            (&auth, device_id, &settings, &key, &Ok::<CreateTerminalRequest, _>(request), &answers),
            step,
        ),
        texts(auth.scopes@).contains("terminals:create"@),
        settings.enabled,
        key is Some,
        answers.remembered matches Some(Ok(Remembered::Nothing)),
        is_well_made(request, settings.max_label_bytes),
        answers.device matches Some(Some(device)) && is_own_publisher(device, auth),
    ensures
        settings.rate_limited && (answers.principal_within == Some(false) || (
        answers.principal_within == Some(true) && answers.device_within == Some(false))) ==> (
        step matches OpenStep::Refuse { error, pending, counted } && error.status == 429
            && error.retry_after == Some(60u64) && counted == OpenCount::Refused && pending
            == Pending::Stays),
        gets_through_limits(settings, answers) && answers.supported == Some(false) ==> (
        step matches OpenStep::Refuse { error, pending, counted } && error.status == 503
            && error.code@ == "publisher_unavailable"@ && counted == OpenCount::Unavailable),
        gets_through_limits(settings, answers) && answers.supported == Some(true) && (
        answers.begun matches Some(Ok(BeginOpen::Joined))) ==> {
            &&& answers.answer matches Some(OpenOutcome::Declined { reason }) ==> (
            step matches OpenStep::Refuse { error, pending, counted } && error.code@
                == "publisher_declined"@ && error.message@
                == "the device declined to open a terminal: "@ + reason@)
            &&& answers.answer matches Some(OpenOutcome::Failed { code, message }) ==> (
            step matches OpenStep::Refuse { error, pending, counted } && error.status == 409
                && error.code@ == code@ && error.message@ == message@)
            &&& answers.answer is None ==> (step matches OpenStep::Ask(OpenQuestion::Answer))
        },
        gets_through_limits(settings, answers) && answers.supported == Some(true)
            && answers.begun is None ==> (step matches OpenStep::Ask(OpenQuestion::Begin(_))),
{
    if let OpenStep::Refuse { error, pending, counted } = step {
        let shown = error@;
    }
}

/// The limits leave a request alone.
pub open spec fn gets_through_limits(settings: OpenSettings, answers: OpenAnswers) -> bool {
    settings.rate_limited ==> answers.principal_within == Some(true) && answers.device_within
        == Some(true)
}

/// A request is known to its device by the same hash under which its answer is remembered:
/// asking again under the same key is the same request.
pub proof fn law_requests_are_known_by_their_key(
    auth: Auth,
    device_id: Uuid,
    settings: OpenSettings,
    key: String,
    request: CreateTerminalRequest,
    answers: OpenAnswers,
    step: OpenStep,
    identity: &str,
    subject: Subject,
    scope: &str,
    method: &str,
    path: &str,
    word: &str,
    hash: String,
)
    requires
        call_ensures(
            create_for_device,
            (
                &auth,
                device_id,
                &settings,
                &Some(key),
                &Ok::<CreateTerminalRequest, _>(request),
                &answers,
            ),
            step,
        ),
        identity@ == auth.identity_id@,
        call_ensures(Subject::opening, (identity, device_id), subject),
        scope@ == subject.scope@,
        method@ == subject.method@,
        path@ == subject.path@,
        word@ == key@,
        call_ensures(key_hash, (scope, method, path, word), hash),
    ensures
        (step matches OpenStep::Ask(OpenQuestion::Begin(id)) ==> id@ == hash@),
        (step matches OpenStep::Ask(OpenQuestion::Deliver(delivery)) ==> delivery.request_id@
            == hash@),
{
    let shown = subject@;
    if let OpenStep::Ask(question) = step {
        let told = question@;
    }
}

/// A terminal is visible to every principal of its identity that may read terminals, and
/// to nobody else.
pub proof fn law_terminals_are_seen_by_their_identity(
    auth: Auth,
    terminal_id: Uuid,
    row: Option<Option<TerminalRow>>,
    step: Step<FindTerminal, ()>,
)
    requires
        call_ensures(get, (&auth, terminal_id, &row), step),
    ensures
        step is Done <==> texts(auth.scopes@).contains("terminals:read"@) && (
        row matches Some(Some(found)) && found.identity_id@ == auth.identity_id@),
        step is Ask <==> texts(auth.scopes@).contains("terminals:read"@) && row is None,
        step is Ask ==> step->Ask_0.terminal_id == terminal_id,
        step is Refuse ==> step->Refuse_0@.status == (if texts(auth.scopes@).contains(
            "terminals:read"@,
        ) {
            404int
        } else {
            403int
        }),
{
}

/// A list of terminals is restricted to what was asked for, and to nothing else.
pub proof fn law_lists_hold_what_was_asked_for(
    auth: Auth,
    device_id: Option<Uuid>,
    state: Option<String>,
    limit: Option<i64>,
    cursor: Option<String>,
    default: i64,
    max: i64,
    result: ApiResult<(PageRequest, TerminalFilters)>,
)
    requires
        call_ensures(list, (&auth, device_id, &state, limit, &cursor, default, max), result),
    ensures
        result is Ok <==> {
            &&& texts(auth.scopes@).contains("terminals:read"@)
            &&& limit is None || 1 <= limit->0 <= max
            &&& cursor is None || read_cursor((cursor->0)@) is Ok
            &&& state is None || (state->0)@ == "open"@ || (state->0)@ == "closed"@
        },
        (result matches Ok((page, filters)) ==> {
            &&& filters.device_id == device_id
            &&& filters.state is None <==> state is None
            &&& filters.state == Some(TerminalState::Open) <==> state is Some && (state->0)@
                == "open"@
            &&& filters.state == Some(TerminalState::Closed) <==> state is Some && (state->0)@
                == "closed"@
            &&& page.limit == (if limit is Some {
                limit->0
            } else if default <= max {
                default
            } else {
                max
            })
            &&& page.cursor is Some <==> cursor is Some
            &&& cursor is Some ==> read_cursor((cursor->0)@) == Ok::<_, Refusal>((page.cursor->0)@)
        }),
{
    reveal_strlit("open");
    reveal_strlit("closed");
    assert("open"@.len() == 4 && "closed"@.len() == 6);
}

/// A label is good if and only if it fits, shows something and holds no control character.
pub proof fn law_labels_can_be_shown(label: &str, max_bytes: usize, result: Result<(), String>)
    requires
        call_ensures(validate_label, (label, max_bytes), result),
    ensures
        result is Ok <==> encode_utf8(label@).len() <= max_bytes && !is_blank(label@)
            && !has_control(label@),
{
}

/// A terminal that is not resident ends where its durable output ends; of one that is, the
/// offsets are those of its residence.
pub proof fn law_offsets_are_current(resident: Option<Offsets>, row: TerminalRow, offsets: Offsets)
    requires
        call_ensures(offsets_for, (resident, &row), offsets),
    ensures
        resident is Some ==> offsets == resident->0,
        resident is None ==> {
            &&& offsets.earliest_offset == row.earliest_offset
            &&& offsets.next_offset == row.durable_offset
            &&& offsets.durable_offset == row.durable_offset
        },
{
}

/// As many bytes are retained as lie between the earliest and the next.
pub proof fn law_retained_output_reaches_to_the_end(offsets: Offsets, count: u64)
    requires
        call_ensures(Offsets::retained_bytes, (&offsets,), count),
    ensures
        offsets.earliest_offset <= offsets.next_offset ==> offsets.earliest_offset + count
            == offsets.next_offset,
        offsets.next_offset < offsets.earliest_offset ==> count == 0,
{
}

/// A terminal that was there already is not created, and one that is new is found under
/// its ID.
pub proof fn law_new_terminals_are_created(
    fresh: u16,
    known: u16,
    one: Uuid,
    here: String,
)
    requires
        call_ensures(opened_status, (false,), fresh),
        call_ensures(opened_status, (true,), known),
        call_ensures(location, (one,), here),
    ensures
        fresh == 201,
        known == 200,
        here@.skip("/v1/terminals/"@.len() as int) == uuid_text(one.value),
        here@.take("/v1/terminals/"@.len() as int) == "/v1/terminals/"@,
{
    assert(here@.skip("/v1/terminals/"@.len() as int) =~= uuid_text(one.value));
    assert(here@.take("/v1/terminals/"@.len() as int) =~= "/v1/terminals/"@);
}

#[verifier::spinoff_prover]
#[verifier::rlimit(40)]
proof fn lemma_terminal_reads(
    row: TerminalRow<Seq<char>>,
    offsets: Offsets,
    state: TerminalState,
    times: TerminalTimes<Seq<char>>,
    detailed: bool,
    capacity: u64,
    deduplicated: Option<bool>,
)
    ensures
        ({
            let json = object_text(
                terminal_members(row, offsets, state, times, detailed, capacity, deduplicated),
            );
            &&& has_member(json, "accepts_input"@, truth_text(row.accepts_input))
            &&& has_member(json, "close_reason"@, text_or_null(row.close_reason))
            &&& has_member(json, "closed_at"@, text_or_null(times.closed_at))
            &&& has_member(json, "cols"@, number_or_null(row.cols))
            &&& has_member(json, "created_at"@, json_string(times.created_at))
            &&& has_member(json, "device_id"@, json_string(uuid_text(row.device_id.value)))
            &&& has_member(json, "durable_offset"@, decimal(offsets.durable_offset as nat))
            &&& has_member(json, "earliest_offset"@, decimal(offsets.earliest_offset as nat))
            &&& has_member(json, "identity_id"@, json_string(row.identity_id))
            &&& has_member(json, "label"@, json_string(row.label))
            &&& has_member(json, "last_activity_at"@, json_string(times.last_activity_at))
            &&& has_member(json, "local_ref"@, json_string(row.local_ref))
            &&& has_member(json, "next_offset"@, decimal(offsets.next_offset as nat))
            &&& has_member(json, "retained_bytes"@, decimal(offsets.retained()))
            &&& has_member(json, "rows"@, number_or_null(row.rows))
            &&& has_member(json, "state"@, json_string(state.word()))
            &&& has_member(json, "term"@, text_or_null(row.term))
            &&& has_member(json, "terminal_id"@, json_string(uuid_text(row.terminal_id.value)))
            &&& deduplicated is Some ==> has_member(
                json,
                "deduplicated"@,
                truth_text(deduplicated->0),
            )
            &&& detailed && row.process_label is Some ==> has_text(
                json,
                "process_label"@,
                row.process_label->0,
            )
            &&& detailed ==> has_member(json, "replay_capacity_bytes"@, decimal(capacity as nat))
        }),
{
    let list = terminal_members(row, offsets, state, times, detailed, capacity, deduplicated);
    lemma_terminal_is_written(row, offsets, state, times, detailed, capacity, deduplicated);
    lemma_written_members(list, 1);
    let leading = seq![
        ("accepts_input"@, truth_text(row.accepts_input)),
        ("close_reason"@, text_or_null(row.close_reason)),
        ("closed_at"@, text_or_null(times.closed_at)),
        ("cols"@, number_or_null(row.cols)),
        ("created_at"@, json_string(times.created_at)),
    ];
    let duplicate = duplicate_member(deduplicated);
    let middle = seq![
        ("device_id"@, json_string(uuid_text(row.device_id.value))),
        ("durable_offset"@, decimal(offsets.durable_offset as nat)),
        ("earliest_offset"@, decimal(offsets.earliest_offset as nat)),
        ("identity_id"@, json_string(row.identity_id)),
        ("label"@, json_string(row.label)),
        ("last_activity_at"@, json_string(times.last_activity_at)),
        ("local_ref"@, json_string(row.local_ref)),
        ("next_offset"@, decimal(offsets.next_offset as nat)),
    ];
    let process = process_member(detailed, row.process_label);
    let room = capacity_member(detailed, capacity);
    let closing = seq![
        ("retained_bytes"@, decimal(offsets.retained())),
        ("rows"@, number_or_null(row.rows)),
        ("state"@, json_string(state.word())),
        ("term"@, text_or_null(row.term)),
        ("terminal_id"@, json_string(uuid_text(row.terminal_id.value))),
    ];
    assert(leading[0] == ("accepts_input"@, truth_text(row.accepts_input)));
    assert(leading[1] == ("close_reason"@, text_or_null(row.close_reason)));
    assert(leading[2] == ("closed_at"@, text_or_null(times.closed_at)));
    assert(leading[3] == ("cols"@, number_or_null(row.cols)));
    assert(leading[4] == ("created_at"@, json_string(times.created_at)));
    assert(middle[0] == ("device_id"@, json_string(uuid_text(row.device_id.value))));
    assert(middle[1] == ("durable_offset"@, decimal(offsets.durable_offset as nat)));
    assert(middle[2] == ("earliest_offset"@, decimal(offsets.earliest_offset as nat)));
    assert(middle[3] == ("identity_id"@, json_string(row.identity_id)));
    assert(middle[4] == ("label"@, json_string(row.label)));
    assert(middle[5] == ("last_activity_at"@, json_string(times.last_activity_at)));
    assert(middle[6] == ("local_ref"@, json_string(row.local_ref)));
    assert(middle[7] == ("next_offset"@, decimal(offsets.next_offset as nat)));
    assert(closing[0] == ("retained_bytes"@, decimal(offsets.retained())));
    assert(closing[1] == ("rows"@, number_or_null(row.rows)));
    assert(closing[2] == ("state"@, json_string(state.word())));
    assert(closing[3] == ("term"@, text_or_null(row.term)));
    assert(closing[4] == ("terminal_id"@, json_string(uuid_text(row.terminal_id.value))));
    if deduplicated is Some {
        assert(duplicate[0] == ("deduplicated"@, truth_text(deduplicated->0)));
    }
    if detailed && row.process_label is Some {
        assert(process[0] == ("process_label"@, json_string(row.process_label->0)));
    }
    if detailed {
        assert(room[0] == ("replay_capacity_bytes"@, decimal(capacity as nat)));
    }
    lemma_joined(leading, duplicate);
    let front = leading + duplicate;
    lemma_joined(front, middle);
    let front = front + middle;
    lemma_joined(front, process);
    let front = front + process;
    lemma_joined(front, room);
    let front = front + room;
    lemma_joined(front, closing);
    assert(list == front + closing);
    assert(list.contains(("accepts_input"@, truth_text(row.accepts_input))));
    assert(list.contains(("close_reason"@, text_or_null(row.close_reason))));
    assert(list.contains(("closed_at"@, text_or_null(times.closed_at))));
    assert(list.contains(("cols"@, number_or_null(row.cols))));
    assert(list.contains(("created_at"@, json_string(times.created_at))));
    assert(list.contains(("device_id"@, json_string(uuid_text(row.device_id.value)))));
    assert(list.contains(("durable_offset"@, decimal(offsets.durable_offset as nat))));
    assert(list.contains(("earliest_offset"@, decimal(offsets.earliest_offset as nat))));
    assert(list.contains(("identity_id"@, json_string(row.identity_id))));
    assert(list.contains(("label"@, json_string(row.label))));
    assert(list.contains(("last_activity_at"@, json_string(times.last_activity_at))));
    assert(list.contains(("local_ref"@, json_string(row.local_ref))));
    assert(list.contains(("next_offset"@, decimal(offsets.next_offset as nat))));
    assert(list.contains(("retained_bytes"@, decimal(offsets.retained()))));
    assert(list.contains(("rows"@, number_or_null(row.rows))));
    assert(list.contains(("state"@, json_string(state.word()))));
    assert(list.contains(("term"@, text_or_null(row.term))));
    assert(list.contains(("terminal_id"@, json_string(uuid_text(row.terminal_id.value)))));
    assert(deduplicated is Some ==> list.contains(
        ("deduplicated"@, truth_text(deduplicated->0)),
    ));
    assert(detailed && row.process_label is Some ==> list.contains(
        ("process_label"@, json_string(row.process_label->0)),
    ));
    assert(detailed ==> list.contains(("replay_capacity_bytes"@, decimal(capacity as nat))));
}

/// What is in one of two lists is in both of them together.
proof fn lemma_joined(front: Seq<(Seq<char>, Seq<char>)>, back: Seq<(Seq<char>, Seq<char>)>)
    ensures
        forall|member: (Seq<char>, Seq<char>)|
            front.contains(member) || back.contains(member) ==> #[trigger] (front
                + back).contains(member),
{
    let list = front + back;
    assert forall|member: (Seq<char>, Seq<char>)|
        front.contains(member) || back.contains(member) implies #[trigger] list.contains(member) by {
        if front.contains(member) {
            let i = choose|i: int| 0 <= i < front.len() && front[i] == member;
            assert(list[i] == member);
        } else {
            let i = choose|i: int| 0 <= i < back.len() && back[i] == member;
            assert(list[front.len() + i] == member);
        }
    }
}

/// The description of a terminal tells its ID, its device and its owner, its labels, its
/// size and its kind, its state, as it is in memory where it is held there, how far its
/// output reaches, and since when it is there.
#[verifier::spinoff_prover]
#[verifier::rlimit(60)]
pub proof fn law_terminals_are_described(
    row: TerminalRow,
    resident: Option<Offsets>,
    live: Option<TerminalState>,
    times: TerminalTimes,
    detailed: bool,
    capacity: u64,
    deduplicated: Option<bool>,
    json: String,
)
    requires
        call_ensures(
            terminal_json,
            (&row, resident, live, &times, detailed, capacity, deduplicated),
            json,
        ),
    ensures
        ({
            let json = json@;
            let offsets = resident->0;
            &&& has_truth(json, "accepts_input"@, row.accepts_input)
            &&& may_have_text(json, "close_reason"@, option_view(row.close_reason))
            &&& may_have_text(json, "closed_at"@, option_view(times.closed_at))
            &&& may_have_number(json, "cols"@, row.cols)
            &&& may_have_number(json, "rows"@, row.rows)
            &&& has_text(json, "created_at"@, times.created_at@)
            &&& deduplicated is Some ==> has_truth(json, "deduplicated"@, deduplicated->0)
            &&& has_text(json, "device_id"@, uuid_text(row.device_id.value))
            &&& has_text(json, "identity_id"@, row.identity_id@)
            &&& has_text(json, "label"@, row.label@)
            &&& has_text(json, "last_activity_at"@, times.last_activity_at@)
            &&& has_text(json, "local_ref"@, row.local_ref@)
            &&& resident is Some ==> {
                &&& has_number(json, "durable_offset"@, offsets.durable_offset as nat)
                &&& has_number(json, "earliest_offset"@, offsets.earliest_offset as nat)
                &&& has_number(json, "next_offset"@, offsets.next_offset as nat)
                &&& offsets.earliest_offset <= offsets.next_offset ==> has_number(
                    json,
                    "retained_bytes"@,
                    (offsets.next_offset - offsets.earliest_offset) as nat,
                )
            }
            &&& resident is None ==> {
                &&& has_number(json, "durable_offset"@, row.durable_offset as nat)
                &&& has_number(json, "earliest_offset"@, row.earliest_offset as nat)
                &&& has_number(json, "next_offset"@, row.durable_offset as nat)
                &&& row.earliest_offset <= row.durable_offset ==> has_number(
                    json,
                    "retained_bytes"@,
                    (row.durable_offset - row.earliest_offset) as nat,
                )
            }
            &&& detailed && row.process_label is Some ==> has_text(
                json,
                "process_label"@,
                (row.process_label->0)@,
            )
            &&& detailed ==> has_number(json, "replay_capacity_bytes"@, capacity as nat)
            &&& live == Some(TerminalState::Open) ==> has_text(json, "state"@, "open"@)
            &&& live == Some(TerminalState::Closed) ==> has_text(json, "state"@, "closed"@)
            &&& live is None && row.state == TerminalState::Open ==> has_text(
                json,
                "state"@,
                "open"@,
            )
            &&& live is None && row.state == TerminalState::Closed ==> has_text(
                json,
                "state"@,
                "closed"@,
            )
            &&& may_have_text(json, "term"@, option_view(row.term))
            &&& has_text(json, "terminal_id"@, uuid_text(row.terminal_id.value))
        }),
{
    let offsets = current_offsets(resident, row@);
    let state = match live {
        Some(state) => state,
        None => row.state,
    };
    lemma_terminal_reads(row@, offsets, state, times@, detailed, capacity, deduplicated);
    let json = json@;
    if detailed {
        lemma_has_number(json, "replay_capacity_bytes"@, capacity as nat);
    }
    lemma_may_have_number(json, "cols"@, row.cols);
    lemma_may_have_number(json, "rows"@, row.rows);
    lemma_has_number(json, "durable_offset"@, offsets.durable_offset as nat);
    lemma_has_number(json, "earliest_offset"@, offsets.earliest_offset as nat);
    lemma_has_number(json, "next_offset"@, offsets.next_offset as nat);
    lemma_has_number(json, "retained_bytes"@, offsets.retained());
}

} // verus!
