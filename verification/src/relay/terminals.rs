//! Terminals as clients see them, and asking a device to open one.
//!
//! A terminal's life is managed by its publisher over the relay connection. The relay
//! never creates one: it forwards the request, waits, and reports.

use crate::ids::{uuid_text, Uuid};
use crate::json;
use crate::json::{
    comes_first, comes_first_at, is_name, is_written, json_string, number_or_null, object_text,
    text_or_null, truth_text,
};
use crate::relay::auth::{answer_view, disabled, missing_scope, Auth};
use crate::relay::crypto::{scope, DeviceRole};
use crate::relay::devices::{
    onward, page, page_rows, page_size, read_page, requested_page, PageRequest, PageRow,
};
use crate::relay::error::{code, outcome, ApiError, ApiResult, Refusal};
use crate::relay::idempotency::{
    digest_hex, key_hash, key_input, opening_subject, Remembered, Replay, Subject,
};
use crate::relay::repo::{
    read_cursor, Cursor, Device, TerminalFilters, TerminalRow, TerminalState,
};
use crate::relay::step::{step_view, Step, StepModel};
use crate::relay::ws::FindTerminal;
use crate::text;
use crate::text::{decimal, is_control, is_white_space, option_view};
use vstd::prelude::*;
use vstd::utf8::*;

verus! {

/// Where a terminal's output stands.
#[derive(Debug, Clone, Copy, PartialEq, Eq, Structural)]
pub struct Offsets {
    pub earliest_offset: u64,
    pub next_offset: u64,
    pub durable_offset: u64,
}

impl Offsets {
    /// How many bytes can be replayed.
    pub open spec fn retained(self) -> nat {
        if self.next_offset > self.earliest_offset {
            (self.next_offset - self.earliest_offset) as nat
        } else {
            0
        }
    }

    /// How many bytes can be replayed.
    pub fn retained_bytes(&self) -> (count: u64)
        ensures
            count == self.retained(),
    {
        if self.next_offset > self.earliest_offset {
            self.next_offset - self.earliest_offset
        } else {
            0
        }
    }
}

/// Where a terminal's output stands.
pub open spec fn current_offsets(resident: Option<Offsets>, row: TerminalRow<Seq<char>>) -> Offsets {
    match resident {
        Some(offsets) => offsets,
        None => Offsets {
            earliest_offset: row.earliest_offset,
            next_offset: row.durable_offset,
            durable_offset: row.durable_offset,
        },
    }
}

/// Where a terminal's output stands: from memory while it is held there, because output
/// is accepted before it is stored; and from what is stored otherwise.
pub fn offsets_for(resident: Option<Offsets>, row: &TerminalRow) -> (offsets: Offsets)
    ensures
        offsets == current_offsets(resident, row@),
{
    match resident {
        Some(offsets) => offsets,
        None => Offsets {
            earliest_offset: row.earliest_offset,
            next_offset: row.durable_offset,
            durable_offset: row.durable_offset,
        },
    }
}

/// The moments of a terminal, in words.
#[derive(Debug)]
pub struct TerminalTimes<S = String> {
    pub created_at: S,
    pub last_activity_at: S,
    pub closed_at: Option<S>,
}

impl View for TerminalTimes {
    type V = TerminalTimes<Seq<char>>;

    open spec fn view(&self) -> TerminalTimes<Seq<char>> {
        TerminalTimes {
            created_at: self.created_at@,
            last_activity_at: self.last_activity_at@,
            closed_at: option_view(self.closed_at),
        }
    }
}

/// What is told of a terminal only where it is asked for by itself.
pub open spec fn process_member(detailed: bool, label: Option<Seq<char>>) -> Seq<
    (Seq<char>, Seq<char>),
> {
    if detailed && label is Some {
        seq![("process_label"@, json_string(label->0))]
    } else {
        Seq::empty()
    }
}

/// How much replay is kept, told only where a terminal is asked for by itself.
pub open spec fn capacity_member(detailed: bool, capacity: u64) -> Seq<(Seq<char>, Seq<char>)> {
    if detailed {
        seq![("replay_capacity_bytes"@, decimal(capacity as nat))]
    } else {
        Seq::empty()
    }
}

/// Whether the terminal was open already, told to whoever asked for one.
pub open spec fn duplicate_member(deduplicated: Option<bool>) -> Seq<(Seq<char>, Seq<char>)> {
    match deduplicated {
        Some(deduplicated) => seq![("deduplicated"@, truth_text(deduplicated))],
        None => Seq::empty(),
    }
}

/// The members of a terminal's description.
pub open spec fn terminal_members(
    row: TerminalRow<Seq<char>>,
    offsets: Offsets,
    state: TerminalState,
    times: TerminalTimes<Seq<char>>,
    detailed: bool,
    capacity: u64,
    deduplicated: Option<bool>,
) -> Seq<(Seq<char>, Seq<char>)> {
    seq![
        ("accepts_input"@, truth_text(row.accepts_input)),
        ("close_reason"@, text_or_null(row.close_reason)),
        ("closed_at"@, text_or_null(times.closed_at)),
        ("cols"@, number_or_null(row.cols)),
        ("created_at"@, json_string(times.created_at)),
    ] + duplicate_member(deduplicated) + seq![
        ("device_id"@, json_string(uuid_text(row.device_id.value))),
        ("durable_offset"@, decimal(offsets.durable_offset as nat)),
        ("earliest_offset"@, decimal(offsets.earliest_offset as nat)),
        ("identity_id"@, json_string(row.identity_id)),
        ("label"@, json_string(row.label)),
        ("last_activity_at"@, json_string(times.last_activity_at)),
        ("local_ref"@, json_string(row.local_ref)),
        ("next_offset"@, decimal(offsets.next_offset as nat)),
    ] + process_member(detailed, row.process_label) + capacity_member(detailed, capacity) + seq![
        ("retained_bytes"@, decimal(offsets.retained())),
        ("rows"@, number_or_null(row.rows)),
        ("state"@, json_string(state.word())),
        ("term"@, text_or_null(row.term)),
        ("terminal_id"@, json_string(uuid_text(row.terminal_id.value))),
    ]
}

proof fn lemma_leading_names()
    ensures
        is_name("accepts_input"@),
        is_name("close_reason"@),
        is_name("closed_at"@),
        is_name("cols"@),
        is_name("created_at"@),
        is_name("deduplicated"@),
        is_name("device_id"@),
        comes_first("accepts_input"@, "close_reason"@),
        comes_first("close_reason"@, "closed_at"@),
        comes_first("closed_at"@, "cols"@),
        comes_first("cols"@, "created_at"@),
        comes_first("created_at"@, "deduplicated"@),
        comes_first("created_at"@, "device_id"@),
        comes_first("deduplicated"@, "device_id"@),
{
    reveal_strlit("accepts_input");
    reveal_strlit("close_reason");
    reveal_strlit("closed_at");
    reveal_strlit("cols");
    reveal_strlit("created_at");
    reveal_strlit("deduplicated");
    reveal_strlit("device_id");
    assert(is_name("accepts_input"@));
    assert(is_name("close_reason"@));
    assert(is_name("closed_at"@));
    assert(is_name("cols"@));
    assert(is_name("created_at"@));
    assert(is_name("deduplicated"@));
    assert(is_name("device_id"@));
    assert("accepts_input"@.take(0) =~= "close_reason"@.take(0));
    assert(comes_first_at("accepts_input"@, "close_reason"@, 0));
    assert("close_reason"@.take(5) =~= "closed_at"@.take(5));
    assert(comes_first_at("close_reason"@, "closed_at"@, 5));
    assert("closed_at"@.take(1) =~= "cols"@.take(1));
    assert(comes_first_at("closed_at"@, "cols"@, 1));
    assert("cols"@.take(1) =~= "created_at"@.take(1));
    assert(comes_first_at("cols"@, "created_at"@, 1));
    assert("created_at"@.take(0) =~= "deduplicated"@.take(0));
    assert(comes_first_at("created_at"@, "deduplicated"@, 0));
    assert("created_at"@.take(0) =~= "device_id"@.take(0));
    assert(comes_first_at("created_at"@, "device_id"@, 0));
    assert("deduplicated"@.take(2) =~= "device_id"@.take(2));
    assert(comes_first_at("deduplicated"@, "device_id"@, 2));
}

proof fn lemma_middle_names()
    ensures
        is_name("device_id"@),
        is_name("durable_offset"@),
        is_name("earliest_offset"@),
        is_name("identity_id"@),
        is_name("label"@),
        is_name("last_activity_at"@),
        is_name("local_ref"@),
        is_name("next_offset"@),
        comes_first("device_id"@, "durable_offset"@),
        comes_first("durable_offset"@, "earliest_offset"@),
        comes_first("earliest_offset"@, "identity_id"@),
        comes_first("identity_id"@, "label"@),
        comes_first("label"@, "last_activity_at"@),
        comes_first("last_activity_at"@, "local_ref"@),
        comes_first("local_ref"@, "next_offset"@),
{
    reveal_strlit("device_id");
    reveal_strlit("durable_offset");
    reveal_strlit("earliest_offset");
    reveal_strlit("identity_id");
    reveal_strlit("label");
    reveal_strlit("last_activity_at");
    reveal_strlit("local_ref");
    reveal_strlit("next_offset");
    assert(is_name("device_id"@));
    assert(is_name("durable_offset"@));
    assert(is_name("earliest_offset"@));
    assert(is_name("identity_id"@));
    assert(is_name("label"@));
    assert(is_name("last_activity_at"@));
    assert(is_name("local_ref"@));
    assert(is_name("next_offset"@));
    assert("device_id"@.take(1) =~= "durable_offset"@.take(1));
    assert(comes_first_at("device_id"@, "durable_offset"@, 1));
    assert("durable_offset"@.take(0) =~= "earliest_offset"@.take(0));
    assert(comes_first_at("durable_offset"@, "earliest_offset"@, 0));
    assert("earliest_offset"@.take(0) =~= "identity_id"@.take(0));
    assert(comes_first_at("earliest_offset"@, "identity_id"@, 0));
    assert("identity_id"@.take(0) =~= "label"@.take(0));
    assert(comes_first_at("identity_id"@, "label"@, 0));
    assert("label"@.take(2) =~= "last_activity_at"@.take(2));
    assert(comes_first_at("label"@, "last_activity_at"@, 2));
    assert("last_activity_at"@.take(1) =~= "local_ref"@.take(1));
    assert(comes_first_at("last_activity_at"@, "local_ref"@, 1));
    assert("local_ref"@.take(0) =~= "next_offset"@.take(0));
    assert(comes_first_at("local_ref"@, "next_offset"@, 0));
}

proof fn lemma_closing_names()
    ensures
        is_name("next_offset"@),
        is_name("process_label"@),
        is_name("replay_capacity_bytes"@),
        is_name("retained_bytes"@),
        is_name("rows"@),
        is_name("state"@),
        is_name("term"@),
        is_name("terminal_id"@),
        comes_first("next_offset"@, "process_label"@),
        comes_first("next_offset"@, "replay_capacity_bytes"@),
        comes_first("next_offset"@, "retained_bytes"@),
        comes_first("process_label"@, "replay_capacity_bytes"@),
        comes_first("replay_capacity_bytes"@, "retained_bytes"@),
        comes_first("retained_bytes"@, "rows"@),
        comes_first("rows"@, "state"@),
        comes_first("state"@, "term"@),
        comes_first("term"@, "terminal_id"@),
{
    reveal_strlit("next_offset");
    reveal_strlit("process_label");
    reveal_strlit("replay_capacity_bytes");
    reveal_strlit("retained_bytes");
    reveal_strlit("rows");
    reveal_strlit("state");
    reveal_strlit("term");
    reveal_strlit("terminal_id");
    assert(is_name("next_offset"@));
    assert(is_name("process_label"@));
    assert(is_name("replay_capacity_bytes"@));
    assert(is_name("retained_bytes"@));
    assert(is_name("rows"@));
    assert(is_name("state"@));
    assert(is_name("term"@));
    assert(is_name("terminal_id"@));
    assert("next_offset"@.take(0) =~= "process_label"@.take(0));
    assert(comes_first_at("next_offset"@, "process_label"@, 0));
    assert("next_offset"@.take(0) =~= "replay_capacity_bytes"@.take(0));
    assert(comes_first_at("next_offset"@, "replay_capacity_bytes"@, 0));
    assert("next_offset"@.take(0) =~= "retained_bytes"@.take(0));
    assert(comes_first_at("next_offset"@, "retained_bytes"@, 0));
    assert("process_label"@.take(0) =~= "replay_capacity_bytes"@.take(0));
    assert(comes_first_at("process_label"@, "replay_capacity_bytes"@, 0));
    assert("replay_capacity_bytes"@.take(2) =~= "retained_bytes"@.take(2));
    assert(comes_first_at("replay_capacity_bytes"@, "retained_bytes"@, 2));
    assert("retained_bytes"@.take(1) =~= "rows"@.take(1));
    assert(comes_first_at("retained_bytes"@, "rows"@, 1));
    assert("rows"@.take(0) =~= "state"@.take(0));
    assert(comes_first_at("rows"@, "state"@, 0));
    assert("state"@.take(0) =~= "term"@.take(0));
    assert(comes_first_at("state"@, "term"@, 0));
    assert("term"@.take(4) =~= "terminal_id"@.take(4));
    assert(comes_first_at("term"@, "terminal_id"@, 4));
}

/// A terminal's description is JSON as it is written.
pub proof fn lemma_terminal_is_written(
    row: TerminalRow<Seq<char>>,
    offsets: Offsets,
    state: TerminalState,
    times: TerminalTimes<Seq<char>>,
    detailed: bool,
    capacity: u64,
    deduplicated: Option<bool>,
)
    requires
        offsets.retained() <= u64::MAX,
    ensures
        json::are_written(
            terminal_members(row, offsets, state, times, detailed, capacity, deduplicated),
            1,
        ),
        is_written(
            object_text(
                terminal_members(row, offsets, state, times, detailed, capacity, deduplicated),
            ),
            2,
        ),
{
    let leading = seq![
        ("accepts_input"@, truth_text(row.accepts_input)),
        ("close_reason"@, text_or_null(row.close_reason)),
        ("closed_at"@, text_or_null(times.closed_at)),
        ("cols"@, number_or_null(row.cols)),
        ("created_at"@, json_string(times.created_at)),
    ];
    let duplicate = duplicate_member(deduplicated);
    let middle = seq![
        ("device_id"@, json_string(uuid_text(row.device_id.value))),
        ("durable_offset"@, decimal(offsets.durable_offset as nat)),
        ("earliest_offset"@, decimal(offsets.earliest_offset as nat)),
        ("identity_id"@, json_string(row.identity_id)),
        ("label"@, json_string(row.label)),
        ("last_activity_at"@, json_string(times.last_activity_at)),
        ("local_ref"@, json_string(row.local_ref)),
        ("next_offset"@, decimal(offsets.next_offset as nat)),
    ];
    let process = process_member(detailed, row.process_label);
    let room = capacity_member(detailed, capacity);
    let closing = seq![
        ("retained_bytes"@, decimal(offsets.retained())),
        ("rows"@, number_or_null(row.rows)),
        ("state"@, json_string(state.word())),
        ("term"@, text_or_null(row.term)),
        ("terminal_id"@, json_string(uuid_text(row.terminal_id.value))),
    ];
    json::lemma_values_are_written(1);
    lemma_leading_names();
    lemma_middle_names();
    lemma_closing_names();
    assert(json::are_written(leading, 1));
    assert(json::are_written(duplicate, 1));
    assert(json::are_written(middle, 1));
    assert(json::are_written(process, 1));
    assert(json::are_written(room, 1));
    assert(json::are_written(closing, 1));
    json::lemma_members_are_written(leading, duplicate, 1);
    let front = leading + duplicate;
    assert(front.last().0 == (if deduplicated is Some {
        "deduplicated"@
    } else {
        "created_at"@
    }));
    json::lemma_members_are_written(front, middle, 1);
    let front = front + middle;
    assert(front.last() == middle.last());
    json::lemma_members_are_written(front, process, 1);
    let front = front + process;
    assert(front.last().0 == (if process.len() > 0 {
        "process_label"@
    } else {
        "next_offset"@
    }));
    json::lemma_members_are_written(front, room, 1);
    let front = front + room;
    assert(front.last().0 == (if detailed {
        "replay_capacity_bytes"@
    } else {
        "next_offset"@
    }));
    json::lemma_members_are_written(front, closing, 1);
    json::lemma_object_is_written(front + closing, 1);
    assert(front + closing == terminal_members(
        row,
        offsets,
        state,
        times,
        detailed,
        capacity,
        deduplicated,
    ));
}

/// Describes a terminal. `live` is its state in memory while it is held there, and
/// `deduplicated` says, in answer to a request for a terminal, whether it was open already.
pub fn terminal_json(
    row: &TerminalRow,
    resident: Option<Offsets>,
    live: Option<TerminalState>,
    times: &TerminalTimes,
    detailed: bool,
    capacity: u64,
    deduplicated: Option<bool>,
) -> (json: String)
    ensures
        json@ == object_text(
            terminal_members(
                row@,
                current_offsets(resident, row@),
                match live {
                    Some(state) => state,
                    None => row.state,
                },
                times@,
                detailed,
                capacity,
                deduplicated,
            ),
        ),
        is_written(json@, 2),
{
    let offsets: Offsets = offsets_for(resident, row);
    let state: TerminalState = match live {
        Some(state) => state,
        None => row.state,
    };
    let mut list = vec![
        json::member("accepts_input", json::truth(row.accepts_input)),
        json::member("close_reason", json::optional(&row.close_reason)),
        json::member("closed_at", json::optional(&times.closed_at)),
        json::member("cols", json::optional_number(row.cols)),
        json::member("created_at", json::string(times.created_at.as_str())),
    ];
    assert(json::member_views(list@) =~= seq![
        ("accepts_input"@, truth_text(row@.accepts_input)),
        ("close_reason"@, text_or_null(row@.close_reason)),
        ("closed_at"@, text_or_null(times@.closed_at)),
        ("cols"@, number_or_null(row@.cols)),
        ("created_at"@, json_string(times@.created_at)),
    ]);
    json::extend(&mut list, duplicate_json(deduplicated));
    let middle = vec![
        json::member("device_id", json::string(row.device_id.to_text().as_str())),
        json::member("durable_offset", text::decimal_of(offsets.durable_offset)),
        json::member("earliest_offset", text::decimal_of(offsets.earliest_offset)),
        json::member("identity_id", json::string(row.identity_id.as_str())),
        json::member("label", json::string(row.label.as_str())),
        json::member("last_activity_at", json::string(times.last_activity_at.as_str())),
        json::member("local_ref", json::string(row.local_ref.as_str())),
        json::member("next_offset", text::decimal_of(offsets.next_offset)),
    ];
    assert(json::member_views(middle@) =~= seq![
        ("device_id"@, json_string(uuid_text(row@.device_id.value))),
        ("durable_offset"@, decimal(offsets.durable_offset as nat)),
        ("earliest_offset"@, decimal(offsets.earliest_offset as nat)),
        ("identity_id"@, json_string(row@.identity_id)),
        ("label"@, json_string(row@.label)),
        ("last_activity_at"@, json_string(times@.last_activity_at)),
        ("local_ref"@, json_string(row@.local_ref)),
        ("next_offset"@, decimal(offsets.next_offset as nat)),
    ]);
    json::extend(&mut list, middle);
    json::extend(&mut list, process_json(detailed, &row.process_label));
    json::extend(&mut list, capacity_json(detailed, capacity));
    let end = vec![
        json::member("retained_bytes", text::decimal_of(offsets.retained_bytes())),
        json::member("rows", json::optional_number(row.rows)),
        json::member("state", json::string(state.as_str())),
        json::member("term", json::optional(&row.term)),
        json::member("terminal_id", json::string(row.terminal_id.to_text().as_str())),
    ];
    assert(json::member_views(end@) =~= seq![
        ("retained_bytes"@, decimal(offsets.retained())),
        ("rows"@, number_or_null(row@.rows)),
        ("state"@, json_string(state.word())),
        ("term"@, text_or_null(row@.term)),
        ("terminal_id"@, json_string(uuid_text(row@.terminal_id.value))),
    ]);
    json::extend(&mut list, end);
    proof {
        lemma_terminal_is_written(
            row@,
            offsets,
            state,
            times@,
            detailed,
            capacity,
            deduplicated,
        );
    }
    json::object(&list)
}

fn duplicate_json(deduplicated: Option<bool>) -> (list: Vec<json::Member>)
    ensures
        json::member_views(list@) == duplicate_member(deduplicated),
{
    let mut list: Vec<json::Member> = Vec::new();
    match deduplicated {
        Some(deduplicated) => list.push(json::member("deduplicated", json::truth(deduplicated))),
        None => {},
    }
    assert(json::member_views(list@) =~= duplicate_member(deduplicated));
    list
}

fn process_json(detailed: bool, label: &Option<String>) -> (list: Vec<json::Member>)
    ensures
        json::member_views(list@) == process_member(detailed, option_view(*label)),
{
    let mut list: Vec<json::Member> = Vec::new();
    match label {
        Some(label) => {
            if detailed {
                list.push(json::member("process_label", json::string(label.as_str())));
            }
        },
        None => {},
    }
    assert(json::member_views(list@) =~= process_member(detailed, option_view(*label)));
    list
}

fn capacity_json(detailed: bool, capacity: u64) -> (list: Vec<json::Member>)
    ensures
        json::member_views(list@) == capacity_member(detailed, capacity),
{
    let mut list: Vec<json::Member> = Vec::new();
    if detailed {
        list.push(json::member("replay_capacity_bytes", text::decimal_of(capacity)));
    }
    assert(json::member_views(list@) =~= capacity_member(detailed, capacity));
    list
}

/// The state that a listing is restricted to.
pub open spec fn requested_state(state: Option<Seq<char>>) -> Result<Option<TerminalState>, Refusal> {
    match state {
        None => Ok(None),
        Some(word) => if word == TerminalState::Open.word() {
            Ok(Some(TerminalState::Open))
        } else if word == TerminalState::Closed.word() {
            Ok(Some(TerminalState::Closed))
        } else {
            Err(Refusal::validation("state must be open or closed"@))
        },
    }
}

/// Reads a request for a page of an identity's terminals. Not for identities only: this
/// is how a paired phone discovers what it may mirror.
pub fn list(
    auth: &Auth,
    device_id: Option<Uuid>,
    state: &Option<String>,
    limit: Option<i64>,
    cursor: &Option<String>,
    default: i64,
    max: i64,
) -> (result: ApiResult<(PageRequest, TerminalFilters)>)
    ensures
        ({
            let page = requested_page(
                auth@,
                "terminals:read"@,
                page_size(limit, default, max),
                match option_view(*cursor) {
                    Some(raw) => Some(read_cursor(raw)),
                    None => None,
                },
            );
            let wanted = requested_state(option_view(*state));
            match result {
                Ok((request, filters)) => {
                    &&& page == Ok::<PageRequest<Option<Cursor<Seq<char>>>>, Refusal>(request@)
                    &&& wanted == Ok::<Option<TerminalState>, Refusal>(filters.state)
                    &&& filters.device_id == device_id
                },
                Err(error) => match page {
                    Err(refusal) => error@ == refusal,
                    Ok(page) => wanted == Err::<Option<TerminalState>, Refusal>(error@),
                },
            }
        }),
{
    let page = match read_page(auth, "terminals:read", limit, cursor, default, max) {
        Ok(page) => page,
        Err(error) => return Err(error),
    };
    proof {
        crate::relay::repo::law_state_words_differ(TerminalState::Open, TerminalState::Open);
        reveal_strlit("open");
        reveal_strlit("closed");
        assert("open"@.len() == 4 && "closed"@.len() == 6);
        assert(TerminalState::Open.word() == "open"@);
        assert(TerminalState::Closed.word() == "closed"@);
    }
    let state: Option<TerminalState> = match state {
        None => None,
        Some(word) => match TerminalState::parse(word.as_str()) {
            Some(state) => Some(state),
            None => return Err(ApiError::validation("state must be open or closed")),
        },
    };
    Ok((page, TerminalFilters { device_id, state }))
}

/// The answer to a request for a page of an identity's terminals.
pub fn terminals_page(rows: &Vec<PageRow>, limit: i64) -> (json: String)
    ensures
        json@ == object_text(
            seq![
                ("next_cursor"@, onward(rows@, limit)),
                ("terminals"@, page_rows(rows@, limit)),
            ],
        ),
{
    let (shown, next) = page(rows, limit);
    let list = vec![json::member("next_cursor", next), json::member("terminals", shown)];
    assert(json::member_views(list@) =~= seq![
        ("next_cursor"@, onward(rows@, limit)),
        ("terminals"@, page_rows(rows@, limit)),
    ]);
    json::object(&list)
}

/// What looking at a terminal comes to.
pub open spec fn visible_terminal(
    auth: Auth<Seq<char>, Seq<Seq<char>>>,
    terminal_id: Uuid,
    row: Option<Option<TerminalRow<Seq<char>>>>,
) -> StepModel<FindTerminal, ()> {
    if !auth.scopes.contains("terminals:read"@) {
        StepModel::Refuse(missing_scope("terminals:read"@))
    } else {
        match row {
            None => StepModel::Ask(FindTerminal { terminal_id }),
            Some(None) => StepModel::Refuse(Refusal::not_found()),
            Some(Some(row)) => if row.identity_id == auth.identity_id {
                StepModel::Done(())
            } else {
                StepModel::Refuse(Refusal::not_found())
            },
        }
    }
}

/// Looks at one terminal. One that is somebody else's and one that does not exist are
/// refused alike.
pub fn get(auth: &Auth, terminal_id: Uuid, row: &Option<Option<TerminalRow>>) -> (step: Step<
    FindTerminal,
    (),
>)
    ensures
        step_view(step) == visible_terminal(
            auth@,
            terminal_id,
            match row {
                Some(row) => Some(option_view(*row)),
                None => None,
            },
        ),
{
    match auth.require_scope("terminals:read") {
        Ok(()) => {},
        Err(error) => return Step::Refuse(error),
    }
    match row {
        None => Step::Ask(FindTerminal { terminal_id }),
        Some(None) => Step::Refuse(ApiError::not_found()),
        Some(Some(row)) => {
            if text::same(row.identity_id.as_str(), auth.identity_id.as_str()) {
                Step::Done(())
            } else {
                Step::Refuse(ApiError::not_found())
            }
        },
    }
}

/// A text holds nothing but white space.
pub open spec fn is_blank(text: Seq<char>) -> bool {
    forall|i: int| 0 <= i < text.len() ==> is_white_space(#[trigger] text[i])
}

/// A text holds a control character.
pub open spec fn has_control(text: Seq<char>) -> bool {
    exists|i: int| 0 <= i < text.len() && is_control(#[trigger] text[i])
}

/// What is wrong with a label, if anything is.
pub open spec fn label_fault(label: Seq<char>, max_bytes: usize) -> Option<Seq<char>> {
    if encode_utf8(label).len() > max_bytes {
        Some("label exceeds "@ + decimal(max_bytes as nat) + " bytes"@)
    } else if is_blank(label) {
        Some("label must not be blank"@)
    } else if has_control(label) {
        Some("label must not contain control characters"@)
    } else {
        None
    }
}

/// A label crosses into the machine owner's own terminal and across an argument boundary.
/// Control characters are refused rather than stripped: stripping would leave the phone
/// showing one string and the machine another, which is the confusion that an injection
/// wants.
pub fn validate_label(label: &str, max_bytes: usize) -> (result: Result<(), String>)
    ensures
        match result {
            Ok(()) => label_fault(label@, max_bytes) is None,
            Err(fault) => label_fault(label@, max_bytes) == Some(fault@),
        },
{
    if label.as_bytes().len() > max_bytes {
        return Err(
            "label exceeds ".to_owned().concat(text::decimal_of(max_bytes as u64).as_str()).concat(
                " bytes",
            ),
        );
    }
    let list = text::characters(label);
    let mut blank: bool = true;
    let mut control: bool = false;
    let mut index: usize = 0;
    while index < list.len()
        invariant
            index <= list@.len(),
            list@ == label@,
            blank <==> forall|i: int| 0 <= i < index ==> is_white_space(#[trigger] label@[i]),
            control <==> exists|i: int| 0 <= i < index && is_control(#[trigger] label@[i]),
        decreases list@.len() - index,
    {
        if !text::white_space(list[index]) {
            assert(!is_white_space(label@[index as int]));
            blank = false;
        }
        if text::control(list[index]) {
            assert(is_control(label@[index as int]));
            control = true;
        }
        index = index + 1;
    }
    if blank {
        return Err("label must not be blank".to_owned());
    }
    if control {
        return Err("label must not contain control characters".to_owned());
    }
    Ok(())
}

/// A request for a terminal on a device.
#[derive(Debug)]
pub struct CreateTerminalRequest<S = String> {
    pub label: Option<S>,
    pub cols: Option<u32>,
    pub rows: Option<u32>,
}

impl View for CreateTerminalRequest {
    type V = CreateTerminalRequest<Seq<char>>;

    open spec fn view(&self) -> CreateTerminalRequest<Seq<char>> {
        CreateTerminalRequest {
            label: option_view(self.label),
            cols: self.cols,
            rows: self.rows,
        }
    }
}

/// A size that no terminal has.
pub open spec fn is_out_of_range(size: Option<u32>) -> bool {
    size is Some && (size->0 == 0 || size->0 > 10_000)
}

/// What is wrong with a request for a terminal, if anything is.
pub open spec fn request_fault(request: CreateTerminalRequest<Seq<char>>, max_label_bytes: usize) -> Option<
    Refusal,
> {
    if request.label is Some && label_fault(request.label->0, max_label_bytes) is Some {
        Some(Refusal::validation(label_fault(request.label->0, max_label_bytes)->0))
    } else if is_out_of_range(request.cols) {
        Some(Refusal::validation("cols is out of range"@))
    } else if is_out_of_range(request.rows) {
        Some(Refusal::validation("rows is out of range"@))
    } else {
        None
    }
}

fn out_of_range(size: Option<u32>) -> (out: bool)
    ensures
        out == is_out_of_range(size),
{
    match size {
        Some(size) => size == 0 || size > 10_000,
        None => false,
    }
}

/// Checks a request for a terminal.
pub fn check_request(request: &CreateTerminalRequest, max_label_bytes: usize) -> (result: ApiResult<
    (),
>)
    ensures
        outcome(result) == (match request_fault(request@, max_label_bytes) {
            Some(refusal) => Err::<(), Refusal>(refusal),
            None => Ok::<(), Refusal>(()),
        }),
{
    match &request.label {
        Some(label) => match validate_label(label.as_str(), max_label_bytes) {
            Ok(()) => {},
            Err(fault) => return Err(ApiError::validation(fault.as_str())),
        },
        None => {},
    }
    if out_of_range(request.cols) {
        return Err(ApiError::validation("cols is out of range"));
    }
    if out_of_range(request.rows) {
        return Err(ApiError::validation("rows is out of range"));
    }
    Ok(())
}

/// How a publisher answered a request to open a terminal.
#[derive(Debug)]
pub enum OpenOutcome<S = String> {
    Opened { terminal_id: Uuid, deduplicated: bool },
    Declined { reason: S },
    Failed { code: &'static str, message: S },
    Unavailable,
    /// It did not answer in time.
    TimedOut,
}

/// How a request to open a terminal began.
#[derive(Debug, Clone, Copy, PartialEq, Eq, Structural)]
pub enum BeginOpen {
    /// It is new, and has to be delivered to the publisher.
    Fresh,
    /// It is on its way already: wait for the same answer rather than asking twice.
    Joined,
}

impl View for BeginOpen {
    type V = BeginOpen;

    open spec fn view(&self) -> BeginOpen {
        *self
    }
}

/// A request as it is delivered to a device's publisher.
#[derive(Debug)]
pub struct Delivery<S = String> {
    pub device_id: Uuid,
    pub request_id: S,
    pub label: Option<S>,
    pub cols: Option<u32>,
    pub rows: Option<u32>,
}

impl View for Delivery {
    type V = Delivery<Seq<char>>;

    open spec fn view(&self) -> Delivery<Seq<char>> {
        Delivery {
            device_id: self.device_id,
            request_id: self.request_id@,
            label: option_view(self.label),
            cols: self.cols,
            rows: self.rows,
        }
    }
}

/// A request as it is delivered: under its name, with the label and the size that were
/// asked for.
pub open spec fn delivery_of(
    device_id: Uuid,
    request_id: Seq<char>,
    request: CreateTerminalRequest<Seq<char>>,
) -> Delivery<Seq<char>> {
    Delivery {
        device_id,
        request_id,
        label: request.label,
        cols: request.cols,
        rows: request.rows,
    }
}

/// What asking a device for a terminal still needs to know.
#[derive(Debug)]
pub enum OpenQuestion<S = String> {
    /// What is remembered under the request's idempotency key.
    Remembered(Subject<S>),
    /// The device, if the caller's identity owns it.
    Device(Uuid),
    /// Whether this principal may ask that often.
    PrincipalWithinLimit(S),
    /// Whether this device may be asked that often.
    DeviceWithinLimit(S),
    /// Whether the device's publisher is connected and takes such requests.
    Supported(Uuid),
    /// Register the request under this name.
    Begin(S),
    /// Deliver the request to the publisher.
    Deliver(Delivery<S>),
    /// Wait for the publisher's answer.
    Answer,
    Terminal(Uuid),
}

impl View for OpenQuestion {
    type V = OpenQuestion<Seq<char>>;

    open spec fn view(&self) -> OpenQuestion<Seq<char>> {
        match self {
            OpenQuestion::Remembered(subject) => OpenQuestion::Remembered(subject@),
            OpenQuestion::Device(id) => OpenQuestion::Device(*id),
            OpenQuestion::PrincipalWithinLimit(principal) => OpenQuestion::PrincipalWithinLimit(
                principal@,
            ),
            OpenQuestion::DeviceWithinLimit(device) => OpenQuestion::DeviceWithinLimit(device@),
            OpenQuestion::Supported(id) => OpenQuestion::Supported(*id),
            OpenQuestion::Begin(request) => OpenQuestion::Begin(request@),
            OpenQuestion::Deliver(delivery) => OpenQuestion::Deliver(delivery@),
            OpenQuestion::Answer => OpenQuestion::Answer,
            OpenQuestion::Terminal(id) => OpenQuestion::Terminal(*id),
        }
    }
}

/// What becomes of the pending request.
#[derive(Debug, Clone, Copy, PartialEq, Eq, Structural)]
pub enum Pending {
    /// It stays as it is: there is none, it is somebody else's, or its answer may still
    /// come.
    Stays,
    /// It could not be delivered: whoever waits for it is told so.
    Undeliverable,
    /// It has been answered and is forgotten.
    Finished,
}

/// Where a request for a terminal is counted.
#[derive(Debug, Clone, Copy, PartialEq, Eq, Structural)]
pub enum OpenCount {
    Nowhere,
    Opened,
    /// The relay did not pass it on.
    Refused,
    /// There was no publisher to answer it.
    Unavailable,
    TimedOut,
}

/// Where a request for a terminal stands. A refusal says where it is counted.
#[derive(Debug)]
pub enum OpenStep {
    Ask(OpenQuestion),
    Refuse { error: ApiError, pending: Pending, counted: OpenCount },
    /// As it ended before.
    Again(Replay),
    /// The terminal is open. The response is remembered before the pending request goes,
    /// so that a retry is never left with neither to find.
    Opened { terminal_id: Uuid, deduplicated: bool, pending: Pending },
}

/// Where a request for a terminal stands, over sequences.
pub enum OpenStepModel {
    Ask(OpenQuestion<Seq<char>>),
    Refuse { error: Refusal, pending: Pending, counted: OpenCount },
    Again(Replay<Seq<char>>),
    Opened { terminal_id: Uuid, deduplicated: bool, pending: Pending },
}

impl View for OpenStep {
    type V = OpenStepModel;

    open spec fn view(&self) -> OpenStepModel {
        match self {
            OpenStep::Ask(question) => OpenStepModel::Ask(question@),
            OpenStep::Refuse { error, pending, counted } => OpenStepModel::Refuse {
                error: error@,
                pending: *pending,
                counted: *counted,
            },
            OpenStep::Again(replay) => OpenStepModel::Again(replay@),
            OpenStep::Opened { terminal_id, deduplicated, pending } => OpenStepModel::Opened {
                terminal_id: *terminal_id,
                deduplicated: *deduplicated,
                pending: *pending,
            },
        }
    }
}

impl OpenStepModel {
    /// A refusal that leaves no pending request behind and is not counted.
    pub open spec fn refused(error: Refusal) -> OpenStepModel {
        OpenStepModel::counted(error, OpenCount::Nowhere)
    }

    /// A refusal that leaves no pending request behind.
    pub open spec fn counted(error: Refusal, counted: OpenCount) -> OpenStepModel {
        OpenStepModel::Refuse { error, pending: Pending::Stays, counted }
    }

    /// Where the request is counted.
    pub open spec fn count(self) -> OpenCount {
        match self {
            OpenStepModel::Refuse { error, pending, counted } => counted,
            OpenStepModel::Opened { terminal_id, deduplicated, pending } => OpenCount::Opened,
            _ => OpenCount::Nowhere,
        }
    }
}

/// The refusal that a publisher's answer comes to, if it is one, whether the pending
/// request is over with it, and where it is counted.
pub open spec fn answer_refusal(outcome: OpenOutcome) -> Option<(Refusal, bool, OpenCount)> {
    match outcome {
        OpenOutcome::Opened { terminal_id, deduplicated } => None,
        OpenOutcome::Declined { reason } => Some(
            (
                Refusal::publisher_declined(
                    "the device declined to open a terminal: "@ + reason@,
                ),
                true,
                OpenCount::Nowhere,
            ),
        ),
        OpenOutcome::Failed { code, message } => Some(
            (Refusal::new(409, code@, message@), true, OpenCount::Nowhere),
        ),
        OpenOutcome::Unavailable => Some(
            (
                Refusal::publisher_unavailable("that device disconnected before answering"@),
                true,
                OpenCount::Unavailable,
            ),
        ),
        OpenOutcome::TimedOut => Some(
            (
                Refusal::publisher_timeout(
                    "the device did not answer in time; retry with the same Idempotency-Key"@,
                ),
                false,
                OpenCount::TimedOut,
            ),
        ),
    }
}

/// What becomes of a pending request that has been answered: whoever began it ends it.
pub open spec fn ends(owns: bool, answered: bool) -> Pending {
    if owns && answered {
        Pending::Finished
    } else {
        Pending::Stays
    }
}

/// What a request for a terminal comes to once it has been registered.
pub open spec fn waited(
    delivery: Delivery<Seq<char>>,
    begun: BeginOpen,
    delivered: Option<bool>,
    answer: Option<OpenOutcome>,
    readable: Option<bool>,
) -> OpenStepModel {
    let owns = begun == BeginOpen::Fresh;
    if owns && delivered is None {
        OpenStepModel::Ask(OpenQuestion::Deliver(delivery))
    } else if owns && !delivered->0 {
        OpenStepModel::Refuse {
            error: Refusal::publisher_unavailable("that device could not be reached"@),
            pending: Pending::Undeliverable,
            counted: OpenCount::Unavailable,
        }
    } else {
        match answer {
            None => OpenStepModel::Ask(OpenQuestion::Answer),
            Some(outcome) => match outcome {
                OpenOutcome::Opened { terminal_id, deduplicated } => match readable {
                    None => OpenStepModel::Ask(OpenQuestion::Terminal(terminal_id)),
                    Some(false) => OpenStepModel::refused(
                        Refusal::internal("the opened terminal could not be read back"@),
                    ),
                    Some(true) => OpenStepModel::Opened {
                        terminal_id,
                        deduplicated,
                        pending: ends(owns, true),
                    },
                },
                _ => {
                    let (error, answered, counted) = answer_refusal(outcome)->0;
                    OpenStepModel::Refuse { error, pending: ends(owns, answered), counted }
                },
            },
        }
    }
}

/// What a request for a terminal comes to once its device is known to take one.
pub open spec fn begun_open(
    delivery: Delivery<Seq<char>>,
    begun: Option<Result<BeginOpen, Refusal>>,
    delivered: Option<bool>,
    answer: Option<OpenOutcome>,
    readable: Option<bool>,
) -> OpenStepModel {
    match begun {
        None => OpenStepModel::Ask(OpenQuestion::Begin(delivery.request_id)),
        Some(Err(refusal)) => OpenStepModel::refused(refusal),
        Some(Ok(begun)) => waited(delivery, begun, delivered, answer, readable),
    }
}

/// The device can be asked: it is the caller's, not revoked, and a publisher.
pub open spec fn can_be_asked(
    device: Option<Device<Seq<char>, Seq<u8>>>,
    identity_id: Seq<char>,
) -> bool {
    device matches Some(device) && device.identity_id == identity_id && device.revoked_at is None
        && device.role != DeviceRole::Client
}

/// What a request for a terminal comes to once it has been read. `request_id` is the name
/// that it is registered under.
pub open spec fn asked_device(
    auth: Auth<Seq<char>, Seq<Seq<char>>>,
    device_id: Uuid,
    request_id: Seq<char>,
    request: CreateTerminalRequest<Seq<char>>,
    rate_limited: bool,
    device: Option<Option<Device<Seq<char>, Seq<u8>>>>,
    principal_within: Option<bool>,
    device_within: Option<bool>,
    supported: Option<bool>,
    begun: Option<Result<BeginOpen, Refusal>>,
    delivered: Option<bool>,
    answer: Option<OpenOutcome>,
    readable: Option<bool>,
) -> OpenStepModel {
    match device {
        None => OpenStepModel::Ask(OpenQuestion::Device(device_id)),
        Some(device) => if !can_be_asked(device, auth.identity_id) {
            OpenStepModel::refused(Refusal::not_found())
        } else if rate_limited && principal_within is None {
            OpenStepModel::Ask(OpenQuestion::PrincipalWithinLimit(auth.principal_id))
        } else if rate_limited && !principal_within->0 {
            OpenStepModel::counted(Refusal::rate_limited(60), OpenCount::Refused)
        } else if rate_limited && device_within is None {
            OpenStepModel::Ask(
                OpenQuestion::DeviceWithinLimit(uuid_text(device->0.device_id.value)),
            )
        } else if rate_limited && !device_within->0 {
            OpenStepModel::counted(Refusal::rate_limited(60), OpenCount::Refused)
        } else {
            match supported {
                None => OpenStepModel::Ask(OpenQuestion::Supported(device->0.device_id)),
                Some(false) => OpenStepModel::counted(
                    Refusal::publisher_unavailable(
                        "that device is not currently accepting terminal-open requests"@,
                    ),
                    OpenCount::Unavailable,
                ),
                Some(true) => begun_open(
                    delivery_of(device->0.device_id, request_id, request),
                    begun,
                    delivered,
                    answer,
                    readable,
                ),
            }
        },
    }
}

/// What governs requests for terminals.
#[derive(Debug)]
pub struct OpenSettings {
    pub enabled: bool,
    pub max_label_bytes: usize,
    pub rate_limited: bool,
}

/// The answers to what asking a device for a terminal needs to know.
#[derive(Debug)]
pub struct OpenAnswers {
    pub remembered: Option<ApiResult<Remembered>>,
    pub device: Option<Option<Device>>,
    pub principal_within: Option<bool>,
    pub device_within: Option<bool>,
    pub supported: Option<bool>,
    pub begun: Option<ApiResult<BeginOpen>>,
    pub delivered: Option<bool>,
    pub answer: Option<OpenOutcome>,
    /// The opened terminal could be read back.
    pub readable: Option<bool>,
}

/// The name that a request for a terminal is registered under. It comes from the
/// idempotency key, so two retries at once land on the same pending request.
pub open spec fn open_request_id(
    identity_id: Seq<char>,
    device_id: Uuid,
    key: Seq<char>,
) -> Seq<char> {
    let subject = opening_subject(identity_id, device_id);
    digest_hex(encode_utf8(key_input(subject.scope, subject.method, subject.path, key)))
}

/// What is wrong with a request for a terminal before anything is looked up: the caller
/// needs the scope, the feature has to be switched on, and the request has to carry a key
/// so that a retry never makes a second terminal.
pub open spec fn open_gate(
    auth: Auth<Seq<char>, Seq<Seq<char>>>,
    enabled: bool,
    has_key: bool,
) -> Option<OpenStepModel> {
    if !auth.scopes.contains(scope::TERMINALS_CREATE@) {
        Some(OpenStepModel::refused(missing_scope(scope::TERMINALS_CREATE@)))
    } else if !enabled {
        Some(
            OpenStepModel::counted(
                disabled("terminal creation is disabled on this deployment"@),
                OpenCount::Refused,
            ),
        )
    } else if !has_key {
        Some(
            OpenStepModel::refused(
                Refusal::idempotency_key_required(
                    "Idempotency-Key is required when asking a device to open a terminal"@,
                ),
            ),
        )
    } else {
        None
    }
}

/// What a request for a terminal comes to up to the point where its device is looked up:
/// either how it ends, or nothing.
pub open spec fn open_front(
    auth: Auth<Seq<char>, Seq<Seq<char>>>,
    device_id: Uuid,
    enabled: bool,
    has_key: bool,
    remembered: Option<Result<Remembered<Seq<char>>, Refusal>>,
    request: Result<CreateTerminalRequest<Seq<char>>, Refusal>,
    max_label_bytes: usize,
) -> Option<OpenStepModel> {
    match open_gate(auth, enabled, has_key) {
        Some(step) => Some(step),
        None => match remembered {
            None => Some(
                OpenStepModel::Ask(
                    OpenQuestion::Remembered(opening_subject(auth.identity_id, device_id)),
                ),
            ),
            Some(Err(refusal)) => Some(OpenStepModel::refused(refusal)),
            Some(Ok(Remembered::Again(replay))) => Some(OpenStepModel::Again(replay)),
            Some(Ok(Remembered::Nothing)) => match request {
                Err(refusal) => Some(OpenStepModel::refused(refusal)),
                Ok(request) => match request_fault(request, max_label_bytes) {
                    Some(refusal) => Some(OpenStepModel::refused(refusal)),
                    None => None,
                },
            },
        },
    }
}

fn refuse(error: ApiError) -> (step: OpenStep)
    ensures
        step@ == OpenStepModel::refused(error@),
{
    refuse_as(error, OpenCount::Nowhere)
}

fn refuse_as(error: ApiError, counted: OpenCount) -> (step: OpenStep)
    ensures
        step@ == OpenStepModel::counted(error@, counted),
{
    OpenStep::Refuse { error, pending: Pending::Stays, counted }
}

fn front(
    auth: &Auth,
    device_id: Uuid,
    settings: &OpenSettings,
    has_key: bool,
    remembered: &Option<ApiResult<Remembered>>,
    request: &ApiResult<CreateTerminalRequest>,
) -> (step: Option<OpenStep>)
    ensures
        option_view(step) == open_front(
            auth@,
            device_id,
            settings.enabled,
            has_key,
            answer_view(*remembered),
            outcome(*request),
            settings.max_label_bytes,
        ),
{
    match auth.require_scope(scope::TERMINALS_CREATE) {
        Ok(()) => {},
        Err(error) => return Some(refuse(error)),
    }
    if !settings.enabled {
        return Some(
            refuse_as(
                ApiError::new(
                    403,
                    code::FEATURE_DISABLED,
                    "terminal creation is disabled on this deployment",
                ),
                OpenCount::Refused,
            ),
        );
    }
    // Required, not merely supported: this starts a program on another machine, and a
    // retry must never start a second one.
    if !has_key {
        return Some(
            refuse(
                ApiError::idempotency_key_required(
                    "Idempotency-Key is required when asking a device to open a terminal",
                ),
            ),
        );
    }
    match remembered {
        None => return Some(
            OpenStep::Ask(
                OpenQuestion::Remembered(Subject::opening(auth.identity_id.as_str(), device_id)),
            ),
        ),
        Some(Err(error)) => return Some(refuse(error.copy())),
        Some(Ok(Remembered::Again(replay))) => return Some(
            OpenStep::Again(
                Replay { status: replay.status, body: replay.body.as_str().to_owned() },
            ),
        ),
        Some(Ok(Remembered::Nothing)) => {},
    }
    match request {
        Err(error) => Some(refuse(error.copy())),
        Ok(request) => match check_request(request, settings.max_label_bytes) {
            Ok(()) => None,
            Err(error) => Some(refuse(error)),
        },
    }
}

/// Decides on a pending request, given what has become of it so far.
pub fn wait_for_answer(
    delivery: Delivery,
    begun: BeginOpen,
    delivered: Option<bool>,
    answer: &Option<OpenOutcome>,
    readable: Option<bool>,
) -> (step: OpenStep)
    ensures
        step@ == waited(delivery@, begun, delivered, *answer, readable),
{
    let owns: bool = matches!(begun, BeginOpen::Fresh);
    if owns {
        match delivered {
            None => return OpenStep::Ask(OpenQuestion::Deliver(delivery)),
            // It was registered before it was sent, so a failed delivery must retire
            // it, or a later caller joins a request that nobody is carrying.
            Some(false) => return OpenStep::Refuse {
                error: ApiError::publisher_unavailable("that device could not be reached"),
                pending: Pending::Undeliverable,
                counted: OpenCount::Unavailable,
            },
            Some(true) => {},
        }
    }
    let outcome = match answer {
        Some(outcome) => outcome,
        None => return OpenStep::Ask(OpenQuestion::Answer),
    };
    let finished: Pending = if owns {
        Pending::Finished
    } else {
        Pending::Stays
    };
    match outcome {
        OpenOutcome::Opened { terminal_id, deduplicated } => match readable {
            None => OpenStep::Ask(OpenQuestion::Terminal(*terminal_id)),
            Some(false) => refuse(ApiError::internal("the opened terminal could not be read back")),
            Some(true) => OpenStep::Opened {
                terminal_id: *terminal_id,
                deduplicated: *deduplicated,
                pending: finished,
            },
        },
        OpenOutcome::Declined { reason } => {
            let words = "the device declined to open a terminal: ".to_owned().concat(
                reason.as_str(),
            );
            OpenStep::Refuse {
                error: ApiError::publisher_declined(words.as_str()),
                pending: finished,
                counted: OpenCount::Nowhere,
            }
        },
        OpenOutcome::Failed { code, message } => OpenStep::Refuse {
            error: ApiError::new(409, code, message.as_str()),
            pending: finished,
            counted: OpenCount::Nowhere,
        },
        OpenOutcome::Unavailable => OpenStep::Refuse {
            error: ApiError::publisher_unavailable("that device disconnected before answering"),
            pending: finished,
            counted: OpenCount::Unavailable,
        },
        // A terminal may still have been opened, and its answer may still come: the
        // caller is told to ask again under the same key rather than guess.
        OpenOutcome::TimedOut => OpenStep::Refuse {
            error: ApiError::publisher_timeout(
                "the device did not answer in time; retry with the same Idempotency-Key",
            ),
            pending: Pending::Stays,
            counted: OpenCount::TimedOut,
        },
    }
}

/// Decides on a request whose device and name are known.
pub fn ask_device(
    auth: &Auth,
    device_id: Uuid,
    request_id: &str,
    request: &CreateTerminalRequest,
    rate_limited: bool,
    answers: &OpenAnswers,
) -> (step: OpenStep)
    ensures
        step@ == asked_device(
            auth@,
            device_id,
            request_id@,
            request@,
            rate_limited,
            match answers.device {
                Some(device) => Some(option_view(device)),
                None => None,
            },
            answers.principal_within,
            answers.device_within,
            answers.supported,
            answer_view(answers.begun),
            answers.delivered,
            answers.answer,
            answers.readable,
        ),
{
    let device = match &answers.device {
        None => return OpenStep::Ask(OpenQuestion::Device(device_id)),
        Some(None) => return refuse(ApiError::not_found()),
        Some(Some(device)) => device,
    };
    // A device that is not owned, does not exist or has been revoked answers alike: any
    // other answer would confirm that it exists to somebody who may not know.
    if !text::same(device.identity_id.as_str(), auth.identity_id.as_str())
        || device.revoked_at.is_some() || !device.role.may_publish() {
        return refuse(ApiError::not_found());
    }
    if rate_limited {
        match answers.principal_within {
            None => return OpenStep::Ask(
                OpenQuestion::PrincipalWithinLimit(auth.principal_id.as_str().to_owned()),
            ),
            Some(false) => return refuse_as(ApiError::rate_limited(60), OpenCount::Refused),
            Some(true) => {},
        }
        match answers.device_within {
            None => return OpenStep::Ask(
                OpenQuestion::DeviceWithinLimit(device.device_id.to_text()),
            ),
            Some(false) => return refuse_as(ApiError::rate_limited(60), OpenCount::Refused),
            Some(true) => {},
        }
    }
    match answers.supported {
        None => return OpenStep::Ask(OpenQuestion::Supported(device.device_id)),
        Some(false) => return refuse_as(
            ApiError::publisher_unavailable(
                "that device is not currently accepting terminal-open requests",
            ),
            OpenCount::Unavailable,
        ),
        Some(true) => {},
    }
    match &answers.begun {
        None => OpenStep::Ask(OpenQuestion::Begin(request_id.to_owned())),
        Some(Err(error)) => refuse(error.copy()),
        Some(Ok(begun)) => {
            let delivery = Delivery {
                device_id: device.device_id,
                request_id: request_id.to_owned(),
                label: text::copy_option(&request.label),
                cols: request.cols,
                rows: request.rows,
            };
            wait_for_answer(delivery, *begun, answers.delivered, &answers.answer, answers.readable)
        },
    }
}

/// Asks a device's connected publisher to open a terminal. The terminal comes into
/// existence only through the publisher's ordinary open.
pub fn create_for_device(
    auth: &Auth,
    device_id: Uuid,
    settings: &OpenSettings,
    key: &Option<String>,
    request: &ApiResult<CreateTerminalRequest>,
    answers: &OpenAnswers,
) -> (step: OpenStep)
    ensures
        step@ == (match open_front(
            auth@,
            device_id,
            settings.enabled,
            key is Some,
            answer_view(answers.remembered),
            outcome(*request),
            settings.max_label_bytes,
        ) {
            Some(step) => step,
            None => asked_device(
                auth@,
                device_id,
                open_request_id(auth@.identity_id, device_id, option_view(*key)->0),
                outcome(*request)->Ok_0,
                settings.rate_limited,
                match answers.device {
                    Some(device) => Some(option_view(device)),
                    None => None,
                },
                answers.principal_within,
                answers.device_within,
                answers.supported,
                answer_view(answers.begun),
                answers.delivered,
                answers.answer,
                answers.readable,
            ),
        }),
{
    match front(auth, device_id, settings, key.is_some(), &answers.remembered, request) {
        Some(step) => return step,
        None => {},
    }
    match (key, request) {
        (Some(key), Ok(request)) => {
            let subject = Subject::opening(auth.identity_id.as_str(), device_id);
            let request_id = key_hash(
                subject.scope.as_str(),
                subject.method.as_str(),
                subject.path.as_str(),
                key.as_str(),
            );
            ask_device(
                auth,
                device_id,
                request_id.as_str(),
                request,
                settings.rate_limited,
                answers,
            )
        },
        _ => {
            assert(false);
            refuse(ApiError::not_found())
        },
    }
}

/// The status of a response to an opened terminal: one that was open already is not new.
pub fn opened_status(deduplicated: bool) -> (status: u16)
    ensures
        status == (if deduplicated {
            200u16
        } else {
            201u16
        }),
{
    if deduplicated {
        200
    } else {
        201
    }
}

/// Where an opened terminal is to be found.
pub fn location(terminal_id: Uuid) -> (path: String)
    ensures
        path@ == "/v1/terminals/"@ + uuid_text(terminal_id.value),
{
    "/v1/terminals/".to_owned().concat(terminal_id.to_text().as_str())
}

/// A retry never makes a second terminal: a request that joins one on its way is never
/// delivered again, and ends nothing that it did not begin.
pub proof fn law_joined_requests_are_not_delivered_again(
    delivery: Delivery<Seq<char>>,
    delivered: Option<bool>,
    answer: Option<OpenOutcome>,
    readable: Option<bool>,
)
    ensures
        ({
            let step = waited(delivery, BeginOpen::Joined, delivered, answer, readable);
            &&& step matches OpenStepModel::Ask(question) ==> !(question is Deliver)
            &&& step matches OpenStepModel::Refuse { error, pending, counted } ==> pending
                == Pending::Stays
            &&& step matches OpenStepModel::Opened { terminal_id, deduplicated, pending }
                ==> pending == Pending::Stays
        }),
{
}

/// Nobody learns of a device that is not theirs: asking it for a terminal is answered like
/// asking one that does not exist.
pub proof fn law_foreign_devices_are_not_found(
    auth: Auth<Seq<char>, Seq<Seq<char>>>,
    request_id: Seq<char>,
    request: CreateTerminalRequest<Seq<char>>,
    rate_limited: bool,
    device: Device<Seq<char>, Seq<u8>>,
    answers: OpenAnswers,
)
    requires
        device.identity_id != auth.identity_id,
    ensures
        asked_device(
            auth,
            device.device_id,
            request_id,
            request,
            rate_limited,
            Some(Some(device)),
            answers.principal_within,
            answers.device_within,
            answers.supported,
            answer_view(answers.begun),
            answers.delivered,
            answers.answer,
            answers.readable,
        ) == OpenStepModel::refused(Refusal::not_found()),
        asked_device(
            auth,
            device.device_id,
            request_id,
            request,
            rate_limited,
            Some(None),
            answers.principal_within,
            answers.device_within,
            answers.supported,
            answer_view(answers.begun),
            answers.delivered,
            answers.answer,
            answers.readable,
        ) == OpenStepModel::refused(Refusal::not_found()),
{
}

/// A request that was not answered in time is left pending: its answer may still come,
/// and a retry under the same key joins it rather than asking again.
pub proof fn law_unanswered_requests_stay_pending(
    delivery: Delivery<Seq<char>>,
    begun: BeginOpen,
)
    ensures
        waited(delivery, begun, Some(true), Some(OpenOutcome::TimedOut), None) matches
            OpenStepModel::Refuse { error, pending, counted } && pending == Pending::Stays && error.status
            == 504,
{
}

} // verus!
