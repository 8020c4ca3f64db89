//! What can be counted on of the connection to the relay.

use crate::ids::{uuid_value, Uuid};
use crate::json::reading::{has_member, has_no_member, has_number, has_text};
use crate::publisher::backoff::delay_before;
use crate::publisher::protocol::{frame_bytes, Limits as Announced, ServerMessage};
use crate::publisher::publish::frames;
use crate::publisher::session::messages::law_announced_terminals_read_back;
use crate::publisher::session::routing::{
    is_called, is_known_as, is_nearest_size, law_only_durable_output_is_acknowledged,
    law_requests_are_passed_on_as_made,
};
use crate::publisher::session::{
    actions_view, apply_limits, busy, check_subprotocol, index_of_id, index_of_ref,
    law_sweep_spares_the_living, lemma_index_of_id, lemma_index_of_ref, list_open, may_accept,
    on_greeting, retry_delay_ms, Action, Control, Event, Frame, Greeting, Handed, Limits,
    Multiplexer, MuxState, Outbound, SessionError, TerminalSink, Verdict,
};
use crate::text::{option_view, texts};
use vstd::prelude::*;

verus! {

/// An acknowledgement that arrives is handed to the owner of the terminal that it names,
/// with the offset that the relay has committed.
pub proof fn law_acknowledgements_reach_their_owner(
    i: int,
    terminal_id: Uuid,
    durable_offset: u64,
    next_offset: u64,
    limits: Limits,
    allow: bool,
    result: (Vec<Action>, Verdict<String>),
)
    ensures
        forall|mux: &mut Multiplexer| #[trigger]
            call_ensures(
                Multiplexer::on_frame,
                (
                    mux,
                    Frame::Text(
                        Some(ServerMessage::OutputAck { terminal_id, durable_offset, next_offset }),
                    ),
                    limits,
                    allow,
                ),
                result,
            ) && mux.wf() && is_known_as(mux@, i, terminal_id) ==> {
                &&& final(mux)@ == mux@
                &&& result.0@.len() == 1
                &&& result.0@[0] matches Action::Deliver {
                    local_ref,
                    event: Event::Ack { durable_offset: told },
                } && told == durable_offset && local_ref@ == mux@.terminals[i].local_ref
                &&& result.1 is Ok
            },
{
    assert forall|mux: &mut Multiplexer| #[trigger]
        call_ensures(
            Multiplexer::on_frame,
            (
                mux,
                Frame::Text(
                    Some(ServerMessage::OutputAck { terminal_id, durable_offset, next_offset }),
                ),
                limits,
                allow,
            ),
            result,
        ) && mux.wf() && is_known_as(mux@, i, terminal_id) implies {
        &&& final(mux)@ == mux@
        &&& result.0@.len() == 1
        &&& result.0@[0] matches Action::Deliver {
            local_ref,
            event: Event::Ack { durable_offset: told },
        } && told == durable_offset && local_ref@ == mux@.terminals[i].local_ref
        &&& result.1 is Ok
    } by {
        law_only_durable_output_is_acknowledged(
            mux@,
            i,
            terminal_id,
            durable_offset,
            next_offset,
            limits,
            allow,
        );
        let list = actions_view(result.0@);
        assert(list.len() == result.0@.len());
        assert(list[0] == result.0@[0]@);
        if let Action::Deliver { local_ref, event } = result.0@[0] {
            let shown = event@;
        }
    }
}

/// A request for a terminal that arrives is handed on as it was made.
pub proof fn law_requests_reach_whoever_hosts(
    request_id: String,
    label: Option<String>,
    cols: Option<u32>,
    rows: Option<u32>,
    limits: Limits,
    result: (Vec<Action>, Verdict<String>),
)
    ensures
        forall|mux: &mut Multiplexer| #[trigger]
            call_ensures(
                Multiplexer::on_frame,
                (
                    mux,
                    Frame::Text(
                        Some(ServerMessage::TerminalOpenRequest { request_id, label, cols, rows }),
                    ),
                    limits,
                    true,
                ),
                result,
            ) && mux.wf() && mux@.listening ==> {
                &&& final(mux)@ == mux@
                &&& result.0@.len() == 1
                &&& result.0@[0] matches Action::Forward(request) && {
                    &&& request.request_id@ == request_id@
                    &&& option_view(request.label) == option_view(label)
                    &&& request.cols is Some <==> cols is Some
                    &&& request.rows is Some <==> rows is Some
                    &&& cols is Some ==> is_nearest_size(cols->0, request.cols->0)
                    &&& rows is Some ==> is_nearest_size(rows->0, request.rows->0)
                }
            },
{
    assert forall|mux: &mut Multiplexer| #[trigger]
        call_ensures(
            Multiplexer::on_frame,
            (
                mux,
                Frame::Text(
                    Some(ServerMessage::TerminalOpenRequest { request_id, label, cols, rows }),
                ),
                limits,
                true,
            ),
            result,
        ) && mux.wf() && mux@.listening implies {
        &&& final(mux)@ == mux@
        &&& result.0@.len() == 1
        &&& result.0@[0] matches Action::Forward(request) && {
            &&& request.request_id@ == request_id@
            &&& option_view(request.label) == option_view(label)
            &&& request.cols is Some <==> cols is Some
            &&& request.rows is Some <==> rows is Some
            &&& cols is Some ==> is_nearest_size(cols->0, request.cols->0)
            &&& rows is Some ==> is_nearest_size(rows->0, request.rows->0)
        }
    } by {
        law_requests_are_passed_on_as_made(
            mux@,
            request_id@,
            option_view(label),
            cols,
            rows,
            limits,
            true,
        );
        let list = actions_view(result.0@);
        assert(list.len() == result.0@.len());
        assert(list[0] == result.0@[0]@);
        if let Action::Forward(request) = result.0@[0] {
            let shown = request@;
        }
    }
}

/// The message that announces a terminal says what the terminal is.
pub proof fn law_announcements_say_what_the_terminal_is(message: Outbound, text: Option<String>)
    requires
        message is Open,
        call_ensures(Outbound::to_json, (&message,), text),
    ensures
        text is Some,
        message matches Outbound::Open {
            request_id,
            local_ref,
            label,
            cols,
            rows,
            term,
            in_reply_to,
        } ==> {
            let json = (text->0)@;
            &&& has_text(json, "type"@, "terminal.open"@)
            &&& has_number(json, "cols"@, cols as nat)
            &&& has_number(json, "rows"@, rows as nat)
            &&& has_text(json, "label"@, label@)
            &&& has_text(json, "local_ref"@, local_ref@)
            &&& has_text(json, "request_id"@, request_id@)
            &&& has_text(json, "term"@, term@)
            &&& has_member(json, "accepts_input"@, "true"@)
            &&& in_reply_to is Some ==> has_text(json, "in_reply_to"@, (in_reply_to->0)@)
            &&& in_reply_to is None ==> has_no_member(json, "in_reply_to"@)
        },
{
    if let Outbound::Open { request_id, local_ref, label, cols, rows, term, in_reply_to } = message {
        law_announced_terminals_read_back(
            request_id@,
            local_ref@,
            label@,
            cols,
            rows,
            term@,
            option_view(in_reply_to),
        );
        let shown = message@;
    }
}

/// Output of an attached terminal goes to the relay in frames of that terminal: each as
/// large as it may be but for the last, each beginning where the one before it ended, and
/// all of them together the output. Output of a terminal that the relay does not know yet
/// is not sent.
pub proof fn law_output_goes_out_under_its_terminal(
    state: MuxState,
    i: int,
    local_ref: Seq<char>,
    start: u64,
    bytes: Seq<u8>,
    limits: Limits,
    max_terminals: u64,
    k: int,
)
    requires
        is_called(state, i, local_ref),
        limits.max_output_frame_bytes > 0,
        start + bytes.len() <= u64::MAX,
        bytes.len() > 0,
        0 <= k,
        k * limits.max_output_frame_bytes < bytes.len(),
    ensures
        ({
            let size = limits.max_output_frame_bytes as int;
            let control = Control::Output { local_ref, start_offset: start, bytes };
            let reaction = state.controlled(control, limits, max_terminals);
            let end = if (k + 1) * size <= bytes.len() {
                (k + 1) * size
            } else {
                bytes.len() as int
            };
            &&& reaction.state == state
            &&& state.terminals[i].terminal_id is None ==> reaction.actions.len() == 0
            &&& state.terminals[i].terminal_id matches Some(id) ==> {
                &&& k < reaction.actions.len()
                &&& reaction.actions[k] == Action::<Seq<char>, Seq<u8>>::Send(
                    Outbound::Frame(
                        frame_bytes(
                            1,
                            id,
                            (start + k * size) as u64,
                            bytes.subrange(k * size, end),
                        ),
                    ),
                )
            }
        }),
{
    lemma_index_of_ref(state.terminals, local_ref);
    assert(state.terminals[i].local_ref == local_ref);
    assert(index_of_ref(state.terminals, local_ref) == Some(i));
    lemma_frame_at(start as nat, bytes, limits.max_output_frame_bytes as nat, k);
}

proof fn lemma_frame_at(start: nat, bytes: Seq<u8>, size: nat, k: int)
    requires
        size > 0,
        start + bytes.len() <= u64::MAX,
        0 <= k,
        k * size < bytes.len(),
    ensures
        k < frames(start, bytes, size).len(),
        ({
            let end = if (k + 1) * size <= bytes.len() {
                (k + 1) * size
            } else {
                bytes.len() as int
            };
            frames(start, bytes, size)[k] == crate::publisher::publish::Request::<
                Seq<char>,
                Seq<u8>,
            >::Output { start_offset: (start + k * size) as u64, bytes: bytes.subrange(k * size, end) }
        }),
    decreases k,
{
    if bytes.len() <= size {
        assert(k == 0) by (nonlinear_arith)
            requires
                0 <= k,
                k * size < bytes.len(),
                bytes.len() <= size,
        ;
        assert(bytes.subrange(0, bytes.len() as int) =~= bytes);
        assert(k * size == 0);
    } else if k == 0 {
        assert(bytes.take(size as int) =~= bytes.subrange(0, size as int));
        assert(k * size == 0);
    } else {
        let rest = bytes.skip(size as int);
        assert((k - 1) * size == k * size - size) by (nonlinear_arith);
        assert((k + 1) * size == k * size + size) by (nonlinear_arith);
        lemma_frame_at(start + size, rest, size, k - 1);
        let end = if (k + 1) * size <= bytes.len() {
            (k + 1) * size
        } else {
            bytes.len() as int
        };
        assert(k * size <= rest.len() <==> (k + 1) * size <= bytes.len());
        assert(rest.subrange((k - 1) * size, end - size) =~= bytes.subrange(k * size, end));
        assert(frames(start, bytes, size)[k] == frames(start + size, rest, size)[k - 1]);
    }
}

/// Reconnecting waits half a second at first, twice as long each time, and never longer
/// than half a minute.
pub proof fn law_reconnecting_waits_longer_each_time(
    attempt: u32,
    first: u64,
    delay: u64,
    next: u64,
)
    requires
        attempt < u32::MAX,
        call_ensures(retry_delay_ms, (0,), first),
        call_ensures(retry_delay_ms, (attempt,), delay),
        call_ensures(retry_delay_ms, ((attempt + 1) as u32,), next),
    ensures
        first == 500,
        2 * delay <= 30_000 ==> next == 2 * delay,
        2 * delay > 30_000 ==> next == 30_000,
{
    assert(delay_before(500, (attempt + 1) as nat) == next);
}

/// Local requests are taken while the queue has places beyond those that are kept for
/// answers.
pub proof fn law_answers_always_have_room(accepting: bool, capacity: usize, may: bool)
    requires
        call_ensures(may_accept, (accepting, capacity), may),
    ensures
        may <==> accepting && capacity > 32,
{
}

/// A connection begins when the relay says that it is ready, with the limits that it
/// states, and ends before it begins when the relay says why not.
pub proof fn law_connections_begin_when_ready(message: Option<ServerMessage>, greeting: Greeting)
    requires
        call_ensures(on_greeting, (&message,), greeting),
    ensures
        message matches Some(ServerMessage::Ready { connection_id, limits }) ==> (
        greeting matches Greeting::Ready(told) && told == limits),
        (message matches Some(ServerMessage::Ready { .. })) <==> greeting is Ready,
        (message matches Some(ServerMessage::Error { .. })) <==> greeting is Refused,
        message matches Some(ServerMessage::Error { code, message: words, .. }) ==> (
        greeting matches Greeting::Refused(SessionError::Refused(told)) && told@ == code@ + ": "@
            + words@),
{
    if let Some(message) = message {
        let shown = message@;
    }
    if let Greeting::Refused(error) = greeting {
        let shown = error@;
    }
}

/// Only the version that carries input will do.
pub proof fn law_input_needs_its_version(negotiated: &str, refusal: Option<SessionError>)
    requires
        call_ensures(check_subprotocol, (negotiated,), refusal),
    ensures
        refusal is None <==> negotiated@ == "terminal-relay.publisher.v2"@,
{
}

/// What the relay announces is applied, but never less than what always works; and no
/// limit on terminals means none.
pub proof fn law_announcements_are_applied(limits: Announced, result: (Limits, u64))
    requires
        call_ensures(apply_limits, (limits,), result),
    ensures
        limits.max_output_frame_bytes >= 1024 ==> result.0.max_output_frame_bytes
            == limits.max_output_frame_bytes,
        limits.max_output_frame_bytes < 1024 ==> result.0.max_output_frame_bytes == 1024,
        limits.max_unacked_output_bytes >= 65536 ==> result.0.max_unacked_output_bytes
            == limits.max_unacked_output_bytes,
        limits.max_unacked_output_bytes < 65536 ==> result.0.max_unacked_output_bytes == 65536,
        limits.max_active_terminals > 0 ==> result.1 == limits.max_active_terminals,
        limits.max_active_terminals == 0 ==> result.1 == u64::MAX,
{
}

/// A request that cannot be taken is answered as such, under its own ID.
pub proof fn law_busy_machines_say_so(request_id: &str, action: Action)
    requires
        call_ensures(busy, (request_id,), action),
    ensures
        action matches Action::Send(Outbound::OpenDeclined { in_reply_to, reason }) && in_reply_to@
            == request_id@ && reason@ == "busy"@,
{
    let shown = action@;
    if let Action::Send(message) = action {
        let told = message@;
    }
}

proof fn lemma_ids_among(list: Seq<Seq<char>>, i: int)
    requires
        0 <= i < list.len(),
        uuid_value(list[i]) is Some,
    ensures
        crate::publisher::session::ids_among(list).contains(Uuid { value: uuid_value(list[i])->0 }),
    decreases list.len(),
{
    let all = crate::publisher::session::ids_among(list);
    let id = Uuid { value: uuid_value(list[i])->0 };
    if i == list.len() - 1 {
        assert(all.last() == id);
    } else {
        let front = crate::publisher::session::ids_among(list.drop_last());
        lemma_ids_among(list.drop_last(), i);
        let k = choose|k: int| 0 <= k < front.len() && front[k] == id;
        assert(all[k] == id);
    }
}

proof fn lemma_ids_come_from(list: Seq<Seq<char>>, k: int) -> (i: int)
    requires
        0 <= k < crate::publisher::session::ids_among(list).len(),
    ensures
        0 <= i < list.len(),
        uuid_value(list[i]) == Some(crate::publisher::session::ids_among(list)[k].value),
    decreases list.len(),
{
    let front = crate::publisher::session::ids_among(list.drop_last());
    if k < front.len() {
        lemma_ids_come_from(list.drop_last(), k)
    } else {
        list.len() - 1
    }
}

/// Every ID that the relay lists is found, and nothing else is.
pub proof fn law_listed_terminals_are_found(listed: Vec<String>, ids: Vec<Uuid>)
    requires
        call_ensures(list_open, (&listed,), ids),
    ensures
        forall|i: int|
            0 <= i < listed@.len() && uuid_value((#[trigger] listed@[i])@) is Some
                ==> ids@.contains(Uuid { value: uuid_value(listed@[i]@)->0 }),
        forall|k: int|
            0 <= k < ids@.len() ==> exists|i: int|
                0 <= i < listed@.len() && uuid_value((#[trigger] listed@[i])@) == Some(
                    (#[trigger] ids@[k]).value,
                ),
{
    let list = texts(listed@);
    assert forall|i: int|
        0 <= i < listed@.len() && uuid_value((#[trigger] listed@[i])@) is Some implies ids@.contains(
        Uuid { value: uuid_value(listed@[i]@)->0 },
    ) by {
        assert(list[i] == listed@[i]@);
        lemma_ids_among(list, i);
    }
    assert forall|k: int| 0 <= k < ids@.len() implies exists|i: int|
        0 <= i < listed@.len() && uuid_value((#[trigger] listed@[i])@) == Some(
            (#[trigger] ids@[k]).value,
        ) by {
        let i = lemma_ids_come_from(list, k);
        assert(list[i] == listed@[i]@);
    }
}

/// A terminal's owner publishes, resizes and closes that terminal and no other, and nothing
/// after it was closed.
pub proof fn law_sinks_speak_for_one_terminal(
    name: String,
    sink: TerminalSink,
    start: u64,
    bytes: Vec<u8>,
    cols: u16,
    rows: u16,
    output: Handed,
    size: Handed,
    close: Option<Control>,
)
    requires
        call_ensures(TerminalSink::new, (name,), sink),
        call_ensures(TerminalSink::publish, (&sink, start, bytes), output),
        call_ensures(TerminalSink::resize, (&sink, cols, rows), size),
    ensures
        bytes@.len() > 0 ==> (output matches Handed::Send(
            Control::Output { local_ref, start_offset, bytes: sent },
        ) && local_ref@ == name@ && start_offset == start && sent@ == bytes@),
        bytes@.len() == 0 ==> output is Nothing,
        size matches Handed::Send(Control::Resize { local_ref, cols: wide, rows: high })
            && local_ref@ == name@ && wide == cols && high == rows,
        forall|s: &mut TerminalSink| #[trigger]
            call_ensures(TerminalSink::begin_shutdown, (s,), close) && s@ == sink@ ==> {
                &&& close matches Some(Control::Close { local_ref, reason }) && local_ref@ == name@
                    && reason@ == "process_exited"@
                &&& !final(s)@.open
            },
{
    let shown = output@;
    let told = size@;
    if let Handed::Send(control) = output {
        let inner = control@;
    }
    if let Handed::Send(control) = size {
        let inner = control@;
    }
    assert forall|s: &mut TerminalSink| #[trigger]
        call_ensures(TerminalSink::begin_shutdown, (s,), close) && s@ == sink@ implies {
        &&& close matches Some(Control::Close { local_ref, reason }) && local_ref@ == name@
            && reason@ == "process_exited"@
        &&& !final(s)@.open
    } by {
        if let Some(control) = close {
            let inner = control@;
        }
    }
}

/// What a multiplexer hosts is told as it is: how many terminals, under which references,
/// and which of them the relay calls what.
pub proof fn law_hosted_terminals_are_told_of(
    mux: Multiplexer,
    local_ref: &str,
    terminal_id: Uuid,
    count: usize,
    idle: bool,
    hosts: bool,
    named: Option<String>,
    accepting: bool,
    reason: Option<&'static str>,
)
    requires
        call_ensures(Multiplexer::count, (&mux,), count),
        call_ensures(Multiplexer::idle, (&mux,), idle),
        call_ensures(Multiplexer::hosts, (&mux, local_ref), hosts),
        call_ensures(Multiplexer::local_ref_of, (&mux, terminal_id), named),
        call_ensures(Multiplexer::over, (&mux, accepting), reason),
    ensures
        count == mux@.terminals.len(),
        idle <==> mux@.terminals.len() == 0,
        hosts <==> exists|i: int|
            0 <= i < mux@.terminals.len() && (#[trigger] mux@.terminals[i]).local_ref
                == local_ref@,
        named is Some ==> exists|i: int|
            0 <= i < mux@.terminals.len() && (#[trigger] mux@.terminals[i]).terminal_id == Some(
                terminal_id,
            ) && mux@.terminals[i].local_ref == (named->0)@,
        named is None ==> forall|i: int|
            0 <= i < mux@.terminals.len() ==> (#[trigger] mux@.terminals[i]).terminal_id != Some(
                terminal_id,
            ),
        reason is Some <==> mux@.terminals.len() == 0 && !accepting,
        reason is Some ==> (reason->0)@ == "the last terminal ended"@,
{
    lemma_index_of_ref(mux@.terminals, local_ref@);
    lemma_index_of_id(mux@.terminals, terminal_id);
    if index_of_ref(mux@.terminals, local_ref@) is Some {
        let i = index_of_ref(mux@.terminals, local_ref@)->0;
        assert(mux@.terminals[i].local_ref == local_ref@);
    }
    if index_of_id(mux@.terminals, terminal_id) is Some {
        let i = index_of_id(mux@.terminals, terminal_id)->0;
        assert(mux@.terminals[i].terminal_id == Some(terminal_id));
    }
}

/// A terminal whose owner does not keep up is finished for that reason, and no other is.
pub proof fn law_unresponsive_terminals_are_finished(local_ref: &str, i: int)
    ensures
        forall|mux: &mut Multiplexer| #[trigger]
            call_ensures(Multiplexer::unresponsive, (mux, local_ref), ()) && mux.wf() ==> {
                &&& final(mux)@.terminals.len() == mux@.terminals.len()
                &&& is_called(mux@, i, local_ref@) && mux@.terminals[i].closing is None ==> final(
                    mux)@.terminals[i].closing == Some("publisher_unresponsive"@)
                &&& 0 <= i < mux@.terminals.len() && mux@.terminals[i].local_ref != local_ref@
                    ==> final(mux)@.terminals[i] == mux@.terminals[i]
            },
{
    assert forall|mux: &mut Multiplexer| #[trigger]
        call_ensures(Multiplexer::unresponsive, (mux, local_ref), ()) && mux.wf() implies {
        &&& final(mux)@.terminals.len() == mux@.terminals.len()
        &&& is_called(mux@, i, local_ref@) && mux@.terminals[i].closing is None ==> final(
            mux)@.terminals[i].closing == Some("publisher_unresponsive"@)
        &&& 0 <= i < mux@.terminals.len() && mux@.terminals[i].local_ref != local_ref@ ==> final(
            mux)@.terminals[i] == mux@.terminals[i]
    } by {
        lemma_index_of_ref(mux@.terminals, local_ref@);
        if is_called(mux@, i, local_ref@) {
            assert(mux@.terminals[i].local_ref == local_ref@);
        }
    }
}

/// A new connection closes what an earlier one left open, and spares what it opened itself.
pub proof fn law_orphans_are_closed(
    mux: Multiplexer,
    open: &[Uuid],
    id: Uuid,
    actions: Vec<Action>,
)
    requires
        call_ensures(Multiplexer::sweep_orphans, (&mux, open), actions),
    ensures
        actions_view(actions@).contains(
            Action::Send(Outbound::Close { terminal_id: id, reason: "publisher_replaced"@ }),
        ) <==> open@.contains(id) && !mux@.opened.contains(id),
{
    law_sweep_spares_the_living(open@, mux@.opened, id);
}

/// Why a connection ended is told in words that say whose decision it was.
pub proof fn law_session_errors_are_told(error: SessionError, words: String)
    requires
        call_ensures(SessionError::to_text, (&error,), words),
    ensures
        (error matches SessionError::Connect(text) ==> words@ == text@),
        (error matches SessionError::Refused(text) ==> words@
            == "the relay refused the publisher connection: "@ + text@),
        (error matches SessionError::Closed(text) ==> words@
            == "the relay closed the connection: "@ + text@),
        (error matches SessionError::Api(text) ==> words@ == text@),
{
    let shown = error@;
}

} // verus!
