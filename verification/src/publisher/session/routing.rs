//! What becomes of everything that the relay and the terminals' owners say: whom it
//! reaches, and what it tells them.

use crate::ids::Uuid;
use crate::publisher::protocol;
use crate::publisher::protocol::{
    frame_bytes, law_frames_round_trip, ServerMessage, FRAME_TYPE_INPUT,
};
use crate::publisher::session::{
    applied, closings, index_of_id, index_of_ref, lemma_index_of_id, lemma_index_of_ref, unfinished,
    unmarked, websocket_address, Action, Control, Event, Frame, Handed, Hosted, Limits, MuxState,
    Outbound, Reaction, SessionError, Sink, TerminalSpec, Verdict,
};
use crate::text::without_trailing;
use vstd::prelude::*;

verus! {

/// The terminal at `i` is the one that the relay knows by this identifier.
pub open spec fn is_known_as(state: MuxState, i: int, id: Uuid) -> bool {
    &&& 0 <= i < state.terminals.len()
    &&& state.terminals[i].terminal_id == Some(id)
    &&& forall|j: int|
        0 <= j < state.terminals.len() && (#[trigger] state.terminals[j]).terminal_id == Some(id)
            ==> j == i
}

/// The terminal at `i` is the only one of this reference.
pub open spec fn is_called(state: MuxState, i: int, local_ref: Seq<char>) -> bool {
    &&& 0 <= i < state.terminals.len()
    &&& state.terminals[i].local_ref == local_ref
    &&& forall|j: int|
        0 <= j < state.terminals.len() && (#[trigger] state.terminals[j]).local_ref == local_ref
            ==> j == i
}

/// The relay knows no terminal by this identifier.
pub open spec fn is_unknown(state: MuxState, id: Uuid) -> bool {
    forall|j: int| 0 <= j < state.terminals.len() ==> (#[trigger] state.terminals[j]).terminal_id
        != Some(id)
}

proof fn lemma_known(state: MuxState, i: int, id: Uuid)
    requires
        is_known_as(state, i, id),
    ensures
        index_of_id(state.terminals, id) == Some(i),
{
    lemma_index_of_id(state.terminals, id);
    assert(state.terminals[i].terminal_id == Some(id));
}

proof fn lemma_called(state: MuxState, i: int, local_ref: Seq<char>)
    requires
        is_called(state, i, local_ref),
    ensures
        index_of_ref(state.terminals, local_ref) == Some(i),
{
    lemma_index_of_ref(state.terminals, local_ref);
    assert(state.terminals[i].local_ref == local_ref);
}

/// The one thing that is done.
pub open spec fn only(reaction: Reaction) -> Action<Seq<char>, Seq<u8>> {
    reaction.actions[0]
}

/// Nothing changes, and one thing is done.
pub open spec fn just_acts(state: MuxState, outcome: (Reaction, Verdict<Seq<char>>)) -> bool {
    &&& outcome.0.state == state
    &&& outcome.0.actions.len() == 1
    &&& outcome.1 == Ok::<Option<Seq<char>>, SessionError<Seq<char>>>(None)
}

/// Only what the relay has committed is reported as committed: an acknowledgement reaches
/// the terminal that it names with the durable offset, wherever the relay accepts the next
/// byte.
pub proof fn law_only_durable_output_is_acknowledged(
    state: MuxState,
    i: int,
    terminal_id: Uuid,
    durable_offset: u64,
    next_offset: u64,
    limits: Limits,
    allow: bool,
)
    requires
        is_known_as(state, i, terminal_id),
    ensures
        ({
            let outcome = state.received(
                Frame::Text(
                    Some(ServerMessage::OutputAck { terminal_id, durable_offset, next_offset }),
                ),
                limits,
                allow,
            );
            &&& just_acts(state, outcome)
            &&& only(outcome.0) == Action::<Seq<char>, Seq<u8>>::Deliver {
                local_ref: state.terminals[i].local_ref,
                event: Event::Ack { durable_offset },
            }
        }),
{
    lemma_known(state, i, terminal_id);
}

/// A size that a phone may ask for becomes a size that a terminal can have: it is kept
/// where it is one, and else brought to the nearest.
pub open spec fn is_nearest_size(asked: u32, size: u16) -> bool {
    &&& 1 <= size
    &&& 1 <= asked <= 65535 ==> size == asked
    &&& asked == 0 ==> size == 1
    &&& asked > 65535 ==> size == 65535
}

/// A request for a terminal is passed on as it was made, where its machine takes requests:
/// under its own identifier, with its own label or none, and with its own size or none.
/// Elsewhere it is answered with a refusal, and nothing is passed on.
pub proof fn law_requests_are_passed_on_as_made(
    state: MuxState,
    request_id: Seq<char>,
    label: Option<Seq<char>>,
    cols: Option<u32>,
    rows: Option<u32>,
    limits: Limits,
    allow: bool,
)
    ensures
        ({
            let outcome = state.received(
                Frame::Text(
                    Some(ServerMessage::TerminalOpenRequest { request_id, label, cols, rows }),
                ),
                limits,
                allow,
            );
            &&& just_acts(state, outcome)
            &&& allow && state.listening ==> {
                &&& only(outcome.0) matches Action::Forward(request) && request.request_id
                    == request_id && request.label == label && (request.cols is Some <==> cols is Some)
                    && (request.rows is Some <==> rows is Some) && (cols is Some ==> is_nearest_size(
                    cols->0,
                    request.cols->0,
                )) && (rows is Some ==> is_nearest_size(rows->0, request.rows->0))
            }
            &&& !allow || !state.listening ==> {
                &&& only(outcome.0) matches Action::Send(
                    Outbound::OpenDeclined { in_reply_to, reason },
                ) && in_reply_to == request_id && reason == (if !allow {
                    "not_permitted"@
                } else {
                    "unsupported"@
                })
            }
        }),
{
}

/// A size that a phone would like reaches the terminal that it names, columns as columns
/// and rows as rows.
pub proof fn law_wished_sizes_reach_their_terminal(
    state: MuxState,
    i: int,
    terminal_id: Uuid,
    cols: u32,
    rows: u32,
    limits: Limits,
    allow: bool,
)
    requires
        is_known_as(state, i, terminal_id),
    ensures
        ({
            let outcome = state.received(
                Frame::Text(Some(ServerMessage::TerminalResizeRequest { terminal_id, cols, rows })),
                limits,
                allow,
            );
            &&& just_acts(state, outcome)
            &&& only(outcome.0) matches Action::Deliver {
                local_ref,
                event: Event::ResizeRequest { cols: wide, rows: high },
            } && local_ref == state.terminals[i].local_ref && is_nearest_size(cols, wide)
                && is_nearest_size(rows, high)
        }),
{
    lemma_known(state, i, terminal_id);
}

/// Keystrokes reach the terminal that their frame names, byte for byte.
pub proof fn law_keystrokes_reach_their_terminal(
    state: MuxState,
    i: int,
    terminal_id: Uuid,
    sequence: u64,
    payload: Seq<u8>,
    limits: Limits,
    allow: bool,
)
    requires
        is_known_as(state, i, terminal_id),
    ensures
        ({
            let outcome = state.received(
                Frame::Binary(frame_bytes(2, terminal_id, sequence, payload)),
                limits,
                allow,
            );
            &&& just_acts(state, outcome)
            &&& only(outcome.0) matches Action::Deliver { local_ref, event } && local_ref
                == state.terminals[i].local_ref && event == Event::<Seq<char>, Seq<u8>>::Input(
                payload,
            )
        }),
{
    lemma_known(state, i, terminal_id);
    law_frames_round_trip(FRAME_TYPE_INPUT, 1, terminal_id, sequence, payload);
}

/// What names no terminal of this connection reaches none, and changes nothing.
pub proof fn law_strangers_are_not_reached(
    state: MuxState,
    terminal_id: Uuid,
    durable_offset: u64,
    next_offset: u64,
    cols: u32,
    rows: u32,
    sequence: u64,
    payload: Seq<u8>,
    reason: Seq<char>,
    limits: Limits,
    allow: bool,
)
    requires
        is_unknown(state, terminal_id),
    ensures
        ({
            let ack = ServerMessage::OutputAck { terminal_id, durable_offset, next_offset };
            let size = ServerMessage::TerminalResizeRequest { terminal_id, cols, rows };
            let closed = ServerMessage::TerminalClosed { terminal_id, reason };
            let input = frame_bytes(2, terminal_id, sequence, payload);
            let nothing = (
                Reaction { state, actions: Seq::empty() },
                Ok::<Option<Seq<char>>, SessionError<Seq<char>>>(None),
            );
            &&& state.received(Frame::Text(Some(ack)), limits, allow) == nothing
            &&& state.received(Frame::Text(Some(size)), limits, allow) == nothing
            &&& state.received(Frame::Text(Some(closed)), limits, allow) == nothing
            &&& state.received(Frame::Binary(input), limits, allow) == nothing
        }),
{
    lemma_index_of_id(state.terminals, terminal_id);
    law_frames_round_trip(FRAME_TYPE_INPUT, 1, terminal_id, sequence, payload);
}

/// A terminal that the relay has opened is known by the identifier that the relay gave it,
/// and its owner is told where its stream goes on; the other terminals stay as they are.
pub proof fn law_opened_terminals_are_attached(
    state: MuxState,
    i: int,
    request_id: Seq<char>,
    terminal_id: Uuid,
    next_offset: u64,
    durable_offset: u64,
    accepts_input: bool,
    limits: Limits,
    allow: bool,
)
    requires
        is_called(state, i, request_id),
    ensures
        ({
            let opened = ServerMessage::TerminalOpened {
                request_id,
                terminal_id,
                next_offset,
                durable_offset,
                accepts_input,
            };
            let (reaction, verdict) = state.received(Frame::Text(Some(opened)), limits, allow);
            &&& verdict == Ok::<Option<Seq<char>>, SessionError<Seq<char>>>(None)
            &&& reaction.actions.len() == 1
            &&& only(reaction) == Action::<Seq<char>, Seq<u8>>::Deliver {
                local_ref: request_id,
                event: Event::Attached { terminal_id, next_offset, limits },
            }
            &&& reaction.state.terminals.len() == state.terminals.len()
            &&& reaction.state.terminals[i].terminal_id == Some(terminal_id)
            &&& reaction.state.terminals[i] == (Hosted {
                terminal_id: Some(terminal_id),
                ..state.terminals[i]
            })
            &&& forall|j: int|
                0 <= j < state.terminals.len() && j != i ==> (#[trigger] reaction.state.terminals[j])
                    == state.terminals[j]
            &&& reaction.state.opened.contains(terminal_id)
            &&& forall|id: Uuid| #[trigger]
                state.opened.contains(id) ==> reaction.state.opened.contains(id)
        }),
{
    lemma_called(state, i, request_id);
    let opened = state.opened.push(terminal_id);
    assert(opened[state.opened.len() as int] == terminal_id);
    assert forall|id: Uuid| #[trigger] state.opened.contains(id) implies opened.contains(id) by {
        let k = state.opened.index_of(id);
        assert(opened[k] == id);
    }
}

/// A terminal that the relay has closed is gone, and its owner is told why; the others
/// stay.
pub proof fn law_closed_terminals_are_gone(
    state: MuxState,
    i: int,
    terminal_id: Uuid,
    reason: Seq<char>,
    limits: Limits,
    allow: bool,
)
    requires
        is_known_as(state, i, terminal_id),
    ensures
        ({
            let closed = ServerMessage::TerminalClosed { terminal_id, reason };
            let (reaction, verdict) = state.received(Frame::Text(Some(closed)), limits, allow);
            &&& verdict == Ok::<Option<Seq<char>>, SessionError<Seq<char>>>(None)
            &&& reaction.actions.len() == 1
            &&& only(reaction) == Action::<Seq<char>, Seq<u8>>::Offer {
                local_ref: state.terminals[i].local_ref,
                event: Event::Ended("the relay closed the terminal: "@ + reason),
            }
            &&& is_unknown(reaction.state, terminal_id)
            &&& reaction.state.terminals.len() == state.terminals.len() - 1
            &&& forall|j: int|
                0 <= j < state.terminals.len() && j != i ==> reaction.state.terminals.contains(
                    #[trigger] state.terminals[j],
                )
        }),
{
    lemma_known(state, i, terminal_id);
    let left = state.terminals.remove(i);
    assert forall|j: int| 0 <= j < left.len() implies (#[trigger] left[j]).terminal_id != Some(
        terminal_id,
    ) by {
        if j < i {
            assert(left[j] == state.terminals[j]);
        } else {
            assert(left[j] == state.terminals[j + 1]);
        }
    }
    assert forall|j: int| 0 <= j < state.terminals.len() && j != i implies left.contains(
        #[trigger] state.terminals[j],
    ) by {
        if j < i {
            assert(left[j] == state.terminals[j]);
        } else {
            assert(left[j - 1] == state.terminals[j]);
        }
    }
}

/// Every heartbeat is answered with the moment that it carried, and every ping of the
/// socket with its own bytes.
pub proof fn law_heartbeats_are_answered(
    state: MuxState,
    at_unix_ms: i64,
    bytes: Seq<u8>,
    limits: Limits,
    allow: bool,
)
    ensures
        ({
            let ping = state.received(
                Frame::Text(Some(ServerMessage::Ping { at_unix_ms })),
                limits,
                allow,
            );
            let socket = state.received(Frame::Ping(bytes), limits, allow);
            &&& just_acts(state, ping)
            &&& only(ping.0) == Action::<Seq<char>, Seq<u8>>::Send(Outbound::Pong { at_unix_ms })
            &&& just_acts(state, socket)
            &&& only(socket.0) == Action::<Seq<char>, Seq<u8>>::Send(Outbound::SocketPong(bytes))
        }),
{
}

/// A refused frame moves its terminal to where the relay is, and nothing else.
pub proof fn law_refused_frames_move_their_terminal(
    state: MuxState,
    i: int,
    terminal_id: Uuid,
    message: Seq<char>,
    request_id: Option<Seq<char>>,
    next_offset: u64,
    durable_offset: Option<u64>,
    limits: Limits,
    allow: bool,
)
    requires
        is_known_as(state, i, terminal_id),
    ensures
        ({
            let refused = ServerMessage::Error {
                code: "offset_mismatch"@,
                message,
                terminal_id: Some(terminal_id),
                request_id,
                next_offset: Some(next_offset),
                durable_offset,
            };
            let outcome = state.received(Frame::Text(Some(refused)), limits, allow);
            &&& just_acts(state, outcome)
            &&& only(outcome.0) == Action::<Seq<char>, Seq<u8>>::Offer {
                local_ref: state.terminals[i].local_ref,
                event: Event::Mismatch { next_offset },
            }
        }),
{
    lemma_known(state, i, terminal_id);
    reveal_strlit("offset_mismatch");
    reveal_strlit("superseded");
    assert("offset_mismatch"@.len() != "superseded"@.len());
}

/// Any other error ends its terminal alone: its owner is told what the relay said, the
/// relay is told to close what it opened, and the connection goes on.
pub proof fn law_errors_end_their_terminal(
    state: MuxState,
    i: int,
    terminal_id: Uuid,
    code: Seq<char>,
    message: Seq<char>,
    request_id: Option<Seq<char>>,
    next_offset: Option<u64>,
    durable_offset: Option<u64>,
    limits: Limits,
    allow: bool,
)
    requires
        is_known_as(state, i, terminal_id),
        code != "superseded"@,
        code != "offset_mismatch"@ || next_offset is None,
    ensures
        ({
            let refused = ServerMessage::Error {
                code,
                message,
                terminal_id: Some(terminal_id),
                request_id,
                next_offset,
                durable_offset,
            };
            let (reaction, verdict) = state.received(Frame::Text(Some(refused)), limits, allow);
            &&& verdict == Ok::<Option<Seq<char>>, SessionError<Seq<char>>>(None)
            &&& reaction.state.terminals == state.terminals.remove(i)
            &&& reaction.actions.contains(
                Action::Offer {
                    local_ref: state.terminals[i].local_ref,
                    event: Event::Ended(code + ": "@ + message),
                },
            )
            &&& reaction.actions.contains(
                Action::Send(Outbound::Close { terminal_id, reason: "publisher_error"@ }),
            )
            &&& reaction.actions.len() == 2
        }),
{
    lemma_known(state, i, terminal_id);
    let refused = ServerMessage::Error {
        code,
        message,
        terminal_id: Some(terminal_id),
        request_id,
        next_offset,
        durable_offset,
    };
    let actions = state.received(Frame::Text(Some(refused)), limits, allow).0.actions;
    assert(actions[1] == Action::<Seq<char>, Seq<u8>>::Offer {
        local_ref: state.terminals[i].local_ref,
        event: Event::Ended(code + ": "@ + message),
    });
    assert(actions[0] == Action::<Seq<char>, Seq<u8>>::Send(
        Outbound::Close { terminal_id, reason: "publisher_error"@ },
    ));
}

/// An error about no terminal ends the connection, as what the relay said; being
/// superseded ends it for good; and so does a socket that is closed.
pub proof fn law_what_ends_the_connection(
    state: MuxState,
    code: Seq<char>,
    message: Seq<char>,
    terminal_id: Option<Uuid>,
    request_id: Option<Seq<char>>,
    next_offset: Option<u64>,
    durable_offset: Option<u64>,
    limits: Limits,
    allow: bool,
)
    ensures
        ({
            let about_none = ServerMessage::Error {
                code,
                message,
                terminal_id: None,
                request_id: None,
                next_offset,
                durable_offset,
            };
            let superseded = ServerMessage::Error {
                code: "superseded"@,
                message,
                terminal_id,
                request_id,
                next_offset,
                durable_offset,
            };
            let (still, over) = state.received(Frame::Text(Some(superseded)), limits, allow);
            &&& code != "superseded"@ ==> state.received(Frame::Text(Some(about_none)), limits, allow)
                == (
                Reaction { state, actions: Seq::empty() },
                Err::<Option<Seq<char>>, SessionError<Seq<char>>>(
                    SessionError::Refused(code + ": "@ + message),
                ),
            )
            &&& still == (Reaction { state, actions: Seq::empty() })
            &&& over == Ok::<Option<Seq<char>>, SessionError<Seq<char>>>(
                Some(
                    "another publisher on this machine took over; only one may publish at a time"@,
                ),
            )
            &&& state.received(Frame::Close, limits, allow).1 is Err
        }),
{
}

/// What this side does not understand changes nothing.
pub proof fn law_the_unknown_is_ignored(
    state: MuxState,
    bytes: Seq<u8>,
    limits: Limits,
    allow: bool,
)
    requires
        bytes.len() < 25 || bytes[0] != 2,
    ensures
        ({
            let nothing = (
                Reaction { state, actions: Seq::empty() },
                Ok::<Option<Seq<char>>, SessionError<Seq<char>>>(None),
            );
            &&& state.received(Frame::Text(None), limits, allow) == nothing
            &&& state.received(Frame::Text(Some(ServerMessage::Unrecognised)), limits, allow)
                == nothing
            &&& state.received(Frame::Binary(bytes), limits, allow) == nothing
            &&& state.received(Frame::Other, limits, allow) == nothing
        }),
{
}

/// A terminal that joins is announced as it is, under a reference that nothing else here
/// uses, and only while there is room for it.
pub proof fn law_joining_terminals_are_announced(
    state: MuxState,
    spec: TerminalSpec<Seq<char>>,
    limits: Limits,
    max_terminals: u64,
)
    ensures
        ({
            let reaction = state.controlled(Control::Open(spec), limits, max_terminals);
            let taken = exists|j: int|
                0 <= j < state.terminals.len() && (#[trigger] state.terminals[j]).local_ref
                    == spec.local_ref;
            &&& reaction.actions.len() == 1
            &&& state.terminals.len() < max_terminals && !taken ==> {
                &&& only(reaction) == Action::<Seq<char>, Seq<u8>>::Send(
                    Outbound::Open {
                        request_id: spec.local_ref,
                        local_ref: spec.local_ref,
                        label: spec.label,
                        cols: spec.cols,
                        rows: spec.rows,
                        term: spec.term,
                        in_reply_to: spec.in_reply_to,
                    },
                )
                &&& reaction.state.terminals.len() == state.terminals.len() + 1
                &&& reaction.state.terminals.last().local_ref == spec.local_ref
                &&& reaction.state.terminals.last().label == spec.label
                &&& reaction.state.terminals.last().cols == spec.cols
                &&& reaction.state.terminals.last().rows == spec.rows
                &&& reaction.state.terminals.last().term == spec.term
                &&& reaction.state.terminals.last().terminal_id is None
                &&& reaction.state.terminals.last().closing is None
                &&& reaction.state.terminals.drop_last() == state.terminals
            }
            &&& state.terminals.len() >= max_terminals || taken ==> {
                &&& reaction.state == state
                &&& only(reaction) is RefuseOpen
            }
        }),
{
    lemma_index_of_ref(state.terminals, spec.local_ref);
    let joined = state.controlled(Control::Open(spec), limits, max_terminals).state.terminals;
    if joined.len() > state.terminals.len() {
        assert(joined.drop_last() =~= state.terminals);
    }
    if index_of_ref(state.terminals, spec.local_ref) is Some {
        let i = index_of_ref(state.terminals, spec.local_ref)->0;
        assert(state.terminals[i].local_ref == spec.local_ref);
    }
}

/// A size that a terminal's owner declares is kept, and told to the relay once the relay
/// knows the terminal; columns stay columns and rows stay rows.
pub proof fn law_declared_sizes_are_told(
    state: MuxState,
    i: int,
    local_ref: Seq<char>,
    cols: u16,
    rows: u16,
    limits: Limits,
    max_terminals: u64,
)
    requires
        is_called(state, i, local_ref),
    ensures
        ({
            let resize = Control::<Seq<char>, Seq<u8>>::Resize { local_ref, cols, rows };
            let reaction = state.controlled(resize, limits, max_terminals);
            let kept = Hosted { cols, rows, ..state.terminals[i] };
            &&& reaction.state.terminals == state.terminals.update(i, kept)
            &&& state.stashed(resize).state.terminals == state.terminals.update(i, kept)
            &&& state.stashed(resize).actions.len() == 0
            &&& match state.terminals[i].terminal_id {
                Some(terminal_id) => reaction.actions == seq![
                    Action::<Seq<char>, Seq<u8>>::Send(
                        Outbound::Resize { terminal_id, cols, rows },
                    ),
                ],
                None => reaction.actions.len() == 0,
            }
        }),
{
    lemma_called(state, i, local_ref);
}

/// A terminal whose owner has finished is closed at the relay for the reason that its owner
/// gave first, once the relay knows it, and then forgotten; its owner is told at once.
pub proof fn law_finished_terminals_are_closed_for_their_reason(
    state: MuxState,
    i: int,
    local_ref: Seq<char>,
    reason: Seq<char>,
    limits: Limits,
    max_terminals: u64,
)
    requires
        is_called(state, i, local_ref),
        state.terminals[i].closing is None,
    ensures
        ({
            let close = Control::<Seq<char>, Seq<u8>>::Close { local_ref, reason };
            let reaction = state.controlled(close, limits, max_terminals);
            let marked = Hosted { closing: Some(reason), ..state.terminals[i] };
            let ended = Event::<Seq<char>, Seq<u8>>::Ended("the terminal ended"@);
            &&& reaction.state.terminals == state.terminals.update(i, marked)
            &&& reaction.actions == seq![Action::Deliver { local_ref, event: ended }]
            &&& state.stashed(close).state.terminals == state.terminals.update(i, marked)
            &&& state.stashed(close).actions == seq![Action::Offer { local_ref, event: ended }]
            &&& state.terminals[i].terminal_id matches Some(terminal_id) ==> {
                &&& closings(seq![marked]) == seq![
                    Action::Send(Outbound::Close { terminal_id, reason }),
                    Action::Offer { local_ref, event: ended },
                ]
                &&& unfinished(seq![marked]).len() == 0
            }
            &&& state.terminals[i].terminal_id is None ==> {
                &&& closings(seq![marked]).len() == 0
                &&& unfinished(seq![marked]) == seq![marked]
            }
            &&& unmarked(seq![marked]).len() == 0
        }),
{
    lemma_called(state, i, local_ref);
    let marked = Hosted { closing: Some(reason), ..state.terminals[i] };
    let one = seq![marked];
    assert(one.drop_last() =~= Seq::empty());
    assert(one.last() == marked);
    reveal_with_fuel(closings, 2);
    reveal_with_fuel(unfinished, 2);
    reveal_with_fuel(unmarked, 2);
    assert(unfinished(one) =~= (if marked.terminal_id is Some {
        Seq::empty()
    } else {
        one
    }));
    if marked.terminal_id is Some {
        assert(closings(one) =~= seq![
            Action::Send(Outbound::Close { terminal_id: marked.terminal_id->0, reason }),
            Action::Offer { local_ref, event: Event::Ended("the terminal ended"@) },
        ]);
    }
}

/// Terminals are closed and forgotten one by one: what is done about a list is what is
/// done about its parts.
pub proof fn law_terminals_are_closed_one_by_one(
    front: Seq<Hosted<Seq<char>>>,
    back: Seq<Hosted<Seq<char>>>,
)
    ensures
        closings(front + back) == closings(front) + closings(back),
        unfinished(front + back) == unfinished(front) + unfinished(back),
        unmarked(front + back) == unmarked(front) + unmarked(back),
    decreases back.len(),
{
    let whole = front + back;
    if back.len() == 0 {
        assert(whole =~= front);
        assert(closings(whole) =~= closings(front) + closings(back));
        assert(unfinished(whole) =~= unfinished(front) + unfinished(back));
        assert(unmarked(whole) =~= unmarked(front) + unmarked(back));
    } else {
        law_terminals_are_closed_one_by_one(front, back.drop_last());
        assert(whole.drop_last() =~= front + back.drop_last());
        assert(whole.last() == back.last());
        assert(closings(whole) =~= closings(front) + closings(back));
        assert(unfinished(whole) =~= unfinished(front) + unfinished(back));
        assert(unmarked(whole) =~= unmarked(front) + unmarked(back));
    }
}

/// A refusal is sent for the request that it answers, with its reason; without a connection
/// there is nobody to send it to.
pub proof fn law_refusals_answer_their_request(
    state: MuxState,
    request_id: Seq<char>,
    reason: Seq<char>,
    limits: Limits,
    max_terminals: u64,
)
    ensures
        ({
            let decline = Control::<Seq<char>, Seq<u8>>::Decline { request_id, reason };
            let reaction = state.controlled(decline, limits, max_terminals);
            &&& reaction.state == state
            &&& reaction.actions == seq![
                Action::<Seq<char>, Seq<u8>>::Send(
                    Outbound::OpenDeclined { in_reply_to: request_id, reason },
                ),
            ]
            &&& state.stashed(decline) == (Reaction { state, actions: Seq::empty() })
        }),
{
}

/// Losing the connection forgets what the relay called the terminals and nothing else of
/// them, and tells every owner; a new connection announces every one of them again, in
/// order, as it is by then.
pub proof fn law_terminals_survive_the_connection(state: MuxState, i: int)
    requires
        0 <= i < state.terminals.len(),
    ensures
        ({
            let lost = state.disconnected();
            let again = state.reopened();
            let hosted = state.terminals[i];
            &&& lost.state.terminals.len() == state.terminals.len()
            &&& lost.state.terminals[i] == (Hosted { terminal_id: None, ..hosted })
            &&& lost.state.opened.len() == 0
            &&& lost.actions.len() == state.terminals.len()
            &&& lost.actions[i] == Action::<Seq<char>, Seq<u8>>::Offer {
                local_ref: hosted.local_ref,
                event: Event::Detached,
            }
            &&& again.state.terminals.len() == state.terminals.len()
            &&& again.state.terminals[i] == (Hosted { in_reply_to: None, ..hosted })
            &&& again.actions.len() == state.terminals.len()
            &&& again.actions[i] == Action::<Seq<char>, Seq<u8>>::Send(
                Outbound::Open {
                    request_id: hosted.local_ref,
                    local_ref: hosted.local_ref,
                    label: hosted.label,
                    cols: hosted.cols,
                    rows: hosted.rows,
                    term: hosted.term,
                    in_reply_to: hosted.in_reply_to,
                },
            )
        }),
{
}

/// When it is over, every owner is told the reason, and nothing is hosted any more.
pub proof fn law_every_owner_is_told_the_end(state: MuxState, reason: Seq<char>, i: int)
    requires
        0 <= i < state.terminals.len(),
    ensures
        state.ended(reason).state.terminals.len() == 0,
        state.ended(reason).actions.len() == state.terminals.len(),
        state.ended(reason).actions[i] == (Action::<Seq<char>, Seq<u8>>::Offer {
            local_ref: state.terminals[i].local_ref,
            event: Event::Ended(reason),
        }),
{
}

/// A terminal that joins without a connection waits for one as it is; one that takes the
/// place of another of its reference takes it whole.
pub proof fn law_terminals_wait_for_a_connection(state: MuxState, spec: TerminalSpec<Seq<char>>)
    ensures
        ({
            let reaction = state.stashed(Control::<Seq<char>, Seq<u8>>::Open(spec));
            let i = index_of_ref(reaction.state.terminals, spec.local_ref);
            &&& reaction.actions.len() == 0
            &&& i is Some
            &&& reaction.state.terminals[i->0] == (Hosted {
                local_ref: spec.local_ref,
                label: spec.label,
                cols: spec.cols,
                rows: spec.rows,
                term: spec.term,
                in_reply_to: spec.in_reply_to,
                terminal_id: None,
                closing: None,
            })
            &&& forall|j: int|
                0 <= j < state.terminals.len() && (#[trigger] state.terminals[j]).local_ref
                    != spec.local_ref ==> reaction.state.terminals[j] == state.terminals[j]
        }),
{
    let before = state.terminals;
    let after = state.stashed(Control::<Seq<char>, Seq<u8>>::Open(spec)).state.terminals;
    lemma_index_of_ref(before, spec.local_ref);
    lemma_index_of_ref(after, spec.local_ref);
    match index_of_ref(before, spec.local_ref) {
        Some(k) => {
            assert(after[k].local_ref == spec.local_ref);
            lemma_first_of_ref(before, spec.local_ref, k);
            assert forall|j: int| 0 <= j < k implies (#[trigger] after[j]).local_ref
                != spec.local_ref by {
                assert(after[j] == before[j]);
            }
            lemma_index_is_first(after, spec.local_ref, k);
        },
        None => {
            let k = before.len() as int;
            assert(after[k].local_ref == spec.local_ref);
            assert forall|j: int| 0 <= j < k implies (#[trigger] after[j]).local_ref
                != spec.local_ref by {
                assert(after[j] == before[j]);
            }
            lemma_index_is_first(after, spec.local_ref, k);
        },
    }
}

proof fn lemma_first_of_ref(list: Seq<Hosted<Seq<char>>>, local_ref: Seq<char>, k: int)
    requires
        index_of_ref(list, local_ref) == Some(k),
    ensures
        forall|j: int| 0 <= j < k ==> (#[trigger] list[j]).local_ref != local_ref,
    decreases list.len(),
{
    if list.len() > 0 {
        let shorter = list.drop_last();
        lemma_index_of_ref(shorter, local_ref);
        match index_of_ref(shorter, local_ref) {
            Some(i) => {
                lemma_first_of_ref(shorter, local_ref, k);
                assert forall|j: int| 0 <= j < k implies (#[trigger] list[j]).local_ref
                    != local_ref by {
                    assert(shorter[j] == list[j]);
                }
            },
            None => {
                assert forall|j: int| 0 <= j < k implies (#[trigger] list[j]).local_ref
                    != local_ref by {
                    assert(shorter[j] == list[j]);
                }
            },
        }
    }
}

proof fn lemma_index_is_first(list: Seq<Hosted<Seq<char>>>, local_ref: Seq<char>, k: int)
    requires
        0 <= k < list.len(),
        list[k].local_ref == local_ref,
        forall|j: int| 0 <= j < k ==> (#[trigger] list[j]).local_ref != local_ref,
    ensures
        index_of_ref(list, local_ref) == Some(k),
{
    lemma_index_of_ref(list, local_ref);
    let i = index_of_ref(list, local_ref)->0;
    assert(list[k].local_ref == local_ref);
    lemma_first_of_ref(list, local_ref, i);
}

/// What a terminal's owner publishes goes out as it is: the same bytes at the same offset,
/// for the same terminal; and so does a size.
pub proof fn law_owners_speak_for_their_terminal(
    sink: Sink,
    start_offset: u64,
    bytes: Seq<u8>,
    cols: u16,
    rows: u16,
)
    requires
        sink.open,
        bytes.len() > 0,
    ensures
        ({
            &&& sink.published(start_offset, bytes) == Handed::Send(
                Control::Output { local_ref: sink.local_ref, start_offset, bytes },
            )
            &&& sink.resized(cols, rows) == Handed::Send(
                Control::<Seq<char>, Seq<u8>>::Resize { local_ref: sink.local_ref, cols, rows },
            )
            &&& sink.farewell() == Some(
                Control::<Seq<char>, Seq<u8>>::Close {
                    local_ref: sink.local_ref,
                    reason: "process_exited"@,
                },
            )
        }),
{
}

/// What the relay announces applies as it is, unless it is below the smallest that the
/// relay can mean; no limit on terminals is none.
pub proof fn law_announced_limits_apply(limits: protocol::Limits)
    ensures
        ({
            let (these, terminals) = applied(limits);
            &&& limits.max_output_frame_bytes >= 1024 ==> these.max_output_frame_bytes
                == limits.max_output_frame_bytes
            &&& limits.max_unacked_output_bytes >= 65536 ==> these.max_unacked_output_bytes
                == limits.max_unacked_output_bytes
            &&& these.max_output_frame_bytes >= 1024
            &&& these.max_unacked_output_bytes >= 65536
            &&& limits.max_active_terminals > 0 ==> terminals == limits.max_active_terminals
            &&& limits.max_active_terminals == 0 ==> terminals == u64::MAX
        }),
{
}

/// A relay that is reached over TLS is published to over TLS, at the device's own path.
pub proof fn law_sockets_are_as_secure_as_the_relay(host: Seq<char>, device_id: Seq<char>)
    requires
        host.len() > 0,
        host.last() != '/',
    ensures
        websocket_address("https://"@ + host, device_id) == "wss://"@ + host + "/v1/devices/"@
            + device_id + "/relay"@,
        websocket_address("http://"@ + host, device_id) == "ws://"@ + host + "/v1/devices/"@
            + device_id + "/relay"@,
        websocket_address(("https://"@ + host).push('/'), device_id) == "wss://"@ + host
            + "/v1/devices/"@ + device_id + "/relay"@,
{
    reveal_strlit("https://");
    reveal_strlit("http://");
    let secure = "https://"@ + host;
    let plain = "http://"@ + host;
    reveal_with_fuel(without_trailing, 2);
    assert(secure.last() == host.last());
    assert(plain.last() == host.last());
    assert(secure.push('/').drop_last() =~= secure);
    assert(secure.take(8) =~= "https://"@);
    assert(plain.take(7) =~= "http://"@);
    assert(plain.take(8)[4] == ':');
    assert("https://"@[4] == 's');
    assert(secure.skip(8) =~= host);
    assert(plain.skip(7) =~= host);
}

} // verus!
