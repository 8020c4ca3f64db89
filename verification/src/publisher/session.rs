//! The publisher's relay connection.
//!
//! One connection, many terminals. A device may hold only one publisher connection, and
//! every publisher frame names a terminal so that this one can carry many. This is the
//! multiplexer: it owns the routing table, and no byte state at all. Offsets and
//! retained bytes belong to whatever owns the pseudo-terminal, so that this process
//! dying can interrupt a mirror but can never put a hole in one.
//!
//! Nothing that arrives for one terminal may disturb another: an acknowledgement, a
//! refusal, a close and a resize all name a terminal, and all are routed by it.

use crate::ids::{uuid_text, uuid_value, Uuid};
use crate::json;
use crate::json::json_string;
use crate::publisher::backoff::{backoff_ms, delay_before};
use crate::publisher::protocol;
use crate::publisher::protocol::{
    decode_input_frame, decoded_frame, encode_output_frame, frame_bytes, ServerMessage,
    FRAME_TYPE_INPUT, FRAME_TYPE_OUTPUT, SUBPROTOCOL_V2,
};
use crate::publisher::publish::{frames, law_frames_are_contiguous, send_output, Request};
use crate::text;
use crate::text::{
    begins_with, decimal, option_view, quoted_text, signed_decimal, texts, without_trailing,
};
use vstd::prelude::*;

pub mod messages;
pub mod routing;

verus! {

/// The relay's limits for this connection.
#[derive(Clone, Copy, Debug, PartialEq, Eq, Structural)]
pub struct Limits {
    pub max_output_frame_bytes: u64,
    pub max_unacked_output_bytes: u64,
}

/// What the relay says about one terminal.
#[derive(Debug)]
pub enum Event<S = String, B = Vec<u8>> {
    /// The relay has this terminal open, and its stream continues at `next_offset`.
    /// Sent on the first open and again after every reconnect, because the relay is
    /// the authority on where the stream is and its answer can move backwards to
    /// whatever it committed.
    Attached { terminal_id: Uuid, next_offset: u64, limits: Limits },
    /// Bytes the relay has committed; everything below this can be forgotten.
    Ack { durable_offset: u64 },
    /// Keystrokes for the pseudo-terminal.
    Input(B),
    /// A size a subscriber would like. Whoever owns the window decides.
    ResizeRequest { cols: u16, rows: u16 },
    /// The relay refused a frame and says the stream is here instead.
    Mismatch { next_offset: u64 },
    /// The connection is gone. Nothing may be framed until the next `Attached`.
    Detached,
    /// This terminal is no longer mirrored, with a reason worth showing a person.
    Ended(S),
}

impl View for Event {
    type V = Event<Seq<char>, Seq<u8>>;

    open spec fn view(&self) -> Event<Seq<char>, Seq<u8>> {
        match self {
            Event::Attached { terminal_id, next_offset, limits } => Event::Attached {
                terminal_id: *terminal_id,
                next_offset: *next_offset,
                limits: *limits,
            },
            Event::Ack { durable_offset } => Event::Ack { durable_offset: *durable_offset },
            Event::Input(bytes) => Event::Input(bytes@),
            Event::ResizeRequest { cols, rows } => Event::ResizeRequest {
                cols: *cols,
                rows: *rows,
            },
            Event::Mismatch { next_offset } => Event::Mismatch { next_offset: *next_offset },
            Event::Detached => Event::Detached,
            Event::Ended(reason) => Event::Ended(reason@),
        }
    }
}

/// One terminal joining the connection.
#[derive(Clone, Debug)]
pub struct TerminalSpec<S = String> {
    /// Stable for the life of the hosted shell, across relay reconnects: it is what lets
    /// the relay recognise a reopened terminal as the same one. Minted fresh per hosted
    /// shell: two shells sharing one would be put onto one offset stream and interleave,
    /// byte by byte.
    pub local_ref: S,
    pub label: S,
    pub cols: u16,
    pub rows: u16,
    pub term: S,
    /// The request that this terminal answers, if it answers one. One-shot: echoed on
    /// the first open and never again, or a stale request would be answered twice.
    pub in_reply_to: Option<S>,
}

impl View for TerminalSpec {
    type V = TerminalSpec<Seq<char>>;

    open spec fn view(&self) -> TerminalSpec<Seq<char>> {
        TerminalSpec {
            local_ref: self.local_ref@,
            label: self.label@,
            cols: self.cols,
            rows: self.rows,
            term: self.term@,
            in_reply_to: option_view(self.in_reply_to),
        }
    }
}

/// A subscriber asking this machine to open a terminal.
///
/// Carried to whoever can host one. Nothing here decides that it will be honoured:
/// every check that matters happens in the process that would spawn.
#[derive(Clone, Debug)]
pub struct OpenRequest<S = String> {
    pub request_id: S,
    pub label: Option<S>,
    pub cols: Option<u16>,
    pub rows: Option<u16>,
}

impl View for OpenRequest {
    type V = OpenRequest<Seq<char>>;

    open spec fn view(&self) -> OpenRequest<Seq<char>> {
        OpenRequest {
            request_id: self.request_id@,
            label: option_view(self.label),
            cols: self.cols,
            rows: self.rows,
        }
    }
}

/// One terminal on the connection.
#[derive(Debug)]
pub struct Hosted<S = String> {
    pub local_ref: S,
    pub label: S,
    pub cols: u16,
    pub rows: u16,
    pub term: S,
    /// The request that the next open answers.
    pub in_reply_to: Option<S>,
    /// Assigned by the relay; cleared on a disconnect so nothing is ever framed against
    /// a stale identifier.
    pub terminal_id: Option<Uuid>,
    /// Set once the local side has finished. The terminal is closed at the relay and
    /// forgotten on the next pass.
    pub closing: Option<S>,
}

impl View for Hosted {
    type V = Hosted<Seq<char>>;

    open spec fn view(&self) -> Hosted<Seq<char>> {
        Hosted {
            local_ref: self.local_ref@,
            label: self.label@,
            cols: self.cols,
            rows: self.rows,
            term: self.term@,
            in_reply_to: option_view(self.in_reply_to),
            terminal_id: self.terminal_id,
            closing: option_view(self.closing),
        }
    }
}

/// What the local side asks of the relay connection.
#[derive(Debug)]
pub enum Control<S = String, B = Vec<u8>> {
    Open(TerminalSpec<S>),
    Output { local_ref: S, start_offset: u64, bytes: B },
    /// The authoritative size, which only the publisher may declare.
    Resize { local_ref: S, cols: u16, rows: u16 },
    Close { local_ref: S, reason: S },
    /// Refuse a request to open a terminal.
    Decline { request_id: S, reason: S },
}

impl View for Control {
    type V = Control<Seq<char>, Seq<u8>>;

    open spec fn view(&self) -> Control<Seq<char>, Seq<u8>> {
        match self {
            Control::Open(spec) => Control::Open(spec@),
            Control::Output { local_ref, start_offset, bytes } => Control::Output {
                local_ref: local_ref@,
                start_offset: *start_offset,
                bytes: bytes@,
            },
            Control::Resize { local_ref, cols, rows } => Control::Resize {
                local_ref: local_ref@,
                cols: *cols,
                rows: *rows,
            },
            Control::Close { local_ref, reason } => Control::Close {
                local_ref: local_ref@,
                reason: reason@,
            },
            Control::Decline { request_id, reason } => Control::Decline {
                request_id: request_id@,
                reason: reason@,
            },
        }
    }
}

/// Messages for the relay.
#[derive(Debug)]
pub enum Outbound<S = String, B = Vec<u8>> {
    /// This machine can be asked to open terminals.
    Capabilities,
    Open {
        request_id: S,
        local_ref: S,
        label: S,
        cols: u16,
        rows: u16,
        term: S,
        in_reply_to: Option<S>,
    },
    Resize { terminal_id: Uuid, cols: u16, rows: u16 },
    Close { terminal_id: Uuid, reason: S },
    OpenDeclined { in_reply_to: S, reason: S },
    Pong { at_unix_ms: i64 },
    /// A binary frame.
    Frame(B),
    /// The socket's own answer to the socket's own ping.
    SocketPong(B),
}

impl View for Outbound {
    type V = Outbound<Seq<char>, Seq<u8>>;

    open spec fn view(&self) -> Outbound<Seq<char>, Seq<u8>> {
        match self {
            Outbound::Capabilities => Outbound::Capabilities,
            Outbound::Open { request_id, local_ref, label, cols, rows, term, in_reply_to } =>
                Outbound::Open {
                request_id: request_id@,
                local_ref: local_ref@,
                label: label@,
                cols: *cols,
                rows: *rows,
                term: term@,
                in_reply_to: option_view(*in_reply_to),
            },
            Outbound::Resize { terminal_id, cols, rows } => Outbound::Resize {
                terminal_id: *terminal_id,
                cols: *cols,
                rows: *rows,
            },
            Outbound::Close { terminal_id, reason } => Outbound::Close {
                terminal_id: *terminal_id,
                reason: reason@,
            },
            Outbound::OpenDeclined { in_reply_to, reason } => Outbound::OpenDeclined {
                in_reply_to: in_reply_to@,
                reason: reason@,
            },
            Outbound::Pong { at_unix_ms } => Outbound::Pong { at_unix_ms: *at_unix_ms },
            Outbound::Frame(bytes) => Outbound::Frame(bytes@),
            Outbound::SocketPong(bytes) => Outbound::SocketPong(bytes@),
        }
    }
}

impl Outbound<Seq<char>, Seq<u8>> {
    /// The text of a control message, with its keys in alphabetical order; a binary
    /// message has none.
    pub open spec fn json(self) -> Option<Seq<char>> {
        match self {
            Outbound::Capabilities => Some(
                "{\"optional\":true,\"terminal_open_requests\":true,\"type\":\"publisher.capabilities\"}"@,
            ),
            Outbound::Open { request_id, local_ref, label, cols, rows, term, in_reply_to } => Some(
                "{\"accepts_input\":true,\"cols\":"@ + decimal(cols as nat) + (match in_reply_to {
                    Some(request) => ",\"in_reply_to\":"@ + json_string(request),
                    None => ""@,
                }) + ",\"label\":"@ + json_string(label) + ",\"local_ref\":"@ + json_string(
                    local_ref,
                ) + ",\"request_id\":"@ + json_string(request_id) + ",\"rows\":"@ + decimal(
                    rows as nat,
                ) + ",\"term\":"@ + json_string(term) + ",\"type\":\"terminal.open\"}"@,
            ),
            Outbound::Resize { terminal_id, cols, rows } => Some(
                "{\"cols\":"@ + decimal(cols as nat) + ",\"rows\":"@ + decimal(rows as nat)
                    + ",\"terminal_id\":\""@ + uuid_text(terminal_id.value)
                    + "\",\"type\":\"terminal.resize\"}"@,
            ),
            Outbound::Close { terminal_id, reason } => Some(
                "{\"reason\":"@ + json_string(reason) + ",\"terminal_id\":\""@ + uuid_text(
                    terminal_id.value,
                ) + "\",\"type\":\"terminal.close\"}"@,
            ),
            Outbound::OpenDeclined { in_reply_to, reason } => Some(
                "{\"in_reply_to\":"@ + json_string(in_reply_to) + ",\"reason\":"@ + json_string(
                    reason,
                ) + ",\"type\":\"terminal.open_declined\"}"@,
            ),
            Outbound::Pong { at_unix_ms } => Some(
                "{\"at_unix_ms\":"@ + signed_decimal(at_unix_ms as int) + ",\"type\":\"pong\"}"@,
            ),
            Outbound::Frame(bytes) => None,
            Outbound::SocketPong(bytes) => None,
        }
    }
}

impl Outbound {
    /// The text of a control message; a binary message has none.
    pub fn to_json(&self) -> (text: Option<String>)
        ensures
            option_view(text) == self@.json(),
    {
        match self {
            Outbound::Capabilities => Some(
                "{\"optional\":true,\"terminal_open_requests\":true,\"type\":\"publisher.capabilities\"}".to_owned(),
            ),
            Outbound::Open { request_id, local_ref, label, cols, rows, term, in_reply_to } => {
                let reply = match in_reply_to {
                    Some(request) => ",\"in_reply_to\":".to_owned().concat(
                        json::string(request.as_str()).as_str(),
                    ),
                    None => "".to_owned(),
                };
                let out = "{\"accepts_input\":true,\"cols\":".to_owned();
                let out = out.concat(text::decimal_of(*cols as u64).as_str());
                let out = out.concat(reply.as_str());
                let out = out.concat(",\"label\":").concat(json::string(label.as_str()).as_str());
                let out = out.concat(",\"local_ref\":").concat(
                    json::string(local_ref.as_str()).as_str(),
                );
                let out = out.concat(",\"request_id\":").concat(
                    json::string(request_id.as_str()).as_str(),
                );
                let out = out.concat(",\"rows\":").concat(text::decimal_of(*rows as u64).as_str());
                let out = out.concat(",\"term\":").concat(json::string(term.as_str()).as_str());
                Some(out.concat(",\"type\":\"terminal.open\"}"))
            },
            Outbound::Resize { terminal_id, cols, rows } => {
                let out = "{\"cols\":".to_owned().concat(text::decimal_of(*cols as u64).as_str());
                let out = out.concat(",\"rows\":").concat(text::decimal_of(*rows as u64).as_str());
                let out = out.concat(",\"terminal_id\":\"").concat(terminal_id.to_text().as_str());
                Some(out.concat("\",\"type\":\"terminal.resize\"}"))
            },
            Outbound::Close { terminal_id, reason } => {
                let out = "{\"reason\":".to_owned().concat(json::string(reason.as_str()).as_str());
                let out = out.concat(",\"terminal_id\":\"").concat(terminal_id.to_text().as_str());
                Some(out.concat("\",\"type\":\"terminal.close\"}"))
            },
            Outbound::OpenDeclined { in_reply_to, reason } => {
                let out = "{\"in_reply_to\":".to_owned().concat(
                    json::string(in_reply_to.as_str()).as_str(),
                );
                let out = out.concat(",\"reason\":").concat(json::string(reason.as_str()).as_str());
                Some(out.concat(",\"type\":\"terminal.open_declined\"}"))
            },
            Outbound::Pong { at_unix_ms } => {
                let out = "{\"at_unix_ms\":".to_owned();
                let out = out.concat(text::signed_of(*at_unix_ms as i128).as_str());
                Some(out.concat(",\"type\":\"pong\"}"))
            },
            Outbound::Frame(bytes) => None,
            Outbound::SocketPong(bytes) => None,
        }
    }
}

/// What has to be done on behalf of the multiplexer. Nothing here may wait: the owner of
/// a terminal blocks when the socket is behind, and if delivering to it blocked in turn
/// the two would wait on each other for ever.
#[derive(Debug)]
pub enum Action<S = String, B = Vec<u8>> {
    /// Queue a message for the socket.
    Send(Outbound<S, B>),
    /// Hand an event to the terminal's owner. If its queue is full, say so with
    /// [`Multiplexer::unresponsive`].
    Deliver { local_ref: S, event: Event<S, B> },
    /// Hand an event to the terminal's owner if there is room, and forget it otherwise.
    Offer { local_ref: S, event: Event<S, B> },
    /// Hand an event to whoever asked for a terminal that was not opened.
    RefuseOpen(Event<S, B>),
    /// Hand a request to whoever hosts terminals. If it cannot be taken, answer with
    /// [`busy`].
    Forward(OpenRequest<S>),
}

impl View for Action {
    type V = Action<Seq<char>, Seq<u8>>;

    open spec fn view(&self) -> Action<Seq<char>, Seq<u8>> {
        match self {
            Action::Send(message) => Action::Send(message@),
            Action::Deliver { local_ref, event } => Action::Deliver {
                local_ref: local_ref@,
                event: event@,
            },
            Action::Offer { local_ref, event } => Action::Offer {
                local_ref: local_ref@,
                event: event@,
            },
            Action::RefuseOpen(event) => Action::RefuseOpen(event@),
            Action::Forward(request) => Action::Forward(request@),
        }
    }
}

/// An action over sequences.
pub type ActionModel = Action<Seq<char>, Seq<u8>>;

/// The actions in a list, over sequences.
pub open spec fn actions_view(list: Seq<Action>) -> Seq<ActionModel> {
    Seq::new(list.len(), |i: int| list[i]@)
}

/// What arrives on the socket.
#[derive(Debug)]
pub enum Frame<S = String, B = Vec<u8>> {
    /// A text message; `None` if it could not be read as a message at all.
    Text(Option<ServerMessage<S>>),
    Binary(B),
    Ping(B),
    Close,
    Other,
}

impl View for Frame {
    type V = Frame<Seq<char>, Seq<u8>>;

    open spec fn view(&self) -> Frame<Seq<char>, Seq<u8>> {
        match self {
            Frame::Text(message) => Frame::Text(option_view(*message)),
            Frame::Binary(bytes) => Frame::Binary(bytes@),
            Frame::Ping(bytes) => Frame::Ping(bytes@),
            Frame::Close => Frame::Close,
            Frame::Other => Frame::Other,
        }
    }
}

/// Why a connection ended.
#[derive(Debug)]
pub enum SessionError<S = String> {
    Connect(S),
    /// The relay refused the publisher connection.
    Refused(S),
    /// The relay closed the connection.
    Closed(S),
    /// A request before the connection failed.
    Api(S),
}

impl View for SessionError {
    type V = SessionError<Seq<char>>;

    open spec fn view(&self) -> SessionError<Seq<char>> {
        match self {
            SessionError::Connect(text) => SessionError::Connect(text@),
            SessionError::Refused(text) => SessionError::Refused(text@),
            SessionError::Closed(text) => SessionError::Closed(text@),
            SessionError::Api(text) => SessionError::Api(text@),
        }
    }
}

impl SessionError<Seq<char>> {
    pub open spec fn words(self) -> Seq<char> {
        match self {
            SessionError::Connect(text) => text,
            SessionError::Refused(text) => "the relay refused the publisher connection: "@ + text,
            SessionError::Closed(text) => "the relay closed the connection: "@ + text,
            SessionError::Api(text) => text,
        }
    }
}

impl SessionError {
    /// Why the connection ended, in words.
    pub fn to_text(&self) -> (words: String)
        ensures
            words@ == self@.words(),
    {
        match self {
            SessionError::Connect(text) => text.as_str().to_owned(),
            SessionError::Refused(text) => "the relay refused the publisher connection: ".to_owned(
            ).concat(text.as_str()),
            SessionError::Closed(text) => "the relay closed the connection: ".to_owned().concat(
                text.as_str(),
            ),
            SessionError::Api(text) => text.as_str().to_owned(),
        }
    }
}

/// How the connection stands after a frame.
pub type Verdict<S> = Result<Option<S>, SessionError<S>>;

/// A verdict over sequences.
pub open spec fn verdict_view(verdict: Verdict<String>) -> Verdict<Seq<char>> {
    match verdict {
        Ok(reason) => Ok(option_view(reason)),
        Err(error) => Err(error@),
    }
}

/// What the owner of a finished terminal is told.
pub const TERMINAL_ENDED: &'static str = "the terminal ended";

/// Why the connection is over when another publisher has taken the device.
pub const SUPERSEDED: &'static str =
    "another publisher on this machine took over; only one may publish at a time";

/// Where a terminal stands in the list, by its reference.
pub open spec fn index_of_ref(list: Seq<Hosted<Seq<char>>>, local_ref: Seq<char>) -> Option<int>
    decreases list.len(),
{
    if list.len() == 0 {
        None
    } else {
        match index_of_ref(list.drop_last(), local_ref) {
            Some(i) => Some(i),
            None => if list.last().local_ref == local_ref {
                Some(list.len() - 1)
            } else {
                None
            },
        }
    }
}

/// Where a terminal stands in the list, by the identifier that the relay gave it.
pub open spec fn index_of_id(list: Seq<Hosted<Seq<char>>>, id: Uuid) -> Option<int>
    decreases list.len(),
{
    if list.len() == 0 {
        None
    } else {
        match index_of_id(list.drop_last(), id) {
            Some(i) => Some(i),
            None => if list.last().terminal_id == Some(id) {
                Some(list.len() - 1)
            } else {
                None
            },
        }
    }
}

/// No two terminals share a reference.
pub open spec fn distinct_refs(list: Seq<Hosted<Seq<char>>>) -> bool {
    forall|i: int, j: int|
        0 <= i < j < list.len() ==> #[trigger] list[i].local_ref != #[trigger] list[j].local_ref
}

/// What an index into the list of terminals says.
pub proof fn lemma_index_of_ref(list: Seq<Hosted<Seq<char>>>, local_ref: Seq<char>)
    ensures
        match index_of_ref(list, local_ref) {
            Some(i) => 0 <= i < list.len() && list[i].local_ref == local_ref,
            None => forall|i: int| 0 <= i < list.len() ==> #[trigger] list[i].local_ref != local_ref,
        },
    decreases list.len(),
{
    if list.len() > 0 {
        let shorter = list.drop_last();
        lemma_index_of_ref(shorter, local_ref);
        assert forall|i: int|
            index_of_ref(list, local_ref) is None && 0 <= i < list.len() implies #[trigger] list[i].local_ref
            != local_ref by {
            if i < shorter.len() {
                assert(shorter[i].local_ref != local_ref);
            }
        }
    }
}

/// What an index into the list of terminals says.
pub proof fn lemma_index_of_id(list: Seq<Hosted<Seq<char>>>, id: Uuid)
    ensures
        match index_of_id(list, id) {
            Some(i) => 0 <= i < list.len() && list[i].terminal_id == Some(id),
            None => forall|i: int|
                0 <= i < list.len() ==> #[trigger] list[i].terminal_id != Some(id),
        },
    decreases list.len(),
{
    if list.len() > 0 {
        let shorter = list.drop_last();
        lemma_index_of_id(shorter, id);
        assert forall|i: int|
            index_of_id(list, id) is None && 0 <= i < list.len() implies #[trigger] list[i].terminal_id
            != Some(id) by {
            if i < shorter.len() {
                assert(shorter[i].terminal_id != Some(id));
            }
        }
    }
}

/// A terminal that has just joined.
pub open spec fn hosted_of(spec: TerminalSpec<Seq<char>>) -> Hosted<Seq<char>> {
    Hosted {
        local_ref: spec.local_ref,
        label: spec.label,
        cols: spec.cols,
        rows: spec.rows,
        term: spec.term,
        in_reply_to: spec.in_reply_to,
        terminal_id: None,
        closing: None,
    }
}

/// The message that opens a terminal. The reference doubles as the request's identifier,
/// so a reply can be matched back without a second table to keep in step.
pub open spec fn open_message(hosted: Hosted<Seq<char>>) -> ActionModel {
    Action::Send(
        Outbound::Open {
            request_id: hosted.local_ref,
            local_ref: hosted.local_ref,
            label: hosted.label,
            cols: hosted.cols,
            rows: hosted.rows,
            term: hosted.term,
            in_reply_to: hosted.in_reply_to,
        },
    )
}

/// A terminal that has been opened answers no request any more.
pub open spec fn opened_once(hosted: Hosted<Seq<char>>) -> Hosted<Seq<char>> {
    Hosted { in_reply_to: None, ..hosted }
}

/// A terminal marked as finished, for the first reason that was given.
pub open spec fn marked(hosted: Hosted<Seq<char>>, reason: Seq<char>) -> Hosted<Seq<char>> {
    Hosted {
        closing: if hosted.closing is None {
            Some(reason)
        } else {
            hosted.closing
        },
        ..hosted
    }
}

/// A requested size as a terminal can have it.
pub open spec fn as_size(value: u32) -> u16 {
    if value < 1 {
        1
    } else if value > u16::MAX {
        u16::MAX
    } else {
        value as u16
    }
}

/// A terminal whose local side has finished and that the relay has opened.
pub open spec fn is_finished(hosted: Hosted<Seq<char>>) -> bool {
    hosted.closing is Some && hosted.terminal_id is Some
}

/// The terminals that are not finished.
pub open spec fn unfinished(list: Seq<Hosted<Seq<char>>>) -> Seq<Hosted<Seq<char>>>
    decreases list.len(),
{
    if list.len() == 0 {
        Seq::empty()
    } else if is_finished(list.last()) {
        unfinished(list.drop_last())
    } else {
        unfinished(list.drop_last()).push(list.last())
    }
}

/// What is done about the terminals that are finished: each is closed at the relay, and
/// its owner told.
pub open spec fn closings(list: Seq<Hosted<Seq<char>>>) -> Seq<ActionModel>
    decreases list.len(),
{
    if list.len() == 0 {
        Seq::empty()
    } else if is_finished(list.last()) {
        closings(list.drop_last()) + seq![
            Action::Send(
                Outbound::Close {
                    terminal_id: list.last().terminal_id->0,
                    reason: list.last().closing->0,
                },
            ),
            Action::Offer {
                local_ref: list.last().local_ref,
                event: Event::Ended(TERMINAL_ENDED@),
            },
        ]
    } else {
        closings(list.drop_last())
    }
}

/// The terminals that have not been marked as finished.
pub open spec fn unmarked(list: Seq<Hosted<Seq<char>>>) -> Seq<Hosted<Seq<char>>>
    decreases list.len(),
{
    if list.len() == 0 {
        Seq::empty()
    } else if list.last().closing is Some {
        unmarked(list.drop_last())
    } else {
        unmarked(list.drop_last()).push(list.last())
    }
}

/// The closes for what an earlier run left open.
pub open spec fn orphan_closes(previously_open: Seq<Uuid>, opened: Seq<Uuid>) -> Seq<ActionModel>
    decreases previously_open.len(),
{
    if previously_open.len() == 0 {
        Seq::empty()
    } else {
        let before = orphan_closes(previously_open.drop_last(), opened);
        if opened.contains(previously_open.last()) {
            before
        } else {
            before.push(
                Action::Send(
                    Outbound::Close {
                        terminal_id: previously_open.last(),
                        reason: "publisher_replaced"@,
                    },
                ),
            )
        }
    }
}

/// The frames that carry `bytes` of an attached terminal from `start` on.
pub open spec fn wire_frames(id: Uuid, start: nat, bytes: Seq<u8>, max_frame: nat) -> Seq<
    ActionModel,
> {
    let pieces = frames(start, bytes, max_frame);
    Seq::new(
        pieces.len(),
        |i: int|
            Action::Send(
                Outbound::Frame(
                    frame_bytes(
                        FRAME_TYPE_OUTPUT,
                        id,
                        pieces[i]->start_offset,
                        pieces[i]->Output_bytes,
                    ),
                ),
            ),
    )
}

/// The state of a connection's multiplexer.
pub struct MuxState {
    pub terminals: Seq<Hosted<Seq<char>>>,
    /// The identifiers that the relay has handed out on this connection. Kept for the
    /// life of the connection: one closed a moment ago must not be closed again as
    /// though it belonged to someone else.
    pub opened: Seq<Uuid>,
    /// Somebody here hosts terminals on request.
    pub listening: bool,
}

/// A state and what has to be done to get there.
pub struct Reaction {
    pub state: MuxState,
    pub actions: Seq<ActionModel>,
}

impl MuxState {
    pub open spec fn empty(listening: bool) -> MuxState {
        MuxState { terminals: Seq::empty(), opened: Seq::empty(), listening }
    }

    pub open spec fn stays(self) -> Reaction {
        Reaction { state: self, actions: Seq::empty() }
    }

    pub open spec fn does(self, action: ActionModel) -> Reaction {
        Reaction { state: self, actions: seq![action] }
    }

    pub open spec fn with(self, i: int, hosted: Hosted<Seq<char>>) -> MuxState {
        MuxState { terminals: self.terminals.update(i, hosted), ..self }
    }

    pub open spec fn without(self, i: int) -> MuxState {
        MuxState { terminals: self.terminals.remove(i), ..self }
    }

    /// Deliver to one terminal, and only that one.
    pub open spec fn delivered(self, id: Uuid, event: Event<Seq<char>, Seq<u8>>) -> Reaction {
        match index_of_id(self.terminals, id) {
            None => self.stays(),
            Some(i) => self.does(
                Action::Deliver { local_ref: self.terminals[i].local_ref, event },
            ),
        }
    }

    pub open spec fn after_unresponsive(self, local_ref: Seq<char>) -> MuxState {
        match index_of_ref(self.terminals, local_ref) {
            None => self,
            Some(i) => self.with(i, marked(self.terminals[i], "publisher_unresponsive"@)),
        }
    }

    pub open spec fn ended(self, reason: Seq<char>) -> Reaction {
        Reaction {
            state: MuxState { terminals: Seq::empty(), ..self },
            actions: Seq::new(
                self.terminals.len(),
                |i: int|
                    Action::Offer {
                        local_ref: self.terminals[i].local_ref,
                        event: Event::Ended(reason),
                    },
            ),
        }
    }

    pub open spec fn disconnected(self) -> Reaction {
        Reaction {
            state: MuxState {
                terminals: Seq::new(
                    self.terminals.len(),
                    |i: int| Hosted { terminal_id: None, ..self.terminals[i] },
                ),
                opened: Seq::empty(),
                ..self
            },
            actions: Seq::new(
                self.terminals.len(),
                |i: int|
                    Action::Offer {
                        local_ref: self.terminals[i].local_ref,
                        event: Event::Detached,
                    },
            ),
        }
    }

    pub open spec fn reopened(self) -> Reaction {
        Reaction {
            state: MuxState {
                terminals: Seq::new(
                    self.terminals.len(),
                    |i: int| opened_once(self.terminals[i]),
                ),
                ..self
            },
            actions: Seq::new(self.terminals.len(), |i: int| open_message(self.terminals[i])),
        }
    }

    /// A local request that arrived while there was no connection.
    pub open spec fn stashed(self, control: Control<Seq<char>, Seq<u8>>) -> Reaction {
        match control {
            Control::Open(spec) => match index_of_ref(self.terminals, spec.local_ref) {
                Some(i) => self.with(i, hosted_of(spec)).stays(),
                None => MuxState {
                    terminals: self.terminals.push(hosted_of(spec)),
                    ..self
                }.stays(),
            },
            Control::Resize { local_ref, cols, rows } => match index_of_ref(
                self.terminals,
                local_ref,
            ) {
                Some(i) => self.with(i, Hosted { cols, rows, ..self.terminals[i] }).stays(),
                None => self.stays(),
            },
            Control::Close { local_ref, reason } => match index_of_ref(
                self.terminals,
                local_ref,
            ) {
                Some(i) => self.with(i, marked(self.terminals[i], reason)).does(
                    Action::Offer { local_ref, event: Event::Ended(TERMINAL_ENDED@) },
                ),
                None => self.stays(),
            },
            // With no connection there is nobody to decline to, and nothing is framed:
            // the bytes are retained by the terminal's owner and offered again.
            Control::Decline { request_id, reason } => self.stays(),
            Control::Output { local_ref, start_offset, bytes } => self.stays(),
        }
    }

    /// A local request on a live connection.
    pub open spec fn controlled(
        self,
        control: Control<Seq<char>, Seq<u8>>,
        limits: Limits,
        max_terminals: u64,
    ) -> Reaction {
        match control {
            Control::Open(spec) => if self.terminals.len() >= max_terminals {
                self.does(
                    Action::RefuseOpen(
                        Event::Ended(
                            "this machine already has the relay's limit of "@ + decimal(
                                max_terminals as nat,
                            ) + " terminals open"@,
                        ),
                    ),
                )
            } else if index_of_ref(self.terminals, spec.local_ref) is Some {
                self.does(
                    Action::RefuseOpen(
                        Event::Ended("that terminal reference is already in use"@),
                    ),
                )
            } else {
                MuxState {
                    terminals: self.terminals.push(opened_once(hosted_of(spec))),
                    ..self
                }.does(open_message(hosted_of(spec)))
            },
            Control::Output { local_ref, start_offset, bytes } => match index_of_ref(
                self.terminals,
                local_ref,
            ) {
                Some(i) => match self.terminals[i].terminal_id {
                    Some(id) => Reaction {
                        state: self,
                        actions: wire_frames(
                            id,
                            start_offset as nat,
                            bytes,
                            limits.max_output_frame_bytes as nat,
                        ),
                    },
                    None => self.stays(),
                },
                None => self.stays(),
            },
            Control::Resize { local_ref, cols, rows } => match index_of_ref(
                self.terminals,
                local_ref,
            ) {
                Some(i) => {
                    let state = self.with(i, Hosted { cols, rows, ..self.terminals[i] });
                    match self.terminals[i].terminal_id {
                        Some(terminal_id) => state.does(
                            Action::Send(Outbound::Resize { terminal_id, cols, rows }),
                        ),
                        None => state.stays(),
                    }
                },
                None => self.stays(),
            },
            Control::Close { local_ref, reason } => match index_of_ref(
                self.terminals,
                local_ref,
            ) {
                Some(i) => self.with(i, marked(self.terminals[i], reason)).does(
                    Action::Deliver { local_ref, event: Event::Ended(TERMINAL_ENDED@) },
                ),
                None => self.stays(),
            },
            Control::Decline { request_id, reason } => self.does(
                Action::Send(Outbound::OpenDeclined { in_reply_to: request_id, reason }),
            ),
        }
    }

    /// The terminal that an error is about, if it is still here.
    pub open spec fn named(self, terminal_id: Option<Uuid>, request_id: Option<Seq<char>>) -> Option<
        int,
    > {
        let by_id = match terminal_id {
            Some(id) => index_of_id(self.terminals, id),
            None => None,
        };
        if by_id is Some {
            by_id
        } else {
            match request_id {
                Some(local_ref) => index_of_ref(self.terminals, local_ref),
                None => None,
            }
        }
    }

    /// What an error message comes to, and whether it was about a terminal at all.
    pub open spec fn refused(
        self,
        code: Seq<char>,
        message: Seq<char>,
        terminal_id: Option<Uuid>,
        request_id: Option<Seq<char>>,
        authoritative: Option<u64>,
    ) -> (Reaction, bool) {
        match self.named(terminal_id, request_id) {
            None => (self.stays(), terminal_id is Some || request_id is Some),
            Some(i) => {
                let hosted = self.terminals[i];
                if code == "offset_mismatch"@ && authoritative is Some {
                    (
                        self.does(
                            Action::Offer {
                                local_ref: hosted.local_ref,
                                event: Event::Mismatch { next_offset: authoritative->0 },
                            },
                        ),
                        true,
                    )
                } else {
                    let told = Action::Offer {
                        local_ref: hosted.local_ref,
                        event: Event::Ended(code + ": "@ + message),
                    };
                    (
                        Reaction {
                            state: self.without(i),
                            actions: match hosted.terminal_id {
                                Some(id) => seq![
                                    Action::Send(
                                        Outbound::Close {
                                            terminal_id: id,
                                            reason: "publisher_error"@,
                                        },
                                    ),
                                    told,
                                ],
                                None => seq![told],
                            },
                        },
                        true,
                    )
                }
            },
        }
    }

    /// What a request to open a terminal here comes to.
    pub open spec fn asked(
        self,
        request_id: Seq<char>,
        label: Option<Seq<char>>,
        cols: Option<u32>,
        rows: Option<u32>,
        allow_remote_open: bool,
    ) -> Reaction {
        if !allow_remote_open {
            self.does(declined(request_id, "not_permitted"@))
        } else if !self.listening {
            self.does(declined(request_id, "unsupported"@))
        } else {
            self.does(
                Action::Forward(
                    OpenRequest {
                        request_id,
                        label,
                        cols: requested_size(cols),
                        rows: requested_size(rows),
                    },
                ),
            )
        }
    }

    /// What a message from the relay comes to.
    pub open spec fn told(
        self,
        message: ServerMessage<Seq<char>>,
        limits: Limits,
        allow_remote_open: bool,
    ) -> (Reaction, Verdict<Seq<char>>) {
        match message {
            ServerMessage::TerminalOpened {
                request_id,
                terminal_id,
                next_offset,
                durable_offset,
                accepts_input,
            } => match index_of_ref(self.terminals, request_id) {
                Some(i) => (
                    MuxState {
                        opened: self.opened.push(terminal_id),
                        ..self.with(
                            i,
                            Hosted { terminal_id: Some(terminal_id), ..self.terminals[i] },
                        )
                    }.does(
                        Action::Deliver {
                            local_ref: request_id,
                            event: Event::Attached { terminal_id, next_offset, limits },
                        },
                    ),
                    Ok(None),
                ),
                None => (self.stays(), Ok(None)),
            },
            ServerMessage::OutputAck { terminal_id, durable_offset, next_offset } => (
                self.delivered(terminal_id, Event::Ack { durable_offset }),
                Ok(None),
            ),
            ServerMessage::TerminalOpenRequest { request_id, label, cols, rows } => (
                self.asked(request_id, label, cols, rows, allow_remote_open),
                Ok(None),
            ),
            ServerMessage::TerminalResizeRequest { terminal_id, cols, rows } => (
                self.delivered(
                    terminal_id,
                    Event::ResizeRequest { cols: as_size(cols), rows: as_size(rows) },
                ),
                Ok(None),
            ),
            ServerMessage::TerminalClosed { terminal_id, reason } => match index_of_id(
                self.terminals,
                terminal_id,
            ) {
                Some(i) => (
                    self.without(i).does(
                        Action::Offer {
                            local_ref: self.terminals[i].local_ref,
                            event: Event::Ended("the relay closed the terminal: "@ + reason),
                        },
                    ),
                    Ok(None),
                ),
                None => (self.stays(), Ok(None)),
            },
            ServerMessage::Error {
                code,
                message,
                terminal_id,
                request_id,
                next_offset,
                durable_offset,
            } => if code == "superseded"@ {
                (self.stays(), Ok(Some(SUPERSEDED@)))
            } else {
                let (reaction, handled) = self.refused(
                    code,
                    message,
                    terminal_id,
                    request_id,
                    next_offset,
                );
                (
                    reaction,
                    if handled {
                        Ok(None)
                    } else {
                        Err(SessionError::Refused(code + ": "@ + message))
                    },
                )
            },
            ServerMessage::Ping { at_unix_ms } => (
                self.does(Action::Send(Outbound::Pong { at_unix_ms })),
                Ok(None),
            ),
            ServerMessage::Ready { connection_id, limits } => (self.stays(), Ok(None)),
            ServerMessage::Notice { code, message } => (self.stays(), Ok(None)),
            ServerMessage::Unrecognised => (self.stays(), Ok(None)),
        }
    }

    /// What a frame from the socket comes to.
    pub open spec fn received(
        self,
        frame: Frame<Seq<char>, Seq<u8>>,
        limits: Limits,
        allow_remote_open: bool,
    ) -> (Reaction, Verdict<Seq<char>>) {
        match frame {
            Frame::Text(Some(message)) => self.told(message, limits, allow_remote_open),
            Frame::Text(None) => (self.stays(), Ok(None)),
            Frame::Binary(bytes) => match decoded_frame(FRAME_TYPE_INPUT, bytes) {
                Ok(input) => (
                    self.delivered(input.terminal_id, Event::Input(input.payload)),
                    Ok(None),
                ),
                Err(error) => (self.stays(), Ok(None)),
            },
            Frame::Ping(bytes) => (
                self.does(Action::Send(Outbound::SocketPong(bytes))),
                Ok(None),
            ),
            Frame::Close => (
                self.stays(),
                Err(SessionError::Closed("the relay closed the socket"@)),
            ),
            Frame::Other => (self.stays(), Ok(None)),
        }
    }
}

/// The refusal of a request to open a terminal.
pub open spec fn declined(request_id: Seq<char>, reason: Seq<char>) -> ActionModel {
    Action::Send(Outbound::OpenDeclined { in_reply_to: request_id, reason })
}

/// A requested size, where one was requested.
pub open spec fn requested_size(value: Option<u32>) -> Option<u16> {
    match value {
        Some(value) => Some(as_size(value)),
        None => None,
    }
}

/// The views of a list of terminals.
pub open spec fn hosted_view(list: Seq<Hosted>) -> Seq<Hosted<Seq<char>>> {
    Seq::new(list.len(), |i: int| list[i]@)
}

/// Routes between the terminals of this machine and its one relay connection.
pub struct Multiplexer {
    terminals: Vec<Hosted>,
    opened: Vec<Uuid>,
    listening: bool,
}

impl View for Multiplexer {
    type V = MuxState;

    closed spec fn view(&self) -> MuxState {
        MuxState {
            terminals: hosted_view(self.terminals@),
            opened: self.opened@,
            listening: self.listening,
        }
    }
}

fn just(action: Action) -> (actions: Vec<Action>)
    ensures
        actions_view(actions@) == seq![action@],
{
    let mut actions: Vec<Action> = Vec::new();
    actions.push(action);
    assert(actions_view(actions@) =~= seq![action@]);
    actions
}

fn none() -> (actions: Vec<Action>)
    ensures
        actions_view(actions@) == Seq::<ActionModel>::empty(),
{
    let actions: Vec<Action> = Vec::new();
    assert(actions_view(actions@) =~= Seq::<ActionModel>::empty());
    actions
}

fn clamp_size(value: u32) -> (size: u16)
    ensures
        size == as_size(value),
{
    if value < 1 {
        1
    } else if value > 65535 {
        65535
    } else {
        value as u16
    }
}

/// The answer to a request that could not be taken because too many are waiting.
pub fn busy(request_id: &str) -> (action: Action)
    ensures
        action@ == declined(request_id@, "busy"@),
{
    decline(request_id, "busy")
}

fn decline(request_id: &str, reason: &str) -> (action: Action)
    ensures
        action@ == declined(request_id@, reason@),
{
    Action::Send(
        Outbound::OpenDeclined { in_reply_to: request_id.to_owned(), reason: reason.to_owned() },
    )
}

impl Hosted {
    fn new(spec: TerminalSpec) -> (hosted: Self)
        ensures
            hosted@ == hosted_of(spec@),
    {
        Hosted {
            local_ref: spec.local_ref,
            label: spec.label,
            cols: spec.cols,
            rows: spec.rows,
            term: spec.term,
            in_reply_to: spec.in_reply_to,
            terminal_id: None,
            closing: None,
        }
    }

    fn open_message(&self) -> (action: Action)
        ensures
            action@ == open_message(self@),
    {
        Action::Send(
            Outbound::Open {
                request_id: self.local_ref.as_str().to_owned(),
                local_ref: self.local_ref.as_str().to_owned(),
                label: self.label.as_str().to_owned(),
                cols: self.cols,
                rows: self.rows,
                term: self.term.as_str().to_owned(),
                in_reply_to: text::copy_option(&self.in_reply_to),
            },
        )
    }
}

impl Multiplexer {
    /// No two terminals share a reference.
    pub open spec fn wf(&self) -> bool {
        distinct_refs(self@.terminals)
    }

    /// A multiplexer without terminals. `listening` says whether somebody here hosts
    /// terminals on request.
    pub fn new(listening: bool) -> (mux: Self)
        ensures
            mux.wf(),
            mux@ == MuxState::empty(listening),
    {
        let mux = Self { terminals: Vec::new(), opened: Vec::new(), listening };
        assert(mux@.terminals =~= Seq::empty());
        assert(mux@.opened =~= Seq::empty());
        mux
    }

    fn find_ref(&self, local_ref: &str) -> (found: Option<usize>)
        ensures
            match found {
                Some(i) => index_of_ref(self@.terminals, local_ref@) == Some(i as int) && i
                    < self.terminals@.len(),
                None => index_of_ref(self@.terminals, local_ref@) is None,
            },
    {
        let ghost list = self@.terminals;
        let mut index: usize = 0;
        assert(list.take(0) =~= Seq::empty());
        while index < self.terminals.len()
            invariant
                index <= self.terminals@.len(),
                list == self@.terminals,
                list.len() == self.terminals@.len(),
                index_of_ref(list.take(index as int), local_ref@) is None,
            decreases self.terminals@.len() - index,
        {
            assert(list.take(index + 1).drop_last() =~= list.take(index as int));
            assert(list.take(index + 1).last() == self.terminals@[index as int]@);
            if text::same(self.terminals[index].local_ref.as_str(), local_ref) {
                proof {
                    lemma_found_ref(list, local_ref@, index as int);
                }
                return Some(index);
            }
            index = index + 1;
        }
        assert(list.take(index as int) =~= list);
        None
    }

    fn find_id(&self, id: Uuid) -> (found: Option<usize>)
        ensures
            match found {
                Some(i) => index_of_id(self@.terminals, id) == Some(i as int) && i
                    < self.terminals@.len(),
                None => index_of_id(self@.terminals, id) is None,
            },
    {
        let ghost list = self@.terminals;
        let mut index: usize = 0;
        assert(list.take(0) =~= Seq::empty());
        while index < self.terminals.len()
            invariant
                index <= self.terminals@.len(),
                list == self@.terminals,
                list.len() == self.terminals@.len(),
                index_of_id(list.take(index as int), id) is None,
            decreases self.terminals@.len() - index,
        {
            assert(list.take(index + 1).drop_last() =~= list.take(index as int));
            assert(list.take(index + 1).last() == self.terminals@[index as int]@);
            match self.terminals[index].terminal_id {
                Some(known) => {
                    if known == id {
                        proof {
                            lemma_found_id(list, id, index as int);
                        }
                        return Some(index);
                    }
                },
                None => {},
            }
            index = index + 1;
        }
        assert(list.take(index as int) =~= list);
        None
    }

    /// Whether nothing is hosted.
    pub fn idle(&self) -> (idle: bool)
        ensures
            idle == (self@.terminals.len() == 0),
    {
        self.terminals.len() == 0
    }

    /// How many terminals are hosted.
    pub fn count(&self) -> (count: usize)
        ensures
            count == self@.terminals.len(),
    {
        self.terminals.len()
    }

    /// Whether a terminal is hosted under the reference.
    pub fn hosts(&self, local_ref: &str) -> (hosts: bool)
        ensures
            hosts == (index_of_ref(self@.terminals, local_ref@) is Some),
    {
        self.find_ref(local_ref).is_some()
    }

    /// The reference of the terminal that the relay knows under `terminal_id`.
    pub fn local_ref_of(&self, terminal_id: Uuid) -> (local_ref: Option<String>)
        ensures
            option_view(local_ref) == match index_of_id(self@.terminals, terminal_id) {
                Some(i) => Some(self@.terminals[i].local_ref),
                None => None,
            },
    {
        match self.find_id(terminal_id) {
            Some(i) => Some(self.terminals[i].local_ref.as_str().to_owned()),
            None => None,
        }
    }

    /// Deliver to one terminal, and only that one. An event for a terminal that this
    /// connection does not own goes nowhere.
    pub fn deliver_to(&self, terminal_id: Uuid, event: Event) -> (actions: Vec<Action>)
        ensures
            self@.delivered(terminal_id, event@) == (Reaction {
                state: self@,
                actions: actions_view(actions@),
            }),
    {
        match self.find_id(terminal_id) {
            Some(i) => just(
                Action::Deliver { local_ref: self.terminals[i].local_ref.as_str().to_owned(), event },
            ),
            None => none(),
        }
    }

    /// A terminal has stopped reading its events. It is closed rather than fed with
    /// keystrokes that would be lost.
    pub fn unresponsive(&mut self, local_ref: &str)
        requires
            old(self).wf(),
        ensures
            final(self).wf(),
            final(self)@ == old(self)@.after_unresponsive(local_ref@),
    {
        match self.find_ref(local_ref) {
            Some(i) => self.mark(i, "publisher_unresponsive"),
            None => {},
        }
    }

    fn mark(&mut self, i: usize, reason: &str)
        requires
            i < old(self).terminals@.len(),
            old(self).wf(),
        ensures
            final(self).wf(),
            final(self)@ == old(self)@.with(
                i as int,
                marked(old(self)@.terminals[i as int], reason@),
            ),
    {
        let ghost before = self@;
        if self.terminals[i].closing.is_none() {
            self.terminals[i].closing = Some(reason.to_owned());
        }
        assert(self@.terminals =~= before.terminals.update(
            i as int,
            marked(before.terminals[i as int], reason@),
        ));
    }

    /// The connection is over for good: everyone is told, and nothing is hosted any
    /// more.
    pub fn end_all(&mut self, reason: &str) -> (actions: Vec<Action>)
        ensures
            final(self).wf(),
            old(self)@.ended(reason@) == (Reaction {
                state: final(self)@,
                actions: actions_view(actions@),
            }),
    {
        let ghost before = self@;
        let mut actions: Vec<Action> = Vec::new();
        let mut index: usize = 0;
        while index < self.terminals.len()
            invariant
                self@ == before,
                index <= self.terminals@.len(),
                actions@.len() == index,
                forall|i: int|
                    0 <= i < index ==> (#[trigger] actions@[i])@ == (ActionModel::Offer {
                        local_ref: before.terminals[i].local_ref,
                        event: Event::Ended(reason@),
                    }),
            decreases self.terminals@.len() - index,
        {
            actions.push(
                Action::Offer {
                    local_ref: self.terminals[index].local_ref.as_str().to_owned(),
                    event: Event::Ended(reason.to_owned()),
                },
            );
            index = index + 1;
        }
        assert(actions_view(actions@) =~= before.ended(reason@).actions);
        self.terminals.clear();
        assert(self@.terminals =~= Seq::empty());
        actions
    }

    /// The connection is gone. Nothing may be framed until the relay says again where
    /// each stream continues.
    pub fn disconnected(&mut self) -> (actions: Vec<Action>)
        requires
            old(self).wf(),
        ensures
            final(self).wf(),
            old(self)@.disconnected() == (Reaction {
                state: final(self)@,
                actions: actions_view(actions@),
            }),
    {
        let ghost before = self@;
        let mut actions: Vec<Action> = Vec::new();
        let mut index: usize = 0;
        while index < self.terminals.len()
            invariant
                self.terminals@.len() == before.terminals.len(),
                self.listening == before.listening,
                index <= self.terminals@.len(),
                actions@.len() == index,
                forall|i: int|
                    0 <= i < index ==> (#[trigger] actions@[i])@ == (ActionModel::Offer {
                        local_ref: before.terminals[i].local_ref,
                        event: Event::Detached,
                    }),
                forall|i: int|
                    0 <= i < index ==> (#[trigger] self.terminals@[i])@ == (Hosted {
                        terminal_id: None,
                        ..before.terminals[i]
                    }),
                forall|i: int|
                    index <= i < self.terminals@.len() ==> (#[trigger] self.terminals@[i])@
                        == before.terminals[i],
            decreases self.terminals@.len() - index,
        {
            self.terminals[index].terminal_id = None;
            actions.push(
                Action::Offer {
                    local_ref: self.terminals[index].local_ref.as_str().to_owned(),
                    event: Event::Detached,
                },
            );
            index = index + 1;
        }
        self.opened.clear();
        assert(actions_view(actions@) =~= before.disconnected().actions);
        assert(self@.terminals =~= before.disconnected().state.terminals);
        assert(self@.opened =~= Seq::empty());
        actions
    }

    /// A new connection: every terminal is opened up front. The relay knows them by
    /// their references and hands the same identifiers back, which is what makes a
    /// dropped connection an interruption rather than a new set of terminals.
    pub fn reopen_all(&mut self) -> (actions: Vec<Action>)
        requires
            old(self).wf(),
        ensures
            final(self).wf(),
            old(self)@.reopened() == (Reaction {
                state: final(self)@,
                actions: actions_view(actions@),
            }),
    {
        let ghost before = self@;
        let mut actions: Vec<Action> = Vec::new();
        let mut index: usize = 0;
        while index < self.terminals.len()
            invariant
                self.terminals@.len() == before.terminals.len(),
                self.listening == before.listening,
                self.opened@ == before.opened,
                index <= self.terminals@.len(),
                actions@.len() == index,
                forall|i: int|
                    0 <= i < index ==> (#[trigger] actions@[i])@ == open_message(
                        before.terminals[i],
                    ),
                forall|i: int|
                    0 <= i < index ==> (#[trigger] self.terminals@[i])@ == opened_once(
                        before.terminals[i],
                    ),
                forall|i: int|
                    index <= i < self.terminals@.len() ==> (#[trigger] self.terminals@[i])@
                        == before.terminals[i],
            decreases self.terminals@.len() - index,
        {
            actions.push(self.terminals[index].open_message());
            self.terminals[index].in_reply_to = None;
            index = index + 1;
        }
        assert(actions_view(actions@) =~= before.reopened().actions);
        assert(self@.terminals =~= before.reopened().state.terminals);
        actions
    }
}

impl Multiplexer {
    fn resize(&mut self, i: usize, cols: u16, rows: u16)
        requires
            i < old(self).terminals@.len(),
            old(self).wf(),
        ensures
            final(self).wf(),
            final(self)@ == old(self)@.with(
                i as int,
                Hosted { cols, rows, ..old(self)@.terminals[i as int] },
            ),
    {
        let ghost before = self@;
        self.terminals[i].cols = cols;
        self.terminals[i].rows = rows;
        assert(self@.terminals =~= before.terminals.update(
            i as int,
            Hosted { cols, rows, ..before.terminals[i as int] },
        ));
    }

    fn forget(&mut self, i: usize)
        requires
            i < old(self).terminals@.len(),
            old(self).wf(),
        ensures
            final(self).wf(),
            final(self)@ == old(self)@.without(i as int),
    {
        let ghost before = self@;
        self.terminals.remove(i);
        assert(self@.terminals =~= before.terminals.remove(i as int));
        assert forall|a: int, b: int| 0 <= a < b < self@.terminals.len() implies #[trigger] self@.terminals[a].local_ref
            != #[trigger] self@.terminals[b].local_ref by {
            let a0 = if a < i { a } else { a + 1 };
            let b0 = if b < i { b } else { b + 1 };
            assert(before.terminals[a0].local_ref != before.terminals[b0].local_ref);
        }
    }

    fn join(&mut self, hosted: Hosted)
        requires
            old(self).wf(),
            index_of_ref(old(self)@.terminals, hosted@.local_ref) is None,
        ensures
            final(self).wf(),
            final(self)@ == (MuxState {
                terminals: old(self)@.terminals.push(hosted@),
                ..old(self)@
            }),
    {
        let ghost before = self@;
        proof {
            lemma_index_of_ref(before.terminals, hosted@.local_ref);
        }
        self.terminals.push(hosted);
        assert(self@.terminals =~= before.terminals.push(hosted@));
    }

    /// Apply a local request that arrived while there was no connection.
    pub fn stash(&mut self, control: Control) -> (actions: Vec<Action>)
        requires
            old(self).wf(),
        ensures
            final(self).wf(),
            old(self)@.stashed(control@) == (Reaction {
                state: final(self)@,
                actions: actions_view(actions@),
            }),
    {
        match control {
            Control::Open(spec) => {
                let hosted = Hosted::new(spec);
                match self.find_ref(hosted.local_ref.as_str()) {
                    Some(i) => {
                        let ghost before = self@;
                        proof {
                            lemma_index_of_ref(before.terminals, hosted@.local_ref);
                        }
                        self.terminals.set(i, hosted);
                        assert(self@.terminals =~= before.terminals.update(i as int, hosted@));
                    },
                    None => self.join(hosted),
                }
                none()
            },
            Control::Resize { local_ref, cols, rows } => {
                match self.find_ref(local_ref.as_str()) {
                    Some(i) => self.resize(i, cols, rows),
                    None => {},
                }
                none()
            },
            Control::Close { local_ref, reason } => match self.find_ref(local_ref.as_str()) {
                Some(i) => {
                    self.mark(i, reason.as_str());
                    just(
                        Action::Offer {
                            local_ref,
                            event: Event::Ended(TERMINAL_ENDED.to_owned()),
                        },
                    )
                },
                None => none(),
            },
            Control::Decline { request_id, reason } => none(),
            Control::Output { local_ref, start_offset, bytes } => none(),
        }
    }

    /// Apply a local request on a live connection.
    pub fn on_control(&mut self, message: Control, limits: Limits, max_terminals: u64) -> (actions:
        Vec<Action>)
        requires
            old(self).wf(),
            limits.max_output_frame_bytes > 0,
            message matches Control::Output { local_ref, start_offset, bytes } ==> start_offset
                + bytes@.len() <= u64::MAX,
        ensures
            final(self).wf(),
            old(self)@.controlled(message@, limits, max_terminals) == (Reaction {
                state: final(self)@,
                actions: actions_view(actions@),
            }),
    {
        match message {
            Control::Open(spec) => {
                if self.terminals.len() as u64 >= max_terminals {
                    let words = "this machine already has the relay's limit of ".to_owned();
                    let words = words.concat(text::decimal_of(max_terminals).as_str());
                    let words = words.concat(" terminals open");
                    return just(Action::RefuseOpen(Event::Ended(words)));
                }
                if self.find_ref(spec.local_ref.as_str()).is_some() {
                    // Two shells under one reference would be put onto one offset
                    // stream at the relay and interleave byte by byte.
                    let words = "that terminal reference is already in use".to_owned();
                    return just(Action::RefuseOpen(Event::Ended(words)));
                }
                let mut hosted = Hosted::new(spec);
                let open = hosted.open_message();
                hosted.in_reply_to = None;
                self.join(hosted);
                just(open)
            },
            Control::Output { local_ref, start_offset, bytes } => match self.find_ref(
                local_ref.as_str(),
            ) {
                Some(i) => match self.terminals[i].terminal_id {
                    Some(id) => frame_output(
                        id,
                        start_offset,
                        bytes.as_slice(),
                        limits.max_output_frame_bytes,
                    ),
                    // Not attached: the bytes are retained by the terminal's owner and
                    // offered again from wherever the relay says the stream continues.
                    None => none(),
                },
                None => none(),
            },
            Control::Resize { local_ref, cols, rows } => match self.find_ref(local_ref.as_str()) {
                Some(i) => {
                    let terminal_id = self.terminals[i].terminal_id;
                    self.resize(i, cols, rows);
                    match terminal_id {
                        Some(terminal_id) => just(
                            Action::Send(Outbound::Resize { terminal_id, cols, rows }),
                        ),
                        None => none(),
                    }
                },
                None => none(),
            },
            Control::Close { local_ref, reason } => match self.find_ref(local_ref.as_str()) {
                Some(i) => {
                    // The local side is finished, so its owner hears of it now rather
                    // than when the relay has been told.
                    self.mark(i, reason.as_str());
                    just(
                        Action::Deliver {
                            local_ref,
                            event: Event::Ended(TERMINAL_ENDED.to_owned()),
                        },
                    )
                },
                None => none(),
            },
            Control::Decline { request_id, reason } => just(
                decline(request_id.as_str(), reason.as_str()),
            ),
        }
    }

    fn find_named(&self, terminal_id: Option<Uuid>, request_id: &Option<String>) -> (found: Option<
        usize,
    >)
        ensures
            match found {
                Some(i) => self@.named(terminal_id, option_view(*request_id)) == Some(i as int) && i
                    < self.terminals@.len(),
                None => self@.named(terminal_id, option_view(*request_id)) is None,
            },
    {
        match terminal_id {
            Some(id) => {
                let found = self.find_id(id);
                if found.is_some() {
                    return found;
                }
            },
            None => {},
        }
        match request_id {
            Some(local_ref) => self.find_ref(local_ref.as_str()),
            None => None,
        }
    }

    /// An error from the relay. Returns whether it was about a terminal; if it was not,
    /// it is about the connection. One terminal's problem is that terminal's problem: an
    /// error that names one never takes the others down with it.
    pub fn on_terminal_error(
        &mut self,
        code: &str,
        message: &str,
        terminal_id: Option<Uuid>,
        request_id: &Option<String>,
        authoritative: Option<u64>,
    ) -> (result: (Vec<Action>, bool))
        requires
            old(self).wf(),
        ensures
            final(self).wf(),
            old(self)@.refused(
                code@,
                message@,
                terminal_id,
                option_view(*request_id),
                authoritative,
            ) == (
                Reaction { state: final(self)@, actions: actions_view(result.0@) },
                result.1,
            ),
    {
        match self.find_named(terminal_id, request_id) {
            None => (none(), terminal_id.is_some() || request_id.is_some()),
            Some(i) => {
                let local_ref = self.terminals[i].local_ref.as_str().to_owned();
                if text::same(code, "offset_mismatch") {
                    match authoritative {
                        Some(next_offset) => {
                            // The relay did not append and has said exactly where it
                            // is. The owner holds the bytes and decides.
                            let event = Event::Mismatch { next_offset };
                            return (just(Action::Offer { local_ref, event }), true);
                        },
                        None => {},
                    }
                }
                let terminal_id = self.terminals[i].terminal_id;
                self.forget(i);
                let words = code.to_owned().concat(": ").concat(message);
                let told = Action::Offer { local_ref, event: Event::Ended(words) };
                match terminal_id {
                    Some(terminal_id) => {
                        let close = Action::Send(
                            Outbound::Close { terminal_id, reason: "publisher_error".to_owned() },
                        );
                        let mut actions = just(close);
                        let ghost one = actions_view(actions@);
                        actions.push(told);
                        assert(actions_view(actions@) =~= one.push(told@));
                        assert(one.push(told@) =~= seq![close@, told@]);
                        (actions, true)
                    },
                    None => (just(told), true),
                }
            },
        }
    }

    fn on_open_request(
        &self,
        request_id: String,
        label: Option<String>,
        cols: Option<u32>,
        rows: Option<u32>,
        allow_remote_open: bool,
    ) -> (actions: Vec<Action>)
        ensures
            self@.asked(request_id@, option_view(label), cols, rows, allow_remote_open) == (
            Reaction { state: self@, actions: actions_view(actions@) }),
    {
        // Refused here as well as at the relay, which is not trusted to have checked:
        // this is the process that would do the spawning.
        if !allow_remote_open {
            return just(decline(request_id.as_str(), "not_permitted"));
        }
        if !self.listening {
            return just(decline(request_id.as_str(), "unsupported"));
        }
        let cols: Option<u16> = match cols {
            Some(cols) => Some(clamp_size(cols)),
            None => None,
        };
        let rows: Option<u16> = match rows {
            Some(rows) => Some(clamp_size(rows)),
            None => None,
        };
        just(Action::Forward(OpenRequest { request_id, label, cols, rows }))
    }

    fn on_message(
        &mut self,
        message: ServerMessage,
        limits: Limits,
        allow_remote_open: bool,
    ) -> (result: (Vec<Action>, Verdict<String>))
        requires
            old(self).wf(),
        ensures
            final(self).wf(),
            old(self)@.told(message@, limits, allow_remote_open) == (
                Reaction { state: final(self)@, actions: actions_view(result.0@) },
                verdict_view(result.1),
            ),
    {
        match message {
            ServerMessage::TerminalOpened {
                request_id,
                terminal_id,
                next_offset,
                durable_offset,
                accepts_input,
            } => {
                // Correlated strictly by the request, which is this side's reference:
                // several terminals can be opening at once, and matching by position
                // would hand one shell another's stream.
                match self.find_ref(request_id.as_str()) {
                    Some(i) => {
                        let ghost before = self@;
                        self.terminals[i].terminal_id = Some(terminal_id);
                        self.opened.push(terminal_id);
                        assert(self@.terminals =~= before.terminals.update(
                            i as int,
                            Hosted {
                                terminal_id: Some(terminal_id),
                                ..before.terminals[i as int]
                            },
                        ));
                        let event = Event::Attached { terminal_id, next_offset, limits };
                        (just(Action::Deliver { local_ref: request_id, event }), Ok(None))
                    },
                    None => (none(), Ok(None)),
                }
            },
            ServerMessage::OutputAck { terminal_id, durable_offset, next_offset } => (
                self.deliver_to(terminal_id, Event::Ack { durable_offset }),
                Ok(None),
            ),
            ServerMessage::TerminalOpenRequest { request_id, label, cols, rows } => (
                self.on_open_request(request_id, label, cols, rows, allow_remote_open),
                Ok(None),
            ),
            ServerMessage::TerminalResizeRequest { terminal_id, cols, rows } => (
                self.deliver_to(
                    terminal_id,
                    Event::ResizeRequest { cols: clamp_size(cols), rows: clamp_size(rows) },
                ),
                Ok(None),
            ),
            ServerMessage::TerminalClosed { terminal_id, reason } => match self.find_id(
                terminal_id,
            ) {
                Some(i) => {
                    let local_ref = self.terminals[i].local_ref.as_str().to_owned();
                    self.forget(i);
                    let words = "the relay closed the terminal: ".to_owned().concat(
                        reason.as_str(),
                    );
                    (just(Action::Offer { local_ref, event: Event::Ended(words) }), Ok(None))
                },
                None => (none(), Ok(None)),
            },
            ServerMessage::Error {
                code,
                message,
                terminal_id,
                request_id,
                next_offset,
                durable_offset,
            } => {
                if text::same(code.as_str(), "superseded") {
                    // Reconnecting would take the device straight back, and the two
                    // would trade it for as long as both ran. Stopping is the only
                    // behaviour that converges.
                    return (none(), Ok(Some(SUPERSEDED.to_owned())));
                }
                let (actions, handled) = self.on_terminal_error(
                    code.as_str(),
                    message.as_str(),
                    terminal_id,
                    &request_id,
                    next_offset,
                );
                if handled {
                    (actions, Ok(None))
                } else {
                    let words = code.concat(": ").concat(message.as_str());
                    (actions, Err(SessionError::Refused(words)))
                }
            },
            ServerMessage::Ping { at_unix_ms } => (
                just(Action::Send(Outbound::Pong { at_unix_ms })),
                Ok(None),
            ),
            ServerMessage::Ready { connection_id, limits } => (none(), Ok(None)),
            ServerMessage::Notice { code, message } => (none(), Ok(None)),
            ServerMessage::Unrecognised => (none(), Ok(None)),
        }
    }

    /// Something arrived on the socket. `Ok(Some(reason))` says that the connection is
    /// over for good.
    pub fn on_frame(&mut self, frame: Frame, limits: Limits, allow_remote_open: bool) -> (result: (
        Vec<Action>,
        Verdict<String>,
    ))
        requires
            old(self).wf(),
        ensures
            final(self).wf(),
            old(self)@.received(frame@, limits, allow_remote_open) == (
                Reaction { state: final(self)@, actions: actions_view(result.0@) },
                verdict_view(result.1),
            ),
    {
        match frame {
            Frame::Text(Some(message)) => self.on_message(message, limits, allow_remote_open),
            Frame::Text(None) => (none(), Ok(None)),
            Frame::Binary(bytes) => match decode_input_frame(bytes.as_slice()) {
                // Routed by terminal, which is the point of multiplexing: the relay
                // addresses input to a device, and only this connection knows which of
                // its terminals owns it.
                Ok(input) => (
                    self.deliver_to(input.terminal_id, Event::Input(input.payload)),
                    Ok(None),
                ),
                Err(error) => (none(), Ok(None)),
            },
            Frame::Ping(bytes) => (just(Action::Send(Outbound::SocketPong(bytes))), Ok(None)),
            Frame::Close => (
                none(),
                Err(SessionError::Closed("the relay closed the socket".to_owned())),
            ),
            Frame::Other => (none(), Ok(None)),
        }
    }
}

impl Multiplexer {
    /// Tell the relay about terminals whose local side has finished, and forget them.
    ///
    /// A terminal that has not been opened yet is left alone. Its open is already on the
    /// way, so the relay is about to have a terminal with nothing behind it; forgetting
    /// it here would mean never closing it. It is closed on the pass after the relay has
    /// opened it.
    pub fn close_finished(&mut self) -> (actions: Vec<Action>)
        requires
            old(self).wf(),
        ensures
            final(self).wf(),
            final(self)@ == (MuxState { terminals: unfinished(old(self)@.terminals), ..old(self)@ }),
            actions_view(actions@) == closings(old(self)@.terminals),
    {
        let ghost before = self@;
        let ghost list = before.terminals;
        let mut actions: Vec<Action> = Vec::new();
        let mut index: usize = 0;
        let ghost mut seen: int = 0;
        assert(list.take(0) =~= Seq::empty());
        assert(self@.terminals =~= unfinished(list.take(0)) + list.skip(0));
        assert(actions_view(actions@) =~= closings(list.take(0)));
        while index < self.terminals.len()
            invariant
                0 <= index <= self.terminals@.len(),
                0 <= seen <= list.len(),
                self.opened@ == before.opened,
                self.listening == before.listening,
                list == before.terminals,
                self@.terminals == unfinished(list.take(seen)) + list.skip(seen),
                index == unfinished(list.take(seen)).len(),
                actions_view(actions@) == closings(list.take(seen)),
            decreases self.terminals@.len() - index,
        {
            let ghost kept = unfinished(list.take(seen));
            let ghost current = self@.terminals;
            proof {
                assert(current[index as int] == list[seen]);
                assert(current[index as int] == self.terminals@[index as int]@);
                assert(list.take(seen + 1).drop_last() =~= list.take(seen));
                assert(list.take(seen + 1).last() == list[seen]);
            }
            match self.terminals[index].terminal_id {
                Some(terminal_id) if self.terminals[index].closing.is_some() => {
                    let hosted = self.terminals.remove(index);
                    let ghost sent = actions_view(actions@);
                    match hosted.closing {
                        Some(reason) => {
                            let close = Action::Send(Outbound::Close { terminal_id, reason });
                            let told = Action::Offer {
                                local_ref: hosted.local_ref,
                                event: Event::Ended(TERMINAL_ENDED.to_owned()),
                            };
                            actions.push(close);
                            actions.push(told);
                            assert(actions_view(actions@) =~= sent + seq![close@, told@]);
                        },
                        None => {
                            assert(false);
                        },
                    }
                    assert(self@.terminals =~= current.remove(index as int));
                    assert(self@.terminals =~= kept + list.skip(seen + 1));
                },
                _ => {
                    index = index + 1;
                    assert(self@.terminals =~= kept.push(list[seen]) + list.skip(seen + 1));
                },
            }
            proof {
                seen = seen + 1;
            }
        }
        proof {
            assert(seen == list.len());
            assert(list.take(seen) =~= list);
            assert(self@.terminals =~= unfinished(list));
            lemma_unfinished_distinct(list);
        }
        actions
    }

    /// While there is no connection, a terminal that ends is forgotten rather than
    /// reopened.
    pub fn forget_finished(&mut self)
        requires
            old(self).wf(),
        ensures
            final(self).wf(),
            final(self)@ == (MuxState { terminals: unmarked(old(self)@.terminals), ..old(self)@ }),
    {
        let ghost before = self@;
        let ghost list = before.terminals;
        let mut index: usize = 0;
        let ghost mut seen: int = 0;
        assert(list.take(0) =~= Seq::empty());
        assert(self@.terminals =~= unmarked(list.take(0)) + list.skip(0));
        while index < self.terminals.len()
            invariant
                0 <= index <= self.terminals@.len(),
                0 <= seen <= list.len(),
                self.opened@ == before.opened,
                self.listening == before.listening,
                list == before.terminals,
                self@.terminals == unmarked(list.take(seen)) + list.skip(seen),
                index == unmarked(list.take(seen)).len(),
            decreases self.terminals@.len() - index,
        {
            let ghost kept = unmarked(list.take(seen));
            let ghost current = self@.terminals;
            proof {
                assert(current[index as int] == list[seen]);
                assert(current[index as int] == self.terminals@[index as int]@);
                assert(list.take(seen + 1).drop_last() =~= list.take(seen));
                assert(list.take(seen + 1).last() == list[seen]);
            }
            if self.terminals[index].closing.is_some() {
                self.terminals.remove(index);
                assert(self@.terminals =~= current.remove(index as int));
                assert(self@.terminals =~= kept + list.skip(seen + 1));
            } else {
                index = index + 1;
                assert(self@.terminals =~= kept.push(list[seen]) + list.skip(seen + 1));
            }
            proof {
                seen = seen + 1;
            }
        }
        proof {
            assert(seen == list.len());
            assert(list.take(seen) =~= list);
            assert(self@.terminals =~= unmarked(list));
            lemma_unmarked_distinct(list);
        }
    }

    /// Why the connection is over, once nobody is left to publish anything and nobody
    /// can join.
    pub fn over(&self, accepting: bool) -> (reason: Option<&'static str>)
        ensures
            option_view(reason) == (if self@.terminals.len() == 0 && !accepting {
                Some("the last terminal ended"@)
            } else {
                None
            }),
    {
        if self.idle() && !accepting {
            Some("the last terminal ended")
        } else {
            None
        }
    }

    /// Close what an earlier run left behind: anything open for this device that this
    /// connection does not own. A device holds one publisher connection, so there is no
    /// process behind them, and a subscriber could attach to one and type into nothing.
    pub fn sweep_orphans(&self, previously_open: &[Uuid]) -> (actions: Vec<Action>)
        ensures
            actions_view(actions@) == orphan_closes(previously_open@, self@.opened),
    {
        let mut actions: Vec<Action> = Vec::new();
        let mut index: usize = 0;
        assert(previously_open@.take(0) =~= Seq::empty());
        assert(actions_view(actions@) =~= orphan_closes(previously_open@.take(0), self@.opened));
        while index < previously_open.len()
            invariant
                index <= previously_open@.len(),
                actions_view(actions@) == orphan_closes(
                    previously_open@.take(index as int),
                    self@.opened,
                ),
            decreases previously_open@.len() - index,
        {
            let orphan = previously_open[index];
            let ghost sent = actions_view(actions@);
            proof {
                let longer = previously_open@.take(index + 1);
                assert(longer.drop_last() =~= previously_open@.take(index as int));
                assert(longer.last() == orphan);
            }
            if !self.has_opened(orphan) {
                let close = Action::Send(
                    Outbound::Close {
                        terminal_id: orphan,
                        reason: "publisher_replaced".to_owned(),
                    },
                );
                actions.push(close);
                assert(actions_view(actions@) =~= sent.push(close@));
            }
            index = index + 1;
        }
        assert(previously_open@.take(index as int) =~= previously_open@);
        actions
    }

    fn has_opened(&self, id: Uuid) -> (has: bool)
        ensures
            has == self@.opened.contains(id),
    {
        let mut index: usize = 0;
        while index < self.opened.len()
            invariant
                index <= self.opened@.len(),
                forall|i: int| 0 <= i < index ==> self.opened@[i] != id,
            decreases self.opened@.len() - index,
        {
            if self.opened[index] == id {
                assert(self@.opened[index as int] == id);
                return true;
            }
            index = index + 1;
        }
        false
    }
}

/// Leaving terminals out keeps the references distinct.
proof fn lemma_unfinished_distinct(list: Seq<Hosted<Seq<char>>>)
    requires
        distinct_refs(list),
    ensures
        distinct_refs(unfinished(list)),
        forall|i: int|
            0 <= i < unfinished(list).len() ==> list.contains(#[trigger] unfinished(list)[i]),
    decreases list.len(),
{
    if list.len() > 0 {
        let shorter = list.drop_last();
        let last = list.last();
        assert(distinct_refs(shorter)) by {
            assert forall|i: int, j: int| 0 <= i < j < shorter.len() implies #[trigger] shorter[i].local_ref
                != #[trigger] shorter[j].local_ref by {
                assert(list[i].local_ref != list[j].local_ref);
            }
        }
        lemma_unfinished_distinct(shorter);
        let kept = unfinished(shorter);
        assert forall|i: int| 0 <= i < kept.len() implies list.contains(#[trigger] kept[i])
            && kept[i].local_ref != last.local_ref by {
            let k = shorter.index_of(kept[i]);
            assert(shorter[k] == kept[i] && 0 <= k < shorter.len());
            assert(list[k] == kept[i]);
            assert(list[k].local_ref != list[list.len() - 1].local_ref);
        }
        assert(list[list.len() - 1] == last);
    }
}

/// Leaving terminals out keeps the references distinct.
proof fn lemma_unmarked_distinct(list: Seq<Hosted<Seq<char>>>)
    requires
        distinct_refs(list),
    ensures
        distinct_refs(unmarked(list)),
        forall|i: int|
            0 <= i < unmarked(list).len() ==> list.contains(#[trigger] unmarked(list)[i]),
    decreases list.len(),
{
    if list.len() > 0 {
        let shorter = list.drop_last();
        let last = list.last();
        assert(distinct_refs(shorter)) by {
            assert forall|i: int, j: int| 0 <= i < j < shorter.len() implies #[trigger] shorter[i].local_ref
                != #[trigger] shorter[j].local_ref by {
                assert(list[i].local_ref != list[j].local_ref);
            }
        }
        lemma_unmarked_distinct(shorter);
        let kept = unmarked(shorter);
        assert forall|i: int| 0 <= i < kept.len() implies list.contains(#[trigger] kept[i])
            && kept[i].local_ref != last.local_ref by {
            let k = shorter.index_of(kept[i]);
            assert(shorter[k] == kept[i] && 0 <= k < shorter.len());
            assert(list[k] == kept[i]);
            assert(list[k].local_ref != list[list.len() - 1].local_ref);
        }
        assert(list[list.len() - 1] == last);
    }
}

/// How long to wait before the given attempt to reconnect: half a second doubled with
/// every attempt, and never more than half a minute.
pub fn retry_delay_ms(attempt: u32) -> (delay: u64)
    ensures
        delay == delay_before(500, attempt as nat),
{
    backoff_ms(500, attempt)
}

/// Messages that can wait for the socket.
pub const WRITER_QUEUE: usize = 256;

/// Places in that queue which the reader keeps back for its own replies, pongs above all:
/// a dropped pong is a heartbeat timeout and a dropped connection.
pub const WRITER_RESERVE: usize = 32;

/// Whether a local request is taken now, given how many places the queue has left.
pub fn may_accept(accepting: bool, capacity: usize) -> (may: bool)
    ensures
        may == (accepting && capacity > WRITER_RESERVE),
{
    accepting && capacity > WRITER_RESERVE
}

/// The identifiers among some texts, in order; what is none is left out.
pub open spec fn ids_among(list: Seq<Seq<char>>) -> Seq<Uuid>
    decreases list.len(),
{
    if list.len() == 0 {
        Seq::empty()
    } else {
        match uuid_value(list.last()) {
            Some(value) => ids_among(list.drop_last()).push(Uuid { value }),
            None => ids_among(list.drop_last()),
        }
    }
}

/// The terminals that the relay lists, by their identifiers. Finding them is best effort:
/// what cannot be read is left out.
pub fn list_open(listed: &Vec<String>) -> (ids: Vec<Uuid>)
    ensures
        ids@ == ids_among(texts(listed@)),
{
    let ghost all = texts(listed@);
    let mut ids: Vec<Uuid> = Vec::new();
    let mut index: usize = 0;
    while index < listed.len()
        invariant
            index <= listed@.len(),
            all == texts(listed@),
            ids@ == ids_among(all.take(index as int)),
        decreases listed@.len() - index,
    {
        proof {
            let front = all.take(index + 1);
            assert(front.drop_last() =~= all.take(index as int));
            assert(front.last() == listed@[index as int]@);
        }
        match Uuid::parse_str(listed[index].as_str()) {
            Some(id) => ids.push(id),
            None => {},
        }
        index = index + 1;
    }
    assert(all.take(all.len() as int) =~= all);
    ids
}

/// The sending half of one terminal.
#[derive(Debug)]
pub struct TerminalSink {
    local_ref: String,
    open: bool,
}

/// The sending half of one terminal, over sequences.
pub struct Sink {
    pub local_ref: Seq<char>,
    /// There may be more to publish.
    pub open: bool,
}

impl View for TerminalSink {
    type V = Sink;

    closed spec fn view(&self) -> Sink {
        Sink { local_ref: self.local_ref@, open: self.open }
    }
}

/// What becomes of something that was handed to a terminal's sending half.
#[derive(Debug)]
pub enum Handed<C = Control> {
    /// There was nothing to pass on.
    Nothing,
    /// The terminal takes nothing any more.
    Refused,
    /// This is to be sent, waiting for room.
    Send(C),
}

impl View for Handed {
    type V = Handed<Control<Seq<char>, Seq<u8>>>;

    open spec fn view(&self) -> Handed<Control<Seq<char>, Seq<u8>>> {
        match self {
            Handed::Nothing => Handed::Nothing,
            Handed::Refused => Handed::Refused,
            Handed::Send(control) => Handed::Send(control@),
        }
    }
}

impl Sink {
    pub open spec fn published(self, start_offset: u64, bytes: Seq<u8>) -> Handed<
        Control<Seq<char>, Seq<u8>>,
    > {
        if bytes.len() == 0 {
            Handed::Nothing
        } else if !self.open {
            Handed::Refused
        } else {
            Handed::Send(Control::Output { local_ref: self.local_ref, start_offset, bytes })
        }
    }

    pub open spec fn resized(self, cols: u16, rows: u16) -> Handed<Control<Seq<char>, Seq<u8>>> {
        if !self.open {
            Handed::Refused
        } else {
            Handed::Send(Control::Resize { local_ref: self.local_ref, cols, rows })
        }
    }

    pub open spec fn shut(self) -> Sink {
        Sink { open: false, ..self }
    }

    pub open spec fn farewell(self) -> Option<Control<Seq<char>, Seq<u8>>> {
        if self.open {
            Some(Control::Close { local_ref: self.local_ref, reason: "process_exited"@ })
        } else {
            None
        }
    }
}

impl TerminalSink {
    /// The sending half of the terminal with this reference.
    pub fn new(local_ref: String) -> (sink: Self)
        ensures
            sink@ == (Sink { local_ref: local_ref@, open: true }),
    {
        Self { local_ref, open: true }
    }

    /// Publishes `bytes`, which begin at `start_offset` in the terminal's stream.
    pub fn publish(&self, start_offset: u64, bytes: Vec<u8>) -> (handed: Handed)
        ensures
            handed@ == self@.published(start_offset, bytes@),
    {
        if bytes.len() == 0 {
            return Handed::Nothing;
        }
        if !self.open {
            return Handed::Refused;
        }
        Handed::Send(
            Control::Output { local_ref: self.local_ref.as_str().to_owned(), start_offset, bytes },
        )
    }

    /// Declares a new size. Subscribers are told; they do not decide.
    pub fn resize(&self, cols: u16, rows: u16) -> (handed: Handed)
        ensures
            handed@ == self@.resized(cols, rows),
    {
        if !self.open {
            return Handed::Refused;
        }
        Handed::Send(Control::Resize { local_ref: self.local_ref.as_str().to_owned(), cols, rows })
    }

    /// Stops publishing: gives the request that closes the terminal, the first time. A
    /// terminal that is merely abandoned stays open for the relay's whole grace period,
    /// and a subscriber can type into nothing.
    pub fn begin_shutdown(&mut self) -> (close: Option<Control>)
        ensures
            final(self)@ == old(self)@.shut(),
            option_view(close) == old(self)@.farewell(),
    {
        if !self.open {
            return None;
        }
        self.open = false;
        Some(
            Control::Close {
                local_ref: self.local_ref.as_str().to_owned(),
                reason: "process_exited".to_owned(),
            },
        )
    }
}

/// Nothing follows a terminal's close: once its sending half is shut it publishes
/// nothing, declares no size and closes nothing again.
pub proof fn law_nothing_follows_a_close(
    sink: Sink,
    start_offset: u64,
    bytes: Seq<u8>,
    cols: u16,
    rows: u16,
)
    ensures
        !(sink.shut().published(start_offset, bytes) is Send),
        !(sink.shut().resized(cols, rows) is Send),
        sink.shut().farewell() is None,
        sink.shut().shut() == sink.shut(),
{
}

/// The limits that the relay announced, as this side applies them: never below the
/// smallest that it can mean.
pub open spec fn applied(limits: protocol::Limits) -> (Limits, u64) {
    (
        Limits {
            max_output_frame_bytes: if limits.max_output_frame_bytes < 1024 {
                1024
            } else {
                limits.max_output_frame_bytes
            },
            max_unacked_output_bytes: if limits.max_unacked_output_bytes < 65536 {
                65536
            } else {
                limits.max_unacked_output_bytes
            },
        },
        if limits.max_active_terminals == 0 {
            u64::MAX
        } else {
            limits.max_active_terminals
        },
    )
}

/// The limits for this connection, and how many terminals it may carry.
pub fn apply_limits(limits: protocol::Limits) -> (result: (Limits, u64))
    ensures
        result == applied(limits),
{
    let frame: u64 = if limits.max_output_frame_bytes < 1024 {
        1024
    } else {
        limits.max_output_frame_bytes
    };
    let unacked: u64 = if limits.max_unacked_output_bytes < 65536 {
        65536
    } else {
        limits.max_unacked_output_bytes
    };
    let terminals: u64 = if limits.max_active_terminals == 0 {
        u64::MAX
    } else {
        limits.max_active_terminals
    };
    (Limits { max_output_frame_bytes: frame, max_unacked_output_bytes: unacked }, terminals)
}

/// What a message before the connection is ready comes to.
#[derive(Debug)]
pub enum Greeting {
    Ready(protocol::Limits),
    Refused(SessionError),
    /// Neither: go on waiting.
    Wait,
}

/// The first messages of a connection: wait until the relay is ready or refuses.
pub fn on_greeting(message: &Option<ServerMessage>) -> (greeting: Greeting)
    ensures
        match option_view(*message) {
            Some(ServerMessage::Ready { connection_id, limits }) => greeting == Greeting::Ready(
                limits,
            ),
            Some(
                ServerMessage::Error {
                    code,
                    message,
                    terminal_id,
                    request_id,
                    next_offset,
                    durable_offset,
                },
            ) => greeting matches Greeting::Refused(error) && error@ == SessionError::Refused(
                code + ": "@ + message,
            ),
            _ => greeting is Wait,
        },
{
    match message {
        Some(ServerMessage::Ready { connection_id, limits }) => Greeting::Ready(*limits),
        Some(
            ServerMessage::Error {
                code,
                message,
                terminal_id,
                request_id,
                next_offset,
                durable_offset,
            },
        ) => {
            let words = code.as_str().to_owned().concat(": ").concat(message.as_str());
            Greeting::Refused(SessionError::Refused(words))
        },
        _ => Greeting::Wait,
    }
}

/// Version 2 is what carries input. With anything else every terminal here would be
/// read-only and every keystroke silently discarded, so the connection is refused rather
/// than a mirror kept that cannot be typed into.
pub fn check_subprotocol(negotiated: &str) -> (refusal: Option<SessionError>)
    ensures
        refusal is Some <==> negotiated@ != SUBPROTOCOL_V2@,
        refusal is Some ==> refusal->0@ == SessionError::Refused(
            "the relay selected "@ + quoted_text(negotiated@)
                + ", which cannot carry terminal input"@,
        ),
{
    if text::same(negotiated, SUBPROTOCOL_V2) {
        return None;
    }
    let words = "the relay selected ".to_owned().concat(text::quoted(negotiated).as_str());
    Some(SessionError::Refused(words.concat(", which cannot carry terminal input")))
}

/// The address of the relay's socket for a device: the scheme follows the base address.
pub open spec fn websocket_address(base: Seq<char>, device_id: Seq<char>) -> Seq<char> {
    let base = without_trailing(base, '/');
    let swapped = if begins_with(base, "https://"@) {
        "wss://"@ + base.skip("https://"@.len() as int)
    } else if begins_with(base, "http://"@) {
        "ws://"@ + base.skip("http://"@.len() as int)
    } else {
        base
    };
    swapped + "/v1/devices/"@ + device_id + "/relay"@
}

/// `https://host` becomes `wss://host/v1/devices/{id}/relay`, and `http` becomes `ws`.
pub fn websocket_url(base: &str, device_id: &str) -> (url: String)
    ensures
        url@ == websocket_address(base@, device_id@),
{
    let base = text::trim_end_matches(base, '/');
    let swapped = match text::strip_prefix(base.as_str(), "https://") {
        Some(rest) => "wss://".to_owned().concat(rest.as_str()),
        None => match text::strip_prefix(base.as_str(), "http://") {
            Some(rest) => "ws://".to_owned().concat(rest.as_str()),
            None => base,
        },
    };
    swapped.concat("/v1/devices/").concat(device_id).concat("/relay")
}

/// Turns output of an attached terminal into frames. Normally one frame: the owner
/// already splits to the limit it was told. A frame over the limit is refused, and that
/// would stall the terminal's stream.
fn frame_output(id: Uuid, start: u64, bytes: &[u8], max_frame: u64) -> (actions: Vec<Action>)
    requires
        max_frame > 0,
        start + bytes@.len() <= u64::MAX,
    ensures
        actions_view(actions@) == wire_frames(id, start as nat, bytes@, max_frame as nat),
{
    let pieces = send_output(start, bytes, max_frame);
    let ghost model = frames(start as nat, bytes@, max_frame as nat);
    let mut actions: Vec<Action> = Vec::new();
    let mut index: usize = 0;
    while index < pieces.len()
        invariant
            index <= pieces@.len() == model.len(),
            model == Seq::new(pieces@.len(), |i: int| pieces@[i]@),
            model == frames(start as nat, bytes@, max_frame as nat),
            max_frame > 0,
            start + bytes@.len() <= u64::MAX,
            actions@.len() == index,
            forall|i: int|
                0 <= i < index ==> (#[trigger] actions@[i])@ == wire_frames(
                    id,
                    start as nat,
                    bytes@,
                    max_frame as nat,
                )[i],
        decreases pieces@.len() - index,
    {
        proof {
            law_frames_are_contiguous(start as nat, bytes@, max_frame as nat, index as int);
            assert(model[index as int] == pieces@[index as int]@);
        }
        match &pieces[index] {
            Request::Output { start_offset, bytes: piece } => {
                let frame = encode_output_frame(id, *start_offset, piece.as_slice());
                actions.push(Action::Send(Outbound::Frame(frame)));
            },
            _ => {
                assert(false);
            },
        }
        index = index + 1;
    }
    assert(actions_view(actions@) =~= wire_frames(id, start as nat, bytes@, max_frame as nat));
    actions
}

proof fn lemma_found_ref(list: Seq<Hosted<Seq<char>>>, local_ref: Seq<char>, at: int)
    requires
        0 <= at < list.len(),
        index_of_ref(list.take(at + 1), local_ref) == Some(at),
    ensures
        index_of_ref(list, local_ref) == Some(at),
    decreases list.len(),
{
    if at == list.len() - 1 {
        assert(list.take(at + 1) =~= list);
    } else {
        assert(list.drop_last().take(at + 1) =~= list.take(at + 1));
        lemma_found_ref(list.drop_last(), local_ref, at);
    }
}

proof fn lemma_found_id(list: Seq<Hosted<Seq<char>>>, id: Uuid, at: int)
    requires
        0 <= at < list.len(),
        index_of_id(list.take(at + 1), id) == Some(at),
    ensures
        index_of_id(list, id) == Some(at),
    decreases list.len(),
{
    if at == list.len() - 1 {
        assert(list.take(at + 1) =~= list);
    } else {
        assert(list.drop_last().take(at + 1) =~= list.take(at + 1));
        lemma_found_id(list.drop_last(), id, at);
    }
}

impl MuxState {
    /// The terminal that a frame is about, if it is about one that is here.
    pub open spec fn subject(self, frame: Frame<Seq<char>, Seq<u8>>) -> Option<int> {
        match frame {
            Frame::Text(
                Some(
                    ServerMessage::TerminalOpened {
                        request_id,
                        terminal_id,
                        next_offset,
                        durable_offset,
                        accepts_input,
                    },
                ),
            ) => index_of_ref(self.terminals, request_id),
            Frame::Text(
                Some(ServerMessage::OutputAck { terminal_id, durable_offset, next_offset }),
            ) => index_of_id(self.terminals, terminal_id),
            Frame::Text(
                Some(ServerMessage::TerminalResizeRequest { terminal_id, cols, rows }),
            ) => index_of_id(self.terminals, terminal_id),
            Frame::Text(Some(ServerMessage::TerminalClosed { terminal_id, reason })) => index_of_id(
                self.terminals,
                terminal_id,
            ),
            Frame::Text(
                Some(
                    ServerMessage::Error {
                        code,
                        message,
                        terminal_id,
                        request_id,
                        next_offset,
                        durable_offset,
                    },
                ),
            ) => self.named(terminal_id, request_id),
            Frame::Binary(bytes) => match decoded_frame(FRAME_TYPE_INPUT, bytes) {
                Ok(input) => index_of_id(self.terminals, input.terminal_id),
                Err(error) => None,
            },
            _ => None,
        }
    }
}

/// The terminal whose owner an action reaches.
pub open spec fn addressee(action: ActionModel) -> Option<Seq<char>> {
    match action {
        Action::Deliver { local_ref, event } => Some(local_ref),
        Action::Offer { local_ref, event } => Some(local_ref),
        _ => None,
    }
}

/// Nothing that arrives for one terminal disturbs another: whatever the frame, every
/// terminal that it is not about is still there, unchanged, and its owner hears nothing.
/// A frame about a terminal that is not here disturbs nobody.
pub proof fn law_frame_touches_only_its_subject(
    state: MuxState,
    frame: Frame<Seq<char>, Seq<u8>>,
    limits: Limits,
    allow_remote_open: bool,
    other: int,
)
    requires
        distinct_refs(state.terminals),
        0 <= other < state.terminals.len(),
        state.subject(frame) != Some(other),
    ensures
        ({
            let reaction = state.received(frame, limits, allow_remote_open).0;
            let hosted = state.terminals[other];
            &&& reaction.state.terminals.contains(hosted)
            &&& forall|k: int|
                0 <= k < reaction.actions.len() ==> addressee(#[trigger] reaction.actions[k])
                    != Some(hosted.local_ref)
        }),
{
    let reaction = state.received(frame, limits, allow_remote_open).0;
    let hosted = state.terminals[other];
    let subject = state.subject(frame);
    match frame {
        Frame::Text(
            Some(
                ServerMessage::TerminalOpened {
                    request_id,
                    terminal_id,
                    next_offset,
                    durable_offset,
                    accepts_input,
                },
            ),
        ) => {
            lemma_index_of_ref(state.terminals, request_id);
        },
        Frame::Text(
            Some(
                ServerMessage::Error {
                    code,
                    message,
                    terminal_id,
                    request_id,
                    next_offset,
                    durable_offset,
                },
            ),
        ) => {
            if terminal_id is Some {
                lemma_index_of_id(state.terminals, terminal_id->0);
            }
            if request_id is Some {
                lemma_index_of_ref(state.terminals, request_id->0);
            }
        },
        Frame::Text(
            Some(ServerMessage::OutputAck { terminal_id, durable_offset, next_offset }),
        ) => {
            lemma_index_of_id(state.terminals, terminal_id);
        },
        Frame::Text(Some(ServerMessage::TerminalResizeRequest { terminal_id, cols, rows })) => {
            lemma_index_of_id(state.terminals, terminal_id);
        },
        Frame::Text(Some(ServerMessage::TerminalClosed { terminal_id, reason })) => {
            lemma_index_of_id(state.terminals, terminal_id);
        },
        Frame::Binary(bytes) => {
            match decoded_frame(FRAME_TYPE_INPUT, bytes) {
                Ok(input) => {
                    lemma_index_of_id(state.terminals, input.terminal_id);
                },
                Err(error) => {},
            }
        },
        _ => {},
    }
    if subject is Some {
        let i = subject->0;
        assert(0 <= i < state.terminals.len());
        if i < other {
            assert(state.terminals[i].local_ref != state.terminals[other].local_ref);
        } else {
            assert(state.terminals[other].local_ref != state.terminals[i].local_ref);
        }
        let removed = state.terminals.remove(i);
        let moved = if other < i {
            other
        } else {
            other - 1
        };
        assert(removed[moved] == hosted);
        assert forall|h: Hosted<Seq<char>>| (#[trigger] state.terminals.update(i, h)).contains(
            hosted,
        ) by {
            assert(state.terminals.update(i, h)[other] == hosted);
        }
    }
    assert(state.terminals.contains(hosted));
}

/// An error that names a terminal never ends the connection, whether or not the terminal
/// is still here: the others on it have done nothing wrong. The one exception is that
/// another publisher has taken the whole device over.
pub proof fn law_terminal_errors_keep_the_connection(
    state: MuxState,
    code: Seq<char>,
    message: Seq<char>,
    terminal_id: Option<Uuid>,
    request_id: Option<Seq<char>>,
    next_offset: Option<u64>,
    durable_offset: Option<u64>,
    limits: Limits,
    allow_remote_open: bool,
)
    requires
        terminal_id is Some || request_id is Some,
        code != "superseded"@,
    ensures
        state.received(
            Frame::Text(
                Some(
                    ServerMessage::Error {
                        code,
                        message,
                        terminal_id,
                        request_id,
                        next_offset,
                        durable_offset,
                    },
                ),
            ),
            limits,
            allow_remote_open,
        ).1 == Ok::<Option<Seq<char>>, SessionError<Seq<char>>>(None),
{
}

/// A terminal that ends before the relay has opened it is not forgotten: it is kept
/// until it has an identifier, and then closed at the relay for the reason it ended.
pub proof fn law_ended_before_opened_is_still_closed(
    list: Seq<Hosted<Seq<char>>>,
    at: int,
    id: Uuid,
)
    requires
        0 <= at < list.len(),
        list[at].closing is Some,
        list[at].terminal_id is None,
    ensures
        unfinished(list).contains(list[at]),
        closings(list.update(at, Hosted { terminal_id: Some(id), ..list[at] })).contains(
            Action::Send(Outbound::Close { terminal_id: id, reason: list[at].closing->0 }),
        ),
    decreases list.len(),
{
    let opened = Hosted { terminal_id: Some(id), ..list[at] };
    let close: ActionModel = Action::Send(
        Outbound::Close { terminal_id: id, reason: list[at].closing->0 },
    );
    let updated = list.update(at, opened);
    let shorter = list.drop_last();
    if at == list.len() - 1 {
        let kept = unfinished(shorter);
        assert(unfinished(list)[kept.len() as int] == list[at]);
        assert(updated.last() == opened);
        let before = closings(updated.drop_last());
        assert(closings(updated)[before.len() as int] == close);
    } else {
        law_ended_before_opened_is_still_closed(shorter, at, id);
        assert(shorter[at] == list[at]);
        let kept = unfinished(shorter);
        let k = kept.index_of(list[at]);
        assert(unfinished(list)[k] == list[at]);
        assert(updated.drop_last() =~= shorter.update(at, opened));
        let before = closings(updated.drop_last());
        let c = before.index_of(close);
        assert(closings(updated)[c] == close);
    }
}

/// The sweep closes exactly what an earlier run left open: every terminal that was open
/// before and that this connection has not opened, and never one that it has.
pub proof fn law_sweep_spares_the_living(previously_open: Seq<Uuid>, opened: Seq<Uuid>, id: Uuid)
    ensures
        orphan_closes(previously_open, opened).contains(
            Action::Send(Outbound::Close { terminal_id: id, reason: "publisher_replaced"@ }),
        ) <==> previously_open.contains(id) && !opened.contains(id),
    decreases previously_open.len(),
{
    let close: ActionModel = Action::Send(
        Outbound::Close { terminal_id: id, reason: "publisher_replaced"@ },
    );
    if previously_open.len() > 0 {
        let shorter = previously_open.drop_last();
        law_sweep_spares_the_living(shorter, opened, id);
        let before = orphan_closes(shorter, opened);
        let after = orphan_closes(previously_open, opened);
        assert(previously_open =~= shorter.push(previously_open.last()));
        if before.contains(close) {
            assert(after[before.index_of(close)] == close);
        }
        if shorter.contains(id) {
            assert(previously_open[shorter.index_of(id)] == id);
        }
        if previously_open.contains(id) && previously_open.index_of(id) < shorter.len() {
            assert(shorter[previously_open.index_of(id)] == id);
        }
        if previously_open.last() == id {
            assert(previously_open[previously_open.len() - 1] == id);
            if !opened.contains(id) {
                assert(after.last() == close);
                assert(after[after.len() - 1] == close);
            }
        }
        if after.contains(close) && !before.contains(close) {
            let k = after.index_of(close);
            assert(after[k] == close);
            if k < before.len() {
                assert(before[k] == close);
            }
        }
    }
}

/// A request is answered at most once: however often the connection is lost and every
/// terminal opened again, only the first open echoes the request.
pub proof fn law_requests_are_answered_once(state: MuxState, at: int)
    requires
        0 <= at < state.terminals.len(),
    ensures
        state.reopened().state.disconnected().state.reopened().actions[at] == open_message(
            Hosted { in_reply_to: None, ..state.terminals[at] },
        ),
{
}

/// Nothing is framed against a stale identifier: once the connection is gone, output is
/// not sent until the relay has opened the terminal again.
pub proof fn law_nothing_is_framed_while_detached(
    state: MuxState,
    local_ref: Seq<char>,
    start_offset: u64,
    bytes: Seq<u8>,
    limits: Limits,
    max_terminals: u64,
)
    ensures
        state.disconnected().state.controlled(
            Control::Output { local_ref, start_offset, bytes },
            limits,
            max_terminals,
        ) == state.disconnected().state.stays(),
{
    lemma_index_of_ref(state.disconnected().state.terminals, local_ref);
}

} // verus!
