//! Publishing one hosted terminal, from the side that owns its bytes.
//!
//! Between the pseudo-terminal and whatever carries frames to the relay sits exactly
//! one piece of state that must not be lost: this terminal's offset and the bytes that
//! have not been acknowledged. That state lives here, next to the shell, so it survives
//! anything that can happen to the connection.
//!
//! The driver is a state machine: whoever runs it hands in what arrived and carries out
//! what comes back. The same driver runs whether frames go straight to the relay or
//! through a local socket to a daemon that carries other terminals too.

use crate::encoding;
use crate::publisher::session::{Event, Limits};
use crate::publisher::stream::{
    agree, covered, lemma_covered_step, lemma_emitted_covered, Answer, Outgoing, Resync,
    StreamState, Stretch,
};
use crate::text::option_view;
use vstd::prelude::*;

verus! {

/// What the driver asks of the transport.
#[derive(Debug)]
pub enum Request<S = String, B = Vec<u8>> {
    Output { start_offset: u64, bytes: B },
    Resize { cols: u16, rows: u16 },
    Close { reason: S },
}

impl View for Request {
    type V = Request<Seq<char>, Seq<u8>>;

    open spec fn view(&self) -> Request<Seq<char>, Seq<u8>> {
        match self {
            Request::Output { start_offset, bytes } => Request::Output {
                start_offset: *start_offset,
                bytes: bytes@,
            },
            Request::Resize { cols, rows } => Request::Resize { cols: *cols, rows: *rows },
            Request::Close { reason } => Request::Close { reason: reason@ },
        }
    }
}

/// What the terminal's owner, the process with the window and the keyboard, needs to
/// hear about.
#[derive(Debug)]
pub enum Notice<S = String, B = Vec<u8>> {
    /// Keystrokes to write into the pseudo-terminal.
    Input(B),
    /// A size a subscriber asked for. The owner decides.
    Resize { cols: u16, rows: u16 },
    /// Mirroring has ended, with a reason worth showing a person. The shell is not
    /// affected: losing the mirror is no reason to take away a terminal someone is
    /// working in.
    Ended(S),
}

impl View for Notice {
    type V = Notice<Seq<char>, Seq<u8>>;

    open spec fn view(&self) -> Notice<Seq<char>, Seq<u8>> {
        match self {
            Notice::Input(bytes) => Notice::Input(bytes@),
            Notice::Resize { cols, rows } => Notice::Resize { cols: *cols, rows: *rows },
            Notice::Ended(reason) => Notice::Ended(reason@),
        }
    }
}

/// What the owner hands to the driver.
#[derive(Debug)]
pub enum FromOwner<B = Vec<u8>> {
    Output(B),
    Resize { cols: u16, rows: u16 },
}

impl View for FromOwner {
    type V = FromOwner<Seq<u8>>;

    open spec fn view(&self) -> FromOwner<Seq<u8>> {
        match self {
            FromOwner::Output(bytes) => FromOwner::Output(bytes@),
            FromOwner::Resize { cols, rows } => FromOwner::Resize { cols: *cols, rows: *rows },
        }
    }
}

/// What has to be done after one step of the driver, in this order.
#[derive(Debug)]
pub struct Step {
    pub requests: Vec<Request>,
    pub notices: Vec<Notice>,
    /// The driver has nothing more to do.
    pub finished: bool,
}

/// A [`Step`] over sequences.
#[verifier::ext_equal]
pub struct StepModel {
    pub requests: Seq<Request<Seq<char>, Seq<u8>>>,
    pub notices: Seq<Notice<Seq<char>, Seq<u8>>>,
    pub finished: bool,
}

impl View for Step {
    type V = StepModel;

    open spec fn view(&self) -> StepModel {
        StepModel {
            requests: Seq::new(self.requests@.len(), |i: int| self.requests@[i]@),
            notices: Seq::new(self.notices@.len(), |i: int| self.notices@[i]@),
            finished: self.finished,
        }
    }
}

impl StepModel {
    pub open spec fn nothing() -> StepModel {
        StepModel { requests: Seq::empty(), notices: Seq::empty(), finished: false }
    }

    pub open spec fn requests(requests: Seq<Request<Seq<char>, Seq<u8>>>) -> StepModel {
        StepModel { requests, notices: Seq::empty(), finished: false }
    }

    pub open spec fn notice(notice: Notice<Seq<char>, Seq<u8>>, finished: bool) -> StepModel {
        StepModel { requests: Seq::empty(), notices: seq![notice], finished }
    }
}

impl Step {
    fn nothing() -> (step: Step)
        ensures
            step@ == StepModel::nothing(),
    {
        let step = Step { requests: Vec::new(), notices: Vec::new(), finished: false };
        assert(step@ =~= StepModel::nothing());
        step
    }

    fn notice(notice: Notice, finished: bool) -> (step: Step)
        ensures
            step@ == StepModel::notice(notice@, finished),
    {
        let mut notices: Vec<Notice> = Vec::new();
        notices.push(notice);
        let step = Step { requests: Vec::new(), notices, finished };
        assert(step@ =~= StepModel::notice(notice@, finished));
        step
    }

    fn request(request: Request) -> (step: Step)
        ensures
            step@ == StepModel::requests(seq![request@]),
    {
        let mut requests: Vec<Request> = Vec::new();
        requests.push(request);
        let step = Step { requests, notices: Vec::new(), finished: false };
        assert(step@ =~= StepModel::requests(seq![request@]));
        step
    }

    fn output(start: u64, bytes: &[u8], max_frame: u64) -> (step: Step)
        requires
            max_frame > 0,
            start + bytes@.len() <= u64::MAX,
        ensures
            step@ == StepModel::requests(frames(start as nat, bytes@, max_frame as nat)),
    {
        let requests = send_output(start, bytes, max_frame);
        let step = Step { requests, notices: Vec::new(), finished: false };
        assert(step@ =~= StepModel::requests(frames(start as nat, bytes@, max_frame as nat)));
        step
    }
}

/// The frames that carry `bytes` from `start` on, each of at most `max_frame` bytes.
pub open spec fn frames(start: nat, bytes: Seq<u8>, max_frame: nat) -> Seq<
    Request<Seq<char>, Seq<u8>>,
>
    decreases bytes.len(),
{
    if bytes.len() == 0 || max_frame == 0 {
        Seq::empty()
    } else if bytes.len() <= max_frame {
        seq![Request::Output { start_offset: start as u64, bytes }]
    } else {
        seq![Request::Output { start_offset: start as u64, bytes: bytes.take(max_frame as int) }]
            + frames(start + max_frame, bytes.skip(max_frame as int), max_frame)
    }
}

/// Splits output into frames.
pub fn send_output(start: u64, bytes: &[u8], max_frame: u64) -> (requests: Vec<Request>)
    requires
        max_frame > 0,
        start + bytes@.len() <= u64::MAX,
    ensures
        Seq::new(requests@.len(), |i: int| requests@[i]@) == frames(
            start as nat,
            bytes@,
            max_frame as nat,
        ),
{
    let mut requests: Vec<Request> = Vec::new();
    let mut at: usize = 0;
    let ghost whole = frames(start as nat, bytes@, max_frame as nat);
    assert(bytes@.skip(0) =~= bytes@);
    assert(Seq::new(requests@.len(), |i: int| requests@[i]@) + whole =~= whole);
    while at < bytes.len()
        invariant
            at <= bytes@.len(),
            max_frame > 0,
            start + bytes@.len() <= u64::MAX,
            Seq::new(requests@.len(), |i: int| requests@[i]@) + frames(
                (start + at) as nat,
                bytes@.skip(at as int),
                max_frame as nat,
            ) == whole,
        decreases bytes@.len() - at,
    {
        let left: usize = bytes.len() - at;
        let size: usize = if left as u64 <= max_frame {
            left
        } else {
            max_frame as usize
        };
        let slice = encoding::copy_of(bytes, at, at + size);
        let ghost before = Seq::new(requests@.len(), |i: int| requests@[i]@);
        let ghost rest = bytes@.skip(at as int);
        let request = Request::Output { start_offset: start + at as u64, bytes: slice };
        proof {
            assert(slice@ =~= rest.take(size as int));
            assert(rest.skip(size as int) =~= bytes@.skip(at + size));
            assert(frames((start + at) as nat, rest, max_frame as nat) =~= seq![request@] + frames(
                (start + at + size) as nat,
                bytes@.skip(at + size),
                max_frame as nat,
            ));
        }
        requests.push(request);
        assert(Seq::new(requests@.len(), |i: int| requests@[i]@) =~= before + seq![request@]);
        assert(before + seq![request@] + frames(
            (start + at + size) as nat,
            bytes@.skip(at + size),
            max_frame as nat,
        ) =~= whole);
        at = at + size;
    }
    assert(frames((start + at) as nat, bytes@.skip(at as int), max_frame as nat) =~= Seq::empty());
    requests
}

/// The bytes that some requests carry, one after the other.
pub open spec fn carried(requests: Seq<Request<Seq<char>, Seq<u8>>>) -> Seq<u8>
    decreases requests.len(),
{
    if requests.len() == 0 {
        Seq::empty()
    } else {
        match requests[0] {
            Request::Output { start_offset, bytes } => bytes + carried(requests.drop_first()),
            _ => carried(requests.drop_first()),
        }
    }
}

/// Splitting loses nothing and reorders nothing: the frames carry exactly the bytes,
/// each is within the limit and not empty, and each begins where the one before it
/// ended.
pub proof fn law_frames_are_contiguous(start: nat, bytes: Seq<u8>, max_frame: nat, i: int)
    requires
        max_frame > 0,
        start + bytes.len() <= u64::MAX,
        0 <= i < frames(start, bytes, max_frame).len(),
    ensures
        carried(frames(start, bytes, max_frame)) == bytes,
        frames(start, bytes, max_frame)[i] matches Request::Output { start_offset, bytes: piece }
            && 0 < piece.len() <= max_frame && start_offset == start + i * max_frame && i
            * max_frame + piece.len() <= bytes.len() && piece == bytes.subrange(
            i * max_frame,
            i * max_frame + piece.len(),
        ),
    decreases bytes.len(),
{
    let all = frames(start, bytes, max_frame);
    if bytes.len() <= max_frame {
        assert(i == 0);
        assert(all.drop_first() =~= Seq::empty());
        assert(carried(all.drop_first()) =~= Seq::<u8>::empty());
        assert(carried(all) =~= bytes);
        assert(bytes.subrange(0, bytes.len() as int) =~= bytes);
    } else {
        let rest = bytes.skip(max_frame as int);
        let more = frames(start + max_frame, rest, max_frame);
        assert(all.drop_first() =~= more);
        assert(more.len() > 0);
        assert(bytes.take(max_frame as int) + rest =~= bytes);
        if i == 0 {
            law_frames_are_contiguous(start + max_frame, rest, max_frame, 0);
            assert(bytes.take(max_frame as int) =~= bytes.subrange(0, max_frame as int));
        } else {
            law_frames_are_contiguous(start + max_frame, rest, max_frame, i - 1);
            assert(all[i] == more[i - 1]);
            assert((i - 1) * max_frame + max_frame == i * max_frame) by (nonlinear_arith);
            let piece = more[i - 1]->bytes;
            assert(rest.subrange((i - 1) * max_frame, (i - 1) * max_frame + piece.len())
                =~= bytes.subrange(i * max_frame, i * max_frame + piece.len()));
        }
    }
}

/// Why a terminal is closed whose owner has finished.
pub const PROCESS_EXITED: &'static str = "process_exited";

/// Why a terminal is closed whose stream cannot be continued.
pub const DESYNCHRONISED: &'static str = "publisher_desynchronised";

/// What the owner is told when the stream cannot be continued.
pub const LOST_PLACE: &'static str =
    "the mirror lost its place in this terminal's output and stopped rather than show a gap";

/// What the owner is told when the transport is gone.
pub const MIRRORING_STOPPED: &'static str = "mirroring stopped";

/// The smallest frame limit that a relay can announce.
pub const SMALLEST_FRAME: u64 = 1024;

/// The frame limit until the relay has announced one.
pub const INITIAL_FRAME: u64 = 65536;

/// The state of a driver.
pub struct DriverState {
    pub stream: StreamState,
    pub max_frame: nat,
    /// The owner has finished: no more output will come.
    pub owner_gone: bool,
    /// The close has been sent.
    pub closed: bool,
    /// Output that the stream could not take yet.
    pub waiting: Option<Seq<u8>>,
}

impl DriverState {
    pub open spec fn initial() -> DriverState {
        DriverState {
            stream: StreamState::initial(),
            max_frame: INITIAL_FRAME as nat,
            owner_gone: false,
            closed: false,
            waiting: None,
        }
    }

    /// The relay accepts more output now.
    pub open spec fn may_send(self) -> bool {
        self.stream.positioned && self.stream.held.bytes.len() < self.stream.window
    }

    /// Everything the owner wrote is committed and its terminal can be closed, for the
    /// first time.
    pub open spec fn may_close(self) -> bool {
        self.owner_gone && !self.closed && self.waiting is None && self.stream.held.bytes.len()
            == 0
    }

    /// The frames for a chunk that the stream takes now.
    pub open spec fn output(self, chunk: Seq<u8>) -> Seq<Request<Seq<char>, Seq<u8>>> {
        frames(self.stream.held.end(), chunk, self.max_frame)
    }

    /// After waiting output has gone out, if it could.
    pub open spec fn flushed(self) -> DriverState {
        if self.waiting is Some && self.may_send() {
            DriverState {
                stream: self.stream.after_send(self.waiting->0),
                waiting: None,
                ..self
            }
        } else {
            self
        }
    }

    pub open spec fn after_settle(self) -> DriverState {
        let flushed = self.flushed();
        DriverState { closed: flushed.closed || flushed.may_close(), ..flushed }
    }

    pub open spec fn settled(self) -> StepModel {
        let output = if self.waiting is Some && self.may_send() {
            self.output(self.waiting->0)
        } else {
            Seq::empty()
        };
        StepModel::requests(
            if self.flushed().may_close() {
                output + seq![Request::Close { reason: PROCESS_EXITED@ }]
            } else {
                output
            },
        )
    }

    /// What has to be done about the stream's answer to a relay that moved it.
    pub open spec fn answered(self, answer: Answer) -> StepModel {
        match answer {
            Answer::Retransmit(stretch) => StepModel::requests(
                frames(stretch.start, stretch.bytes, self.max_frame),
            ),
            Answer::Nothing => StepModel::nothing(),
            Answer::Unrecoverable => StepModel {
                requests: seq![Request::Close { reason: DESYNCHRONISED@ }],
                notices: seq![Notice::Ended(LOST_PLACE@)],
                finished: true,
            },
        }
    }

    pub open spec fn with_limits(self, limits: Limits) -> DriverState {
        DriverState {
            stream: self.stream.after_set_window(limits.max_unacked_output_bytes),
            max_frame: if limits.max_output_frame_bytes < SMALLEST_FRAME {
                SMALLEST_FRAME as nat
            } else {
                limits.max_output_frame_bytes as nat
            },
            ..self
        }
    }

    pub open spec fn after_event(self, event: Option<Event<Seq<char>, Seq<u8>>>) -> DriverState {
        match event {
            Some(Event::Attached { terminal_id, next_offset, limits }) => {
                let limited = self.with_limits(limits);
                DriverState { stream: limited.stream.after_attached(next_offset), ..limited }
            },
            Some(Event::Ack { durable_offset }) => DriverState {
                stream: self.stream.after_acknowledge(durable_offset),
                ..self
            },
            Some(Event::Mismatch { next_offset }) => DriverState {
                stream: self.stream.after_mismatch(next_offset),
                ..self
            },
            Some(Event::Detached) => DriverState { stream: self.stream.after_detached(), ..self },
            _ => self,
        }
    }

    pub open spec fn on_event(self, event: Option<Event<Seq<char>, Seq<u8>>>) -> StepModel {
        match event {
            None => StepModel::notice(Notice::Ended(MIRRORING_STOPPED@), true),
            Some(Event::Attached { terminal_id, next_offset, limits }) => {
                let limited = self.with_limits(limits);
                limited.answered(limited.stream.answer_to_attached(next_offset))
            },
            Some(Event::Ack { durable_offset }) => StepModel::nothing(),
            Some(Event::Mismatch { next_offset }) => self.answered(
                self.stream.answer_to_mismatch(next_offset),
            ),
            Some(Event::Detached) => StepModel::nothing(),
            Some(Event::Input(bytes)) => StepModel::notice(Notice::Input(bytes), false),
            Some(Event::ResizeRequest { cols, rows }) => StepModel::notice(
                Notice::Resize { cols, rows },
                false,
            ),
            Some(Event::Ended(reason)) => StepModel::notice(Notice::Ended(reason), true),
        }
    }

    pub open spec fn after_owner(self, from: Option<FromOwner<Seq<u8>>>) -> DriverState {
        match from {
            None => DriverState { owner_gone: true, ..self },
            Some(FromOwner::Resize { cols, rows }) => self,
            Some(FromOwner::Output(chunk)) => if self.may_send() {
                DriverState { stream: self.stream.after_send(chunk), ..self }
            } else {
                DriverState { waiting: Some(chunk), ..self }
            },
        }
    }

    pub open spec fn on_owner(self, from: Option<FromOwner<Seq<u8>>>) -> StepModel {
        match from {
            None => StepModel::nothing(),
            Some(FromOwner::Resize { cols, rows }) => StepModel::requests(
                seq![Request::Resize { cols, rows }],
            ),
            Some(FromOwner::Output(chunk)) => if self.may_send() {
                StepModel::requests(self.output(chunk))
            } else {
                StepModel::nothing()
            },
        }
    }
}

/// Drives one terminal's stream.
///
/// Run it as: [`Driver::settle`], then wait for an event or, while
/// [`Driver::wants_owner`], for the owner, hand in what came first, and start over.
pub struct Driver {
    stream: Outgoing,
    max_frame: u64,
    owner_gone: bool,
    /// Latched once the close has gone out, so that there is never a second one.
    closed: bool,
    /// One chunk taken from the owner before the stream could take it. Held here rather
    /// than left with the owner so that the end of its output is still noticed: a shell
    /// that exits while the relay is unreachable must have its terminal closed.
    waiting: Option<Vec<u8>>,
}

impl View for Driver {
    type V = DriverState;

    closed spec fn view(&self) -> DriverState {
        DriverState {
            stream: self.stream@,
            max_frame: self.max_frame as nat,
            owner_gone: self.owner_gone,
            closed: self.closed,
            waiting: option_view(self.waiting),
        }
    }
}

impl Driver {
    pub closed spec fn wf(&self) -> bool {
        self.stream.wf() && self.max_frame >= SMALLEST_FRAME
    }

    /// If the waiting output can go out, every offset of it is a number that fits the wire
    /// format.
    pub open spec fn waiting_fits(&self) -> bool {
        self@.waiting is Some && self@.may_send() ==> self@.stream.held.end() + self@.waiting->0.len() <= u64::MAX
    }

    pub fn new() -> (driver: Self)
        ensures
            driver.wf(),
            driver@ == DriverState::initial(),
    {
        Self {
            stream: Outgoing::new(),
            max_frame: INITIAL_FRAME,
            owner_gone: false,
            closed: false,
            waiting: None,
        }
    }

    /// Whether the owner may be listened to. While output is waiting, it may not: what
    /// it says next comes after that output.
    pub fn wants_owner(&self) -> (wants: bool)
        ensures
            wants == (!self@.owner_gone && self@.waiting is None),
    {
        !self.owner_gone && self.waiting.is_none()
    }

    /// Whether `count` more bytes still have offsets that fit the wire format.
    pub fn has_room_for(&self, count: usize) -> (room: bool)
        requires
            self.wf(),
        ensures
            room == (self@.stream.held.end() + count <= u64::MAX),
    {
        count as u64 <= u64::MAX - self.stream.next_offset()
    }

    /// How much output is waiting.
    pub fn waiting_len(&self) -> (count: usize)
        ensures
            self@.waiting is None ==> count == 0,
            self@.waiting is Some ==> count == self@.waiting->0.len(),
    {
        match &self.waiting {
            Some(chunk) => chunk.len(),
            None => 0,
        }
    }

    /// Send what has been waiting, if it can go out now, and close the terminal once
    /// everything its owner wrote is committed.
    pub fn settle(&mut self) -> (step: Step)
        requires
            old(self).wf(),
            old(self).waiting_fits(),
        ensures
            final(self).wf(),
            final(self)@ == old(self)@.after_settle(),
            step@ == old(self)@.settled(),
    {
        let mut requests: Vec<Request> = Vec::new();
        let ghost before = self@;
        match self.waiting.take() {
            Some(chunk) => {
                if self.stream.may_send() {
                    let start: u64 = self.stream.next_offset();
                    self.stream.send(chunk.as_slice());
                    requests = send_output(start, chunk.as_slice(), self.max_frame);
                } else {
                    self.waiting = Some(chunk);
                }
            },
            None => {},
        }
        let ghost output = Seq::new(requests@.len(), |i: int| requests@[i]@);
        proof {
            assert(self@ == before.flushed());
            if !(before.waiting is Some && before.may_send()) {
                assert(output =~= Seq::empty());
            }
        }
        if self.owner_gone && !self.closed && self.waiting.is_none() && self.stream.unacked() == 0 {
            self.closed = true;
            let close = Request::Close { reason: PROCESS_EXITED.to_owned() };
            requests.push(close);
            assert(Seq::new(requests@.len(), |i: int| requests@[i]@) =~= output.push(close@));
            assert(output.push(close@) =~= output + seq![Request::Close { reason: PROCESS_EXITED@ }]);
        }
        let step = Step { requests, notices: Vec::new(), finished: false };
        assert(step@ =~= before.settled());
        step
    }

    fn resynchronise(&self, answer: Resync) -> (step: Step)
        requires
            self.wf(),
            answer@ is Retransmit ==> answer@->Retransmit_0.end() <= u64::MAX,
        ensures
            step@ == self@.answered(answer@),
    {
        match answer {
            Resync::Retransmit { start, bytes } => Step::output(
                start,
                bytes.as_slice(),
                self.max_frame,
            ),
            Resync::Nothing => Step::nothing(),
            Resync::Unrecoverable => {
                // The relay wants bytes this side no longer has. Splicing the stream
                // would be undetectable downstream, so the terminal is closed instead
                // and the person told.
                let mut step = Step::nothing();
                step.requests.push(Request::Close { reason: DESYNCHRONISED.to_owned() });
                step.notices.push(Notice::Ended(LOST_PLACE.to_owned()));
                step.finished = true;
                assert(step@ =~= self@.answered(answer@));
                step
            },
        }
    }

    fn apply_limits(&mut self, limits: Limits)
        requires
            old(self).wf(),
        ensures
            final(self).wf(),
            final(self)@ == old(self)@.with_limits(limits),
    {
        self.stream.set_window(limits.max_unacked_output_bytes);
        self.max_frame = if limits.max_output_frame_bytes < SMALLEST_FRAME {
            SMALLEST_FRAME
        } else {
            limits.max_output_frame_bytes
        };
    }

    /// The transport said something about this terminal, or is gone.
    pub fn on_event(&mut self, event: Option<Event>) -> (step: Step)
        requires
            old(self).wf(),
        ensures
            final(self).wf(),
            final(self)@ == old(self)@.after_event(option_view(event)),
            step@ == old(self)@.on_event(option_view(event)),
    {
        match event {
            None => Step::notice(Notice::Ended(MIRRORING_STOPPED.to_owned()), true),
            Some(Event::Attached { terminal_id, next_offset, limits }) => {
                self.apply_limits(limits);
                let answer = self.stream.attached(next_offset);
                self.resynchronise(answer)
            },
            Some(Event::Ack { durable_offset }) => {
                self.stream.acknowledge(durable_offset);
                Step::nothing()
            },
            Some(Event::Mismatch { next_offset }) => {
                let answer = self.stream.mismatch(next_offset);
                self.resynchronise(answer)
            },
            Some(Event::Detached) => {
                self.stream.detached();
                Step::nothing()
            },
            Some(Event::Input(bytes)) => Step::notice(Notice::Input(bytes), false),
            Some(Event::ResizeRequest { cols, rows }) => Step::notice(
                Notice::Resize { cols, rows },
                false,
            ),
            Some(Event::Ended(reason)) => Step::notice(Notice::Ended(reason), true),
        }
    }

    /// The owner said something, or has finished.
    pub fn on_owner(&mut self, from: Option<FromOwner>) -> (step: Step)
        requires
            old(self).wf(),
            from matches Some(FromOwner::Output(chunk)) ==> old(self)@.may_send() ==> old(
                self,
            )@.stream.held.end() + chunk@.len() <= u64::MAX,
        ensures
            final(self).wf(),
            final(self)@ == old(self)@.after_owner(option_view(from)),
            step@ == old(self)@.on_owner(option_view(from)),
    {
        match from {
            Some(FromOwner::Output(chunk)) => {
                if self.stream.may_send() {
                    let start: u64 = self.stream.next_offset();
                    self.stream.send(chunk.as_slice());
                    Step::output(start, chunk.as_slice(), self.max_frame)
                } else {
                    self.waiting = Some(chunk);
                    Step::nothing()
                }
            },
            Some(FromOwner::Resize { cols, rows }) => Step::request(Request::Resize { cols, rows }),
            None => {
                self.owner_gone = true;
                Step::nothing()
            },
        }
    }
}

/// Something that happens to a driver.
pub enum Input {
    Settle,
    Transport(Option<Event<Seq<char>, Seq<u8>>>),
    Owner(Option<FromOwner<Seq<u8>>>),
}

impl DriverState {
    pub open spec fn after(self, input: Input) -> DriverState {
        match input {
            Input::Settle => self.after_settle(),
            Input::Transport(event) => self.after_event(event),
            Input::Owner(from) => self.after_owner(from),
        }
    }

    pub open spec fn step(self, input: Input) -> StepModel {
        match input {
            Input::Settle => self.settled(),
            Input::Transport(event) => self.on_event(event),
            Input::Owner(from) => self.on_owner(from),
        }
    }

    /// The state after all of `inputs`, in order.
    pub open spec fn run(self, inputs: Seq<Input>) -> DriverState
        decreases inputs.len(),
    {
        if inputs.len() == 0 {
            self
        } else {
            self.run(inputs.drop_last()).after(inputs.last())
        }
    }

    /// What the input at `index` of `inputs` came to.
    pub open spec fn step_at(self, inputs: Seq<Input>, index: int) -> StepModel {
        self.run(inputs.take(index)).step(inputs[index])
    }

    /// What the driver can rely on: frames have a size, and offsets fit.
    pub open spec fn ready(self, input: Input) -> bool {
        &&& self.max_frame > 0
        &&& self.stream.held.end() <= u64::MAX
        &&& input is Settle && self.waiting is Some ==> self.stream.held.end()
            + self.waiting->0.len() <= u64::MAX
        &&& input matches Input::Owner(Some(FromOwner::Output(chunk)))
            ==> self.stream.held.end() + chunk.len() <= u64::MAX
    }
}

/// The stretch that an output request carries.
pub open spec fn stretch_of(request: Request<Seq<char>, Seq<u8>>) -> Stretch {
    match request {
        Request::Output { start_offset, bytes } => Stretch { start: start_offset as nat, bytes },
        _ => Stretch::nothing_at(0),
    }
}

/// Every piece of a stretch that is covered, and reaches to the end, is covered.
proof fn lemma_pieces_covered(stretch: Stretch, state: StreamState, max_frame: nat, i: int)
    requires
        covered(stretch, state),
        stretch.end() == state.held.end() <= u64::MAX,
        stretch.start >= state.held.start,
        max_frame > 0,
        0 <= i < frames(stretch.start, stretch.bytes, max_frame).len(),
    ensures
        frames(stretch.start, stretch.bytes, max_frame)[i] is Output,
        ({
            let piece = stretch_of(frames(stretch.start, stretch.bytes, max_frame)[i]);
            &&& covered(piece, state)
            &&& piece.start >= state.held.start
        }),
{
    law_frames_are_contiguous(stretch.start, stretch.bytes, max_frame, i);
    let piece = stretch_of(frames(stretch.start, stretch.bytes, max_frame)[i]);
    let at = i * max_frame;
    assert(at >= 0) by (nonlinear_arith)
        requires
            at == i * max_frame,
            i >= 0,
    ;
    assert forall|offset: int|
        piece.start <= offset < piece.end() && state.held.start <= offset
            < state.held.end() implies #[trigger] piece.bytes[offset - piece.start]
        == state.held.bytes[offset - state.held.start] by {
        assert(piece.bytes[offset - piece.start] == stretch.bytes[offset - stretch.start]);
    }
}

/// What a step puts onto the wire is covered by the stream after it.
proof fn lemma_step_covered(state: DriverState, input: Input, i: int)
    requires
        state.ready(input),
        0 <= i < state.step(input).requests.len(),
        state.step(input).requests[i] is Output,
    ensures
        covered(stretch_of(state.step(input).requests[i]), state.after(input).stream),
        stretch_of(state.step(input).requests[i]).start >= state.after(input).stream.held.start,
{
    match input {
        Input::Settle => {
            let chunk = state.waiting->0;
            let event = crate::publisher::stream::Event::Send(chunk);
            lemma_emitted_covered(state.stream, event);
            let stretch = Stretch { start: state.stream.held.end(), bytes: chunk };
            assert(state.step(input).requests[i] == state.output(chunk)[i]);
            lemma_pieces_covered(stretch, state.after(input).stream, state.max_frame, i);
        },
        Input::Owner(Some(FromOwner::Output(chunk))) => {
            let event = crate::publisher::stream::Event::Send(chunk);
            lemma_emitted_covered(state.stream, event);
            let stretch = Stretch { start: state.stream.held.end(), bytes: chunk };
            lemma_pieces_covered(stretch, state.after(input).stream, state.max_frame, i);
        },
        Input::Transport(Some(Event::Attached { terminal_id, next_offset, limits })) => {
            let limited = state.with_limits(limits);
            let event = crate::publisher::stream::Event::Attached(next_offset);
            lemma_emitted_covered(limited.stream, event);
            let stretch = limited.stream.emitted(event)->0;
            lemma_pieces_covered(stretch, state.after(input).stream, limited.max_frame, i);
        },
        Input::Transport(Some(Event::Mismatch { next_offset })) => {
            let event = crate::publisher::stream::Event::Mismatch(next_offset);
            lemma_emitted_covered(state.stream, event);
            let stretch = state.stream.emitted(event)->0;
            lemma_pieces_covered(stretch, state.after(input).stream, state.max_frame, i);
        },
        _ => {},
    }
}

/// Whatever happens to a driver, a stretch that is covered stays covered.
proof fn lemma_step_keeps_covered(stretch: Stretch, state: DriverState, input: Input)
    requires
        covered(stretch, state.stream),
    ensures
        covered(stretch, state.after(input).stream),
{
    match input {
        Input::Settle => {
            if state.waiting is Some && state.may_send() {
                lemma_covered_step(
                    stretch,
                    state.stream,
                    crate::publisher::stream::Event::Send(state.waiting->0),
                );
            }
        },
        Input::Owner(Some(FromOwner::Output(chunk))) => {
            if state.may_send() {
                lemma_covered_step(
                    stretch,
                    state.stream,
                    crate::publisher::stream::Event::Send(chunk),
                );
            }
        },
        Input::Transport(Some(Event::Attached { terminal_id, next_offset, limits })) => {
            lemma_covered_step(
                stretch,
                state.with_limits(limits).stream,
                crate::publisher::stream::Event::Attached(next_offset),
            );
        },
        Input::Transport(Some(Event::Ack { durable_offset })) => {
            lemma_covered_step(
                stretch,
                state.stream,
                crate::publisher::stream::Event::Acknowledge(durable_offset),
            );
        },
        _ => {},
    }
}

proof fn lemma_step_stays_covered(state: DriverState, inputs: Seq<Input>, index: int, i: int)
    requires
        0 <= index < inputs.len(),
        0 <= i < state.step_at(inputs, index).requests.len(),
        state.step_at(inputs, index).requests[i] is Output,
        state.run(inputs.take(index)).ready(inputs[index]),
    ensures
        covered(stretch_of(state.step_at(inputs, index).requests[i]), state.run(inputs).stream),
    decreases inputs.len(),
{
    let before = inputs.drop_last();
    if index == inputs.len() - 1 {
        assert(inputs.take(index) =~= before);
        lemma_step_covered(state.run(before), inputs.last(), i);
    } else {
        assert(before.take(index) =~= inputs.take(index));
        lemma_step_stays_covered(state, before, index, i);
        lemma_step_keeps_covered(
            stretch_of(state.step_at(inputs, index).requests[i]),
            state.run(before),
            inputs.last(),
        );
    }
}

/// The mirror never shows one offset two different ways: whatever happens to a driver,
/// and in whatever order, any two output frames that it asks for agree wherever they
/// overlap. A connection that is lost and found again, a relay that refuses frames and
/// output that had to wait make no difference.
pub proof fn law_output_frames_agree(
    state: DriverState,
    inputs: Seq<Input>,
    first: int,
    i: int,
    second: int,
    j: int,
)
    requires
        0 <= first <= second < inputs.len(),
        0 <= i < state.step_at(inputs, first).requests.len(),
        0 <= j < state.step_at(inputs, second).requests.len(),
        state.step_at(inputs, first).requests[i] is Output,
        state.step_at(inputs, second).requests[j] is Output,
        state.run(inputs.take(first)).ready(inputs[first]),
        state.run(inputs.take(second)).ready(inputs[second]),
    ensures
        agree(
            stretch_of(state.step_at(inputs, first).requests[i]),
            stretch_of(state.step_at(inputs, second).requests[j]),
        ),
{
    let through = inputs.take(second + 1);
    assert(through.drop_last() =~= inputs.take(second));
    assert(through.take(first) =~= inputs.take(first));
    assert(through[first] == inputs[first]);
    assert(through.last() == inputs[second]);
    lemma_step_stays_covered(state, through, first, i);
    lemma_step_covered(state.run(inputs.take(second)), inputs[second], j);
    let earlier = stretch_of(state.step_at(inputs, first).requests[i]);
    let later = stretch_of(state.step_at(inputs, second).requests[j]);
    let held = state.run(through).stream.held;
    assert forall|offset: int|
        earlier.start <= offset < earlier.end() && later.start <= offset
            < later.end() implies #[trigger] earlier.bytes[offset - earlier.start]
        == later.bytes[offset - later.start] by {
        assert(later.bytes[offset - later.start] == held.bytes[offset - held.start]);
        assert(earlier.bytes[offset - earlier.start] == held.bytes[offset - held.start]);
    }
}

impl DriverState {
    /// The bytes that an input adds to the stream.
    pub open spec fn takes(self, input: Input) -> Seq<u8> {
        match input {
            Input::Settle => if self.waiting is Some && self.may_send() {
                self.waiting->0
            } else {
                Seq::empty()
            },
            Input::Owner(Some(FromOwner::Output(chunk))) => if self.may_send() {
                chunk
            } else {
                Seq::empty()
            },
            _ => Seq::empty(),
        }
    }

    /// All bytes that the stream has taken after `inputs`, in order.
    pub open spec fn taken(self, inputs: Seq<Input>) -> Seq<u8>
        decreases inputs.len(),
    {
        if inputs.len() == 0 {
            Seq::empty()
        } else {
            let before = inputs.drop_last();
            self.taken(before) + self.run(before).takes(inputs.last())
        }
    }

    /// What still waits for the relay.
    pub open spec fn pending(self) -> Seq<u8> {
        match self.waiting {
            Some(chunk) => chunk,
            None => Seq::empty(),
        }
    }

    /// The owner is listened to only while nothing of its output waits.
    pub open spec fn listens_in_turn(self, inputs: Seq<Input>) -> bool {
        forall|k: int|
            0 <= k < inputs.len() && (#[trigger] inputs[k] matches Input::Owner(
                Some(FromOwner::Output(chunk)),
            )) ==> self.run(inputs.take(k)).waiting is None
    }
}

/// Everything that the owner wrote, in order.
pub open spec fn written(inputs: Seq<Input>) -> Seq<u8>
    decreases inputs.len(),
{
    if inputs.len() == 0 {
        Seq::empty()
    } else {
        written(inputs.drop_last()) + (match inputs.last() {
            Input::Owner(Some(FromOwner::Output(chunk))) => chunk,
            _ => Seq::empty(),
        })
    }
}

/// Nothing that the owner wrote is lost, repeated or put out of order on its way into the
/// stream: what the stream has taken, followed by what still waits, is what was written.
pub proof fn law_nothing_written_is_lost(inputs: Seq<Input>)
    requires
        DriverState::initial().listens_in_turn(inputs),
    ensures
        DriverState::initial().taken(inputs) + DriverState::initial().run(inputs).pending()
            == written(inputs),
    decreases inputs.len(),
{
    let initial = DriverState::initial();
    if inputs.len() > 0 {
        let before = inputs.drop_last();
        let state = initial.run(before);
        let last = inputs.last();
        assert(initial.listens_in_turn(before)) by {
            assert forall|k: int|
                0 <= k < before.len() && (#[trigger] before[k] matches Input::Owner(
                    Some(FromOwner::Output(chunk)),
                )) implies initial.run(before.take(k)).waiting is None by {
                assert(inputs[k] == before[k]);
                assert(inputs.take(k) =~= before.take(k));
            }
        }
        law_nothing_written_is_lost(before);
        assert(inputs.take(inputs.len() - 1) =~= before);
        assert(inputs[inputs.len() - 1] == last);
        assert(initial.taken(inputs) + initial.run(inputs).pending() =~= written(inputs));
    } else {
        assert(initial.taken(inputs) + initial.run(inputs).pending() =~= written(inputs));
    }
}

/// What is held is the end of what was taken.
proof fn lemma_held_is_taken(inputs: Seq<Input>)
    ensures
        ({
            let held = DriverState::initial().run(inputs).stream.held.bytes;
            let taken = DriverState::initial().taken(inputs);
            &&& held.len() <= taken.len()
            &&& held == taken.skip(taken.len() - held.len())
        }),
    decreases inputs.len(),
{
    let initial = DriverState::initial();
    let held = initial.run(inputs).stream.held.bytes;
    let taken = initial.taken(inputs);
    if inputs.len() > 0 {
        let before = inputs.drop_last();
        lemma_held_is_taken(before);
        assert(held =~= taken.skip(taken.len() - held.len()));
    } else {
        assert(held =~= taken.skip(taken.len() - held.len()));
    }
}

/// The mirror shows what was written: every output frame that a driver asks for carries
/// bytes that the stream has taken from the owner, in the owner's order, at the place
/// where they stand counting back from the end of the stream.
pub proof fn law_frames_carry_what_was_written(inputs: Seq<Input>, index: int, i: int)
    requires
        0 <= index < inputs.len(),
        0 <= i < DriverState::initial().step_at(inputs, index).requests.len(),
        DriverState::initial().step_at(inputs, index).requests[i] is Output,
        DriverState::initial().run(inputs.take(index)).ready(inputs[index]),
    ensures
        ({
            let frame = stretch_of(DriverState::initial().step_at(inputs, index).requests[i]);
            let through = inputs.take(index + 1);
            let taken = DriverState::initial().taken(through);
            let end = DriverState::initial().run(through).stream.held.end();
            let at = taken.len() - (end - frame.start);
            &&& 0 <= at
            &&& frame.end() <= end
            &&& frame.bytes == taken.subrange(at, at + frame.bytes.len())
        }),
{
    let initial = DriverState::initial();
    let through = inputs.take(index + 1);
    assert(through.drop_last() =~= inputs.take(index));
    assert(through.last() == inputs[index]);
    lemma_step_covered(initial.run(inputs.take(index)), inputs[index], i);
    lemma_held_is_taken(through);
    let frame = stretch_of(initial.step_at(inputs, index).requests[i]);
    let held = initial.run(through).stream.held;
    let taken = initial.taken(through);
    let at = taken.len() - (held.end() - frame.start);
    assert forall|k: int| 0 <= k < frame.bytes.len() implies #[trigger] frame.bytes[k]
        == taken.subrange(at, at + frame.bytes.len())[k] by {
        let offset = frame.start + k;
        assert(frame.bytes[offset - frame.start] == held.bytes[offset - held.start]);
        assert(held.bytes[offset - held.start] == taken[taken.len() - held.bytes.len() + offset
            - held.start]);
    }
    assert(frame.bytes =~= taken.subrange(at, at + frame.bytes.len()));
}

/// Where the relay says that the stream continues, if that is what an input is.
pub open spec fn attached_at(input: Input) -> Option<u64> {
    match input {
        Input::Transport(Some(Event::Attached { terminal_id, next_offset, limits })) => Some(
            next_offset,
        ),
        _ => None,
    }
}

/// A run of a driver over one life of a terminal: the relay first says that the stream
/// begins at `base`, and is never again ahead of what was sent.
pub open spec fn is_one_life(inputs: Seq<Input>, base: u64) -> bool {
    &&& inputs.len() > 0
    &&& attached_at(inputs[0]) == Some(base)
    &&& forall|k: int|
        1 <= k < inputs.len() && attached_at(#[trigger] inputs[k]) is Some ==> attached_at(
            inputs[k],
        )->0 <= DriverState::initial().run(inputs.take(k)).stream.held.end()
    &&& forall|k: int|
        0 <= k < inputs.len() ==> DriverState::initial().run(inputs.take(k)).ready(
            #[trigger] inputs[k],
        )
}

/// The beginning of one life is one life.
proof fn lemma_one_life_so_far(inputs: Seq<Input>, base: u64, size: int)
    requires
        is_one_life(inputs, base),
        0 < size <= inputs.len(),
    ensures
        is_one_life(inputs.take(size), base),
{
    let front = inputs.take(size);
    assert forall|k: int| 0 <= k < front.len() implies #[trigger] front[k] == inputs[k]
        && front.take(k) == inputs.take(k) by {
        assert(front.take(k) =~= inputs.take(k));
    }
    assert(front[0] == inputs[0]);
}

/// The stream stands where it began, plus what it has taken.
proof fn lemma_in_place(inputs: Seq<Input>, base: u64)
    requires
        is_one_life(inputs, base),
    ensures
        DriverState::initial().run(inputs).stream.held.end() == base
            + DriverState::initial().taken(inputs).len(),
    decreases inputs.len(),
{
    let initial = DriverState::initial();
    let before = inputs.drop_last();
    let last = inputs.last();
    assert(inputs[inputs.len() - 1] == last);
    assert(inputs.take(inputs.len() - 1) =~= before);
    if before.len() == 0 {
        assert(initial.run(before) == initial);
        assert(initial.taken(before).len() == 0);
    } else {
        lemma_one_life_so_far(inputs, base, inputs.len() - 1);
        lemma_in_place(before, base);
    }
}

/// What the stream has taken early on stays at the front.
proof fn lemma_taken_grows(inputs: Seq<Input>, size: int)
    requires
        0 <= size <= inputs.len(),
    ensures
        DriverState::initial().taken(inputs.take(size)).is_prefix_of(
            DriverState::initial().taken(inputs),
        ),
    decreases inputs.len(),
{
    let initial = DriverState::initial();
    if size < inputs.len() {
        let before = inputs.drop_last();
        assert(before.take(size) =~= inputs.take(size));
        lemma_taken_grows(before, size);
    } else {
        assert(inputs.take(size) =~= inputs);
    }
}

/// The frame that a request of a run carries, if it carries one.
pub open spec fn frame_at(inputs: Seq<Input>, index: int, i: int) -> Option<Stretch> {
    let requests = DriverState::initial().step_at(inputs, index).requests;
    if 0 <= index < inputs.len() && 0 <= i < requests.len() && requests[i] is Output {
        Some(stretch_of(requests[i]))
    } else {
        None
    }
}

/// A frame was asked for at some point of a run.
pub open spec fn was_sent(inputs: Seq<Input>, frame: Stretch) -> bool {
    exists|index: int, i: int| #[trigger] frame_at(inputs, index, i) == Some(frame)
}

/// Something that happens to what the relay has of a stream.
pub enum Arrival {
    /// A frame arrives. It is appended only if it begins where the relay's copy ends.
    Frame(Stretch),
    /// The relay restarts, and falls back to what it had committed.
    Fallback(nat),
}

/// What the relay has of a stream that begins at `base`.
pub open spec fn relay_copy(base: nat, arrivals: Seq<Arrival>) -> Seq<u8>
    decreases arrivals.len(),
{
    if arrivals.len() == 0 {
        Seq::empty()
    } else {
        let before = relay_copy(base, arrivals.drop_last());
        match arrivals.last() {
            Arrival::Frame(frame) => if frame.start == base + before.len() {
                before + frame.bytes
            } else {
                before
            },
            Arrival::Fallback(size) => if size < before.len() {
                before.take(size as int)
            } else {
                before
            },
        }
    }
}

/// No hole, ever: whichever frames arrive, in whatever order and however often, and
/// wherever the relay falls back to, what the relay has of a terminal is the beginning of
/// what the shell wrote.
pub proof fn law_relay_has_what_was_written(
    inputs: Seq<Input>,
    base: u64,
    arrivals: Seq<Arrival>,
)
    requires
        DriverState::initial().listens_in_turn(inputs),
        is_one_life(inputs, base),
        forall|k: int|
            0 <= k < arrivals.len() && (#[trigger] arrivals[k]) is Frame ==> was_sent(
                inputs,
                arrivals[k]->Frame_0,
            ),
    ensures
        relay_copy(base as nat, arrivals).is_prefix_of(written(inputs)),
{
    lemma_relay_has_what_was_taken(inputs, base, arrivals);
    law_nothing_written_is_lost(inputs);
    let copy = relay_copy(base as nat, arrivals);
    let taken = DriverState::initial().taken(inputs);
    assert(written(inputs).take(copy.len() as int) =~= taken.take(copy.len() as int));
}

/// A frame that begins where a beginning of what the stream has taken ends makes it a
/// longer beginning.
#[verifier::spinoff_prover]
#[verifier::rlimit(80)]
proof fn lemma_frame_goes_on(inputs: Seq<Input>, base: u64, before: Seq<u8>, frame: Stretch)
    requires
        is_one_life(inputs, base),
        was_sent(inputs, frame),
        before.is_prefix_of(DriverState::initial().taken(inputs)),
    ensures
        frame.start == base + before.len() ==> (before + frame.bytes).is_prefix_of(
            DriverState::initial().taken(inputs),
        ),
{
    let initial = DriverState::initial();
    let whole = initial.taken(inputs);
    let (index, i) = choose|index: int, i: int| #[trigger]
        frame_at(inputs, index, i) == Some(frame);
    law_frames_carry_what_was_written(inputs, index, i);
    let through = inputs.take(index + 1);
    lemma_one_life_so_far(inputs, base, index + 1);
    lemma_in_place(through, base);
    lemma_taken_grows(inputs, index + 1);
    let taken = initial.taken(through);
    if frame.start == base + before.len() {
        let at = before.len() as int;
        assert(frame.bytes =~= taken.subrange(at, at + frame.bytes.len()));
        assert(before + frame.bytes =~= whole.take(at + frame.bytes.len()));
    }
}

/// What the relay has of a terminal is the beginning of what the stream has taken.
proof fn lemma_relay_has_what_was_taken(
    inputs: Seq<Input>,
    base: u64,
    arrivals: Seq<Arrival>,
)
    requires
        is_one_life(inputs, base),
        forall|k: int|
            0 <= k < arrivals.len() && (#[trigger] arrivals[k]) is Frame ==> was_sent(
                inputs,
                arrivals[k]->Frame_0,
            ),
    ensures
        relay_copy(base as nat, arrivals).is_prefix_of(DriverState::initial().taken(inputs)),
    decreases arrivals.len(),
{
    if arrivals.len() > 0 {
        let earlier = arrivals.drop_last();
        assert forall|k: int| 0 <= k < earlier.len() && (#[trigger] earlier[k]) is Frame implies was_sent(
            inputs,
            earlier[k]->Frame_0,
        ) by {
            assert(arrivals[k] == earlier[k]);
        }
        lemma_relay_has_what_was_taken(inputs, base, earlier);
        let before = relay_copy(base as nat, earlier);
        assert(arrivals[arrivals.len() - 1] == arrivals.last());
        match arrivals.last() {
            Arrival::Frame(frame) => {
                lemma_frame_goes_on(inputs, base, before, frame);
            },
            Arrival::Fallback(size) => {},
        }
    }
}

/// Once the close has been sent, it stays sent.
proof fn lemma_closed_stays(state: DriverState, inputs: Seq<Input>, from: int)
    requires
        0 <= from <= inputs.len(),
        state.run(inputs.take(from)).closed,
    ensures
        state.run(inputs).closed,
    decreases inputs.len(),
{
    if from < inputs.len() {
        let before = inputs.drop_last();
        assert(before.take(from) =~= inputs.take(from));
        lemma_closed_stays(state, before, from);
    } else {
        assert(inputs.take(from) =~= inputs);
    }
}

/// A terminal whose owner has finished is closed once and only once: of two settling
/// steps, whatever lies between them, at most one sends the close.
pub proof fn law_closed_once(state: DriverState, inputs: Seq<Input>, first: int, second: int)
    requires
        0 <= first < second < inputs.len(),
        inputs[first] is Settle,
        inputs[second] is Settle,
        state.run(inputs.take(first)).flushed().may_close(),
    ensures
        !state.run(inputs.take(second)).flushed().may_close(),
{
    let upto = inputs.take(second);
    let through = inputs.take(first + 1);
    assert(upto.take(first + 1) =~= through);
    assert(through.drop_last() =~= inputs.take(first));
    assert(through.last() == inputs[first]);
    lemma_closed_stays(state, upto, first + 1);
}

/// A terminal is not closed behind its owner's back: the close is only sent once the
/// owner has finished, nothing waits and everything sent has been acknowledged.
pub proof fn law_close_waits_for_commit(state: DriverState)
    requires
        state.settled().requests.contains(Request::Close { reason: PROCESS_EXITED@ }),
        state.ready(Input::Settle),
    ensures
        state.owner_gone,
        state.after_settle().waiting is None,
        state.after_settle().stream.held.bytes.len() == 0,
{
    let requests = state.settled().requests;
    let at = requests.index_of(Request::Close { reason: PROCESS_EXITED@ });
    if !state.flushed().may_close() && state.waiting is Some && state.may_send() {
        law_frames_are_contiguous(
            state.stream.held.end(),
            state.waiting->0,
            state.max_frame,
            at,
        );
    }
}

/// Output is never drawn past the relay's window: while the relay will not take more,
/// what the owner writes waits, whole and unsent, and the owner is not listened to.
pub proof fn law_window_holds_output_back(state: DriverState, chunk: Seq<u8>)
    requires
        !state.may_send(),
    ensures
        state.on_owner(Some(FromOwner::Output(chunk))) == StepModel::nothing(),
        state.after_owner(Some(FromOwner::Output(chunk))).waiting == Some(chunk),
        state.after_owner(Some(FromOwner::Output(chunk))).after_settle().waiting == Some(chunk),
{
}

} // verus!
