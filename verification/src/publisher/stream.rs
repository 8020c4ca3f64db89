//! One terminal's outgoing byte stream: offsets, retention and resynchronisation.
//!
//! The relay accepts an output frame only when its start offset is exactly where the
//! stream continues, so bytes are retained until they are acknowledged durable and are
//! sent again from wherever the relay says it is. The retained bytes live beside the
//! byte source: a process that held them and died on its own would leave the relay's
//! offsets contiguous over bytes that no longer exist anywhere.

use std::collections::VecDeque;
use vstd::prelude::*;

verus! {

/// A stretch of the stream: the bytes at offsets `start`, `start + 1`, ...
#[verifier::ext_equal]
pub struct Stretch {
    pub start: nat,
    pub bytes: Seq<u8>,
}

impl Stretch {
    /// The offset just past the last byte.
    pub open spec fn end(self) -> nat {
        self.start + self.bytes.len()
    }

    /// Whether `offset` is inside the stretch or just past it.
    pub open spec fn reaches(self, offset: nat) -> bool {
        self.start <= offset <= self.end()
    }

    /// The bytes from `offset` onwards.
    pub open spec fn suffix(self, offset: nat) -> Seq<u8>
        recommends
            self.reaches(offset),
    {
        self.bytes.subrange(offset - self.start, self.bytes.len() as int)
    }

    /// What is left once everything below `durable` is forgotten. Releasing never runs
    /// past the end of the stretch, and never brings a byte back.
    pub open spec fn released(self, durable: nat) -> Stretch {
        if durable <= self.start {
            self
        } else if durable >= self.end() {
            Stretch { start: self.end(), bytes: Seq::empty() }
        } else {
            Stretch { start: durable, bytes: self.suffix(durable) }
        }
    }

    /// The stretch with `chunk` added at its end.
    pub open spec fn extended(self, chunk: Seq<u8>) -> Stretch {
        Stretch { start: self.start, bytes: self.bytes + chunk }
    }

    /// The empty stretch at `offset`.
    pub open spec fn nothing_at(offset: nat) -> Stretch {
        Stretch { start: offset, bytes: Seq::empty() }
    }
}

/// Bytes sent but not yet acknowledged durable, kept so they can be sent again.
pub struct Retained {
    /// Offset of the first byte in `bytes`.
    start: u64,
    bytes: VecDeque<u8>,
}

impl View for Retained {
    type V = Stretch;

    closed spec fn view(&self) -> Stretch {
        Stretch { start: self.start as nat, bytes: self.bytes@ }
    }
}

impl Default for Retained {
    fn default() -> (retained: Self)
        ensures
            retained.wf(),
            retained@ == Stretch::nothing_at(0),
    {
        Self::new()
    }
}

impl Retained {
    /// Every retained byte has an offset that fits the wire format.
    pub open spec fn wf(&self) -> bool {
        self@.end() <= u64::MAX
    }

    pub fn new() -> (retained: Self)
        ensures
            retained.wf(),
            retained@ == Stretch::nothing_at(0),
    {
        Self { start: 0, bytes: VecDeque::new() }
    }

    pub fn start(&self) -> (start: u64)
        ensures
            start == self@.start,
    {
        self.start
    }

    pub fn end(&self) -> (end: u64)
        requires
            self.wf(),
        ensures
            end == self@.end(),
    {
        self.start + self.bytes.len() as u64
    }

    pub fn is_empty(&self) -> (empty: bool)
        ensures
            empty == (self@.bytes.len() == 0),
    {
        self.bytes.len() == 0
    }

    /// Keep `chunk`, which follows everything retained so far.
    pub fn append(&mut self, chunk: &[u8])
        requires
            old(self).wf(),
            old(self)@.end() + chunk@.len() <= u64::MAX,
        ensures
            final(self).wf(),
            final(self)@ == old(self)@.extended(chunk@),
    {
        let ghost before = self.bytes@;
        let mut index: usize = 0;
        while index < chunk.len()
            invariant
                index <= chunk@.len(),
                self.start == old(self).start,
                self.bytes@ =~= before + chunk@.subrange(0, index as int),
            decreases chunk@.len() - index,
        {
            self.bytes.push_back(chunk[index]);
            index = index + 1;
        }
        assert(chunk@.subrange(0, index as int) =~= chunk@);
    }

    /// Forget everything the relay has committed to storage.
    pub fn release_through(&mut self, durable_offset: u64)
        requires
            old(self).wf(),
        ensures
            final(self).wf(),
            final(self)@ == old(self)@.released(durable_offset as nat),
    {
        if durable_offset <= self.start {
            return;
        }
        let held: u64 = self.bytes.len() as u64;
        let ahead: u64 = durable_offset - self.start;
        let drop_count: u64 = if ahead < held {
            ahead
        } else {
            held
        };
        let kept = self.bytes.split_off(drop_count as usize);
        self.bytes = kept;
        self.start = self.start + drop_count;
        assert(self@ =~= old(self)@.released(durable_offset as nat));
    }

    /// The retained bytes from `offset` onwards, for retransmission.
    ///
    /// `None` means those bytes are gone, or were never here. Inventing them would
    /// corrupt the stream for every subscriber, silently and permanently.
    pub fn from(&self, offset: u64) -> (suffix: Option<Vec<u8>>)
        requires
            self.wf(),
        ensures
            suffix is Some <==> self@.reaches(offset as nat),
            suffix is Some ==> suffix->0@ == self@.suffix(offset as nat),
    {
        if offset < self.start || offset > self.end() {
            return None;
        }
        let skip: usize = (offset - self.start) as usize;
        let mut copy: Vec<u8> = Vec::new();
        let mut index: usize = skip;
        while index < self.bytes.len()
            invariant
                skip <= index <= self.bytes@.len(),
                copy@ =~= self.bytes@.subrange(skip as int, index as int),
            decreases self.bytes@.len() - index,
        {
            copy.push(self.bytes[index]);
            index = index + 1;
        }
        Some(copy)
    }

    /// Start again from `offset`, keeping nothing.
    pub fn restart_at(&mut self, offset: u64)
        ensures
            final(self).wf(),
            final(self)@ == Stretch::nothing_at(offset as nat),
    {
        self.start = offset;
        self.bytes.clear();
    }
}

/// What the caller should do next with a terminal's stream.
#[derive(Debug, PartialEq, Eq)]
pub enum Resync {
    /// Send these bytes again, starting at the given offset.
    Retransmit { start: u64, bytes: Vec<u8> },
    /// Nothing to do: the relay is where this side thought it was.
    Nothing,
    /// The bytes the relay is asking for have been released and cannot be rebuilt.
    /// The stream is unrecoverable and the terminal must be closed rather than spliced.
    Unrecoverable,
}

/// What a [`Resync`] asks for, over byte sequences.
pub enum Answer {
    Retransmit(Stretch),
    Nothing,
    Unrecoverable,
}

impl View for Resync {
    type V = Answer;

    open spec fn view(&self) -> Answer {
        match self {
            Resync::Retransmit { start, bytes } => Answer::Retransmit(
                Stretch { start: *start as nat, bytes: bytes@ },
            ),
            Resync::Nothing => Answer::Nothing,
            Resync::Unrecoverable => Answer::Unrecoverable,
        }
    }
}

/// The answer that resends everything from `offset` on, if there is anything.
pub open spec fn resend(held: Stretch, offset: nat) -> Answer {
    if offset == held.end() {
        Answer::Nothing
    } else {
        Answer::Retransmit(Stretch { start: offset, bytes: held.suffix(offset) })
    }
}

/// The state of one terminal's sending half.
pub struct StreamState {
    /// The bytes that can still be sent again. The next byte of the stream belongs at
    /// the end of this stretch.
    pub held: Stretch,
    /// Whether the relay has said where the stream continues.
    pub positioned: bool,
    /// The offset of the refusal that was answered last.
    pub answered: Option<u64>,
    /// How many unacknowledged bytes the relay accepts.
    pub window: nat,
}

impl StreamState {
    pub open spec fn initial() -> StreamState {
        StreamState {
            held: Stretch::nothing_at(0),
            positioned: false,
            answered: None,
            window: CONSERVATIVE_WINDOW as nat,
        }
    }

    pub open spec fn after_set_window(self, window: u64) -> StreamState {
        StreamState {
            window: if window < CONSERVATIVE_WINDOW {
                CONSERVATIVE_WINDOW as nat
            } else {
                window as nat
            },
            ..self
        }
    }

    pub open spec fn after_detached(self) -> StreamState {
        StreamState { positioned: false, answered: None, ..self }
    }

    /// The retained stretch once the relay has said that the stream continues at
    /// `offset`. A stream that has not begun, and one that the relay is ahead of, begin
    /// at `offset` with nothing to resend; every other stream keeps what it holds.
    pub open spec fn held_after_attached(self, offset: u64) -> Stretch {
        if self.held == Stretch::nothing_at(0) || offset > self.held.end() {
            Stretch::nothing_at(offset as nat)
        } else {
            self.held
        }
    }

    pub open spec fn after_attached(self, offset: u64) -> StreamState {
        StreamState {
            held: self.held_after_attached(offset),
            positioned: true,
            answered: None,
            window: self.window,
        }
    }

    pub open spec fn answer_to_attached(self, offset: u64) -> Answer {
        let held = self.held_after_attached(offset);
        if offset < held.start {
            Answer::Unrecoverable
        } else {
            resend(held, offset as nat)
        }
    }

    pub open spec fn after_send(self, chunk: Seq<u8>) -> StreamState {
        if self.positioned {
            StreamState { held: self.held.extended(chunk), ..self }
        } else {
            self
        }
    }

    pub open spec fn after_acknowledge(self, durable: u64) -> StreamState {
        StreamState { held: self.held.released(durable as nat), ..self }
    }

    pub open spec fn after_mismatch(self, authoritative: u64) -> StreamState {
        StreamState { answered: Some(authoritative), ..self }
    }

    pub open spec fn answer_to_mismatch(self, authoritative: u64) -> Answer {
        if self.answered == Some(authoritative) {
            Answer::Nothing
        } else if self.held.reaches(authoritative as nat) {
            resend(self.held, authoritative as nat)
        } else {
            Answer::Unrecoverable
        }
    }
}

/// The sending half of one terminal's stream.
pub struct Outgoing {
    retained: Retained,
    /// Where the next byte handed to the relay belongs.
    next_offset: u64,
    /// Whether the relay has said where the stream continues. Nothing is framed
    /// against a guess: a wrong start offset is refused, not merged.
    positioned: bool,
    /// The last offset a resynchronisation was aimed at. The relay answers every frame
    /// that was in flight when it first complained, each time with the same offset;
    /// acting on more than the first would have the two sides trading retransmissions
    /// for as long as output kept flowing.
    resync_target: Option<u64>,
    /// The relay's per-terminal unacknowledged window. Exceeding it gets the whole
    /// connection closed, so it is a hard gate and not a hint.
    window: u64,
}

/// Until the relay says otherwise, assume the smallest window it can announce, so this
/// side can never be the one that overshoots.
pub const CONSERVATIVE_WINDOW: u64 = 65536;

impl View for Outgoing {
    type V = StreamState;

    closed spec fn view(&self) -> StreamState {
        StreamState {
            held: self.retained@,
            positioned: self.positioned,
            answered: self.resync_target,
            window: self.window as nat,
        }
    }
}

impl Default for Outgoing {
    fn default() -> (stream: Self)
        ensures
            stream.wf(),
            stream@ == StreamState::initial(),
    {
        Self::new()
    }
}

impl Outgoing {
    /// The next byte belongs right after the retained ones.
    pub closed spec fn in_step(&self) -> bool {
        self.next_offset == self.retained@.end()
    }

    /// The next byte belongs right after the retained ones, every offset fits the wire
    /// format, and the window is never below the smallest that the relay can announce.
    pub open spec fn wf(&self) -> bool {
        &&& self.in_step()
        &&& self@.held.end() <= u64::MAX
        &&& self@.window >= CONSERVATIVE_WINDOW
    }

    pub fn new() -> (stream: Self)
        ensures
            stream.wf(),
            stream@ == StreamState::initial(),
    {
        Self {
            retained: Retained::new(),
            next_offset: 0,
            positioned: false,
            resync_target: None,
            window: CONSERVATIVE_WINDOW,
        }
    }

    pub fn positioned(&self) -> (positioned: bool)
        ensures
            positioned == self@.positioned,
    {
        self.positioned
    }

    pub fn next_offset(&self) -> (offset: u64)
        requires
            self.wf(),
        ensures
            offset == self@.held.end(),
    {
        self.next_offset
    }

    pub fn unacked(&self) -> (count: u64)
        requires
            self.wf(),
        ensures
            count == self@.held.bytes.len(),
    {
        self.next_offset.saturating_sub(self.retained.start())
    }

    /// True while the relay will accept more from this terminal.
    pub fn may_send(&self) -> (may: bool)
        requires
            self.wf(),
        ensures
            may == (self@.positioned && self@.held.bytes.len() < self@.window),
    {
        self.positioned && self.unacked() < self.window
    }

    pub fn set_window(&mut self, window: u64)
        requires
            old(self).wf(),
        ensures
            final(self).wf(),
            final(self)@ == old(self)@.after_set_window(window),
    {
        self.window = if window < CONSERVATIVE_WINDOW {
            CONSERVATIVE_WINDOW
        } else {
            window
        };
    }

    /// The connection is gone. Nothing may be framed until the relay says again where
    /// this stream continues; the retained bytes are exactly what survives that.
    pub fn detached(&mut self)
        requires
            old(self).wf(),
        ensures
            final(self).wf(),
            final(self)@ == old(self)@.after_detached(),
    {
        self.positioned = false;
        self.resync_target = None;
    }

    /// The relay has opened this terminal, for the first time or again, and says the
    /// stream continues at `next_offset`. Returns whatever has to be sent from there.
    pub fn attached(&mut self, next_offset: u64) -> (answer: Resync)
        requires
            old(self).wf(),
        ensures
            final(self).wf(),
            final(self)@ == old(self)@.after_attached(next_offset),
            answer@ == old(self)@.answer_to_attached(next_offset),
    {
        self.positioned = true;
        self.resync_target = None;
        // Nothing has been sent yet, so wherever the relay is, that is where this
        // stream starts.
        if self.retained.is_empty() && self.retained.start() == 0 && self.next_offset == 0 {
            assert(old(self)@.held =~= Stretch::nothing_at(0));
            self.retained.restart_at(next_offset);
            self.next_offset = next_offset;
        }
        // Behind bytes that were released: the relay has lost output that it called
        // durable. Resuming there would put different bytes at offsets that
        // subscribers already hold.
        if next_offset < self.retained.start() {
            return Resync::Unrecoverable;
        }
        match self.retained.from(next_offset) {
            Some(bytes) => {
                if bytes.len() == 0 {
                    Resync::Nothing
                } else {
                    Resync::Retransmit { start: next_offset, bytes }
                }
            },
            None => {
                // Past the end: an earlier process published under the same name and
                // got further. Nothing to resend, and the stream is still contiguous.
                self.retained.restart_at(next_offset);
                self.next_offset = next_offset;
                Resync::Nothing
            },
        }
    }

    /// Hand `chunk` to the stream. Returns the offset it starts at, or `None` when the
    /// terminal is not positioned and the bytes must wait.
    pub fn send(&mut self, chunk: &[u8]) -> (start: Option<u64>)
        requires
            old(self).wf(),
            old(self)@.positioned ==> old(self)@.held.end() + chunk@.len() <= u64::MAX,
        ensures
            final(self).wf(),
            final(self)@ == old(self)@.after_send(chunk@),
            start is Some <==> old(self)@.positioned,
            start is Some ==> start->0 == old(self)@.held.end(),
    {
        if !self.positioned {
            return None;
        }
        let start: u64 = self.next_offset;
        self.retained.append(chunk);
        self.next_offset = start + chunk.len() as u64;
        Some(start)
    }

    /// Bytes the relay has committed. Everything up to here can be forgotten.
    pub fn acknowledge(&mut self, durable_offset: u64)
        requires
            old(self).wf(),
        ensures
            final(self).wf(),
            final(self)@ == old(self)@.after_acknowledge(durable_offset),
    {
        self.retained.release_through(durable_offset);
    }

    /// The relay refused a frame and named where it actually is. It did not append, so
    /// this side is the one that has to move.
    pub fn mismatch(&mut self, authoritative: u64) -> (answer: Resync)
        requires
            old(self).wf(),
        ensures
            final(self).wf(),
            final(self)@ == old(self)@.after_mismatch(authoritative),
            answer@ == old(self)@.answer_to_mismatch(authoritative),
    {
        match self.resync_target {
            Some(target) => {
                if target == authoritative {
                    // An echo of a refusal that has already been answered.
                    return Resync::Nothing;
                }
            },
            None => {},
        }
        self.resync_target = Some(authoritative);
        match self.retained.from(authoritative) {
            Some(bytes) => {
                if bytes.len() == 0 {
                    Resync::Nothing
                } else {
                    Resync::Retransmit { start: authoritative, bytes }
                }
            },
            None => Resync::Unrecoverable,
        }
    }
}

/// Something that happens to a stream.
pub enum Event {
    SetWindow(u64),
    Detached,
    Attached(u64),
    Send(Seq<u8>),
    Acknowledge(u64),
    Mismatch(u64),
}

impl StreamState {
    pub open spec fn after(self, event: Event) -> StreamState {
        match event {
            Event::SetWindow(window) => self.after_set_window(window),
            Event::Detached => self.after_detached(),
            Event::Attached(offset) => self.after_attached(offset),
            Event::Send(chunk) => self.after_send(chunk),
            Event::Acknowledge(durable) => self.after_acknowledge(durable),
            Event::Mismatch(authoritative) => self.after_mismatch(authoritative),
        }
    }

    /// The stretch that goes onto the wire because of `event`, if any.
    pub open spec fn emitted(self, event: Event) -> Option<Stretch> {
        match event {
            Event::Attached(offset) => match self.answer_to_attached(offset) {
                Answer::Retransmit(stretch) => Some(stretch),
                _ => None,
            },
            Event::Mismatch(authoritative) => match self.answer_to_mismatch(authoritative) {
                Answer::Retransmit(stretch) => Some(stretch),
                _ => None,
            },
            Event::Send(chunk) => if self.positioned {
                Some(Stretch { start: self.held.end(), bytes: chunk })
            } else {
                None
            },
            _ => None,
        }
    }

    /// The state after all of `events`, in order.
    pub open spec fn run(self, events: Seq<Event>) -> StreamState
        decreases events.len(),
    {
        if events.len() == 0 {
            self
        } else {
            self.run(events.drop_last()).after(events.last())
        }
    }

    /// The stretch that the event at `index` of `events` put onto the wire.
    pub open spec fn emitted_at(self, events: Seq<Event>, index: int) -> Option<Stretch> {
        self.run(events.take(index)).emitted(events[index])
    }
}

/// Two stretches carry the same byte wherever both have one.
pub open spec fn agree(a: Stretch, b: Stretch) -> bool {
    forall|offset: int|
        a.start <= offset < a.end() && b.start <= offset < b.end()
            ==> #[trigger] a.bytes[offset - a.start] == b.bytes[offset - b.start]
}

/// The stretch lies below the end of what `state` holds, and wherever the two overlap
/// they carry the same bytes.
pub open spec fn covered(stretch: Stretch, state: StreamState) -> bool {
    stretch.end() <= state.held.end() && agree(stretch, state.held)
}

/// Whatever happens to a stream, a stretch that is covered stays covered.
pub proof fn lemma_covered_step(stretch: Stretch, state: StreamState, event: Event)
    requires
        covered(stretch, state),
    ensures
        covered(stretch, state.after(event)),
{
    let next = state.after(event);
    assert forall|offset: int|
        stretch.start <= offset < stretch.end() && next.held.start <= offset
            < next.held.end() implies #[trigger] stretch.bytes[offset - stretch.start]
        == next.held.bytes[offset - next.held.start] by {
        assert(state.held.start <= offset < state.held.end());
        assert(stretch.bytes[offset - stretch.start] == state.held.bytes[offset
            - state.held.start]);
    }
}

/// What goes onto the wire is covered, and reaches to the end of what is held.
pub proof fn lemma_emitted_covered(state: StreamState, event: Event)
    requires
        state.emitted(event) is Some,
    ensures
        covered(state.emitted(event)->0, state.after(event)),
        state.emitted(event)->0.end() == state.after(event).held.end(),
        state.emitted(event)->0.start >= state.after(event).held.start,
{
}

/// Every frame that was emitted before is covered by the state after `events`.
proof fn lemma_emitted_stays_covered(state: StreamState, events: Seq<Event>, index: int)
    requires
        0 <= index < events.len(),
        state.emitted_at(events, index) is Some,
    ensures
        covered(state.emitted_at(events, index)->0, state.run(events)),
    decreases events.len(),
{
    let before = events.drop_last();
    if index == events.len() - 1 {
        assert(events.take(index) =~= before);
        lemma_emitted_covered(state.run(before), events.last());
    } else {
        assert(before.take(index) =~= events.take(index));
        lemma_emitted_stays_covered(state, before, index);
        lemma_covered_step(state.emitted_at(events, index)->0, state.run(before), events.last());
    }
}

/// No offset of the stream ever carries two different bytes: whatever happens to a
/// stream, and in whatever order, any two frames that it puts onto the wire agree
/// wherever they overlap.
pub proof fn law_frames_agree(state: StreamState, events: Seq<Event>, first: int, second: int)
    requires
        0 <= first <= second < events.len(),
        state.emitted_at(events, first) is Some,
        state.emitted_at(events, second) is Some,
    ensures
        agree(state.emitted_at(events, first)->0, state.emitted_at(events, second)->0),
{
    let through = events.take(second + 1);
    assert(through.drop_last() =~= events.take(second));
    assert(through.take(first) =~= events.take(first));
    assert(through[first] == events[first]);
    assert(through.last() == events[second]);
    lemma_emitted_stays_covered(state, through, first);
    let earlier = state.emitted_at(events, first)->0;
    let later = state.emitted_at(events, second)->0;
    let held = state.run(through).held;
    lemma_emitted_covered(state.run(events.take(second)), events[second]);
    assert forall|offset: int|
        earlier.start <= offset < earlier.end() && later.start <= offset
            < later.end() implies #[trigger] earlier.bytes[offset - earlier.start]
        == later.bytes[offset - later.start] by {
        assert(later.bytes[offset - later.start] == held.bytes[offset - held.start]);
    }
}

/// Nothing is framed against a guess: until the relay has said where the stream
/// continues, handing bytes to the stream puts nothing onto the wire and changes
/// nothing.
pub proof fn law_nothing_is_framed_before_positioned(state: StreamState, chunk: Seq<u8>)
    requires
        !state.positioned,
    ensures
        state.emitted(Event::Send(chunk)) is None,
        state.after(Event::Send(chunk)) == state,
{
}

/// Losing the connection loses nothing else: the stream has no position until the relay
/// gives one, so nothing is handed to the wire, and then it answers and goes on exactly as
/// it would have without the loss.
pub proof fn law_detaching_loses_only_the_position(state: StreamState, chunk: Seq<u8>, offset: u64)
    ensures
        ({
            let detached = state.after_detached();
            &&& !detached.positioned
            &&& detached.held == state.held
            &&& detached.window == state.window
            &&& detached.emitted(Event::Send(chunk)) is None
            &&& detached.after(Event::Send(chunk)) == detached
            &&& detached.answer_to_attached(offset) == state.answer_to_attached(offset)
            &&& detached.after_attached(offset) == state.after_attached(offset)
        }),
{
}

/// A reconnect resends exactly what was not committed: when the relay comes back at an
/// offset that this side still reaches, what is sent again together with what the relay
/// already has is the whole stream, and the stream goes on where it was.
pub proof fn law_reconnect_resends_the_rest(state: StreamState, offset: u64)
    requires
        state.held.reaches(offset as nat),
        state.held != Stretch::nothing_at(0),
    ensures
        state.after_detached().after_attached(offset).held == state.held,
        offset < state.held.end() ==> state.after_detached().answer_to_attached(offset)
            == Answer::Retransmit(
            Stretch { start: offset as nat, bytes: state.held.suffix(offset as nat) },
        ),
        offset == state.held.end() ==> state.after_detached().answer_to_attached(offset)
            == Answer::Nothing,
{
}

/// A relay that has gone back behind released bytes is never spliced over, whichever
/// way it says so.
pub proof fn law_released_bytes_are_unrecoverable(state: StreamState, offset: u64)
    requires
        offset < state.held.start,
    ensures
        state.answer_to_attached(offset) == Answer::Unrecoverable,
        state.answered != Some(offset) ==> state.answer_to_mismatch(offset)
            == Answer::Unrecoverable,
{
}

/// However often the relay repeats one refusal, it is answered once, and the
/// repetitions change nothing.
pub proof fn law_echoed_refusals_are_answered_once(state: StreamState, authoritative: u64)
    ensures
        state.after_mismatch(authoritative).answer_to_mismatch(authoritative) == Answer::Nothing,
        state.after_mismatch(authoritative).after_mismatch(authoritative)
            == state.after_mismatch(authoritative),
{
}

/// Acknowledging everything that is held opens the window again, however full it was.
pub proof fn law_acknowledging_everything_opens_the_window(state: StreamState, durable: u64)
    requires
        durable >= state.held.end(),
    ensures
        state.after_acknowledge(durable).held.bytes.len() == 0,
        state.after_acknowledge(durable).held.end() == state.held.end(),
{
}

} // verus!
