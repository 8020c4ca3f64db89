//! What can be counted on of output on its way to the relay.

use crate::publisher::publish::{
    carried, law_frames_are_contiguous, send_output, Driver, FromOwner, Notice, Request, Step,
};
use crate::publisher::session::Event;
use crate::publisher::stream::{Outgoing, Resync};
use vstd::prelude::*;

verus! {

/// Output that is sent stands directly behind what was sent before it, and is kept.
pub proof fn law_sent_output_is_kept(chunk: &[u8], start: Option<u64>)
    ensures
        forall|s: &mut Outgoing| #[trigger]
            call_ensures(Outgoing::send, (s, chunk), start) && s.wf() && s@.held.end()
                + chunk@.len() <= u64::MAX ==> {
                &&& start is Some <==> s@.positioned
                &&& start is Some ==> {
                    &&& start->0 == s@.held.start + s@.held.bytes.len()
                    &&& final(s)@.held.start == s@.held.start
                    &&& final(s)@.held.bytes == s@.held.bytes + chunk@
                }
                &&& start is None ==> final(s)@ == s@
                &&& final(s)@.positioned == s@.positioned
                &&& final(s)@.window == s@.window
            },
{
}

/// What the relay has committed is forgotten, and nothing else: the rest stays where it
/// is, and the end of the stream does not move.
pub proof fn law_committed_output_is_forgotten(durable: u64)
    ensures
        forall|s: &mut Outgoing| #[trigger]
            call_ensures(Outgoing::acknowledge, (s, durable), ()) && s.wf() ==> {
                let start = s@.held.start as int;
                let end = start + s@.held.bytes.len();
                &&& final(s)@.held.start + final(s)@.held.bytes.len() == end
                &&& durable <= start ==> final(s)@.held == s@.held
                &&& start <= durable <= end ==> final(s)@.held.start == durable && final(s)@.held.bytes == s@.held.bytes.skip(durable - start)
                &&& durable > end ==> final(s)@.held.bytes.len() == 0
                &&& final(s)@.positioned == s@.positioned
                &&& final(s)@.window == s@.window
            },
{
    assert forall|s: &mut Outgoing| #[trigger]
        call_ensures(Outgoing::acknowledge, (s, durable), ()) && s.wf() implies ({
        let start = s@.held.start as int;
        let end = start + s@.held.bytes.len();
        start <= durable <= end ==> final(s)@.held.bytes == s@.held.bytes.skip(durable - start)
    }) by {
        let start = s@.held.start as int;
        let end = start + s@.held.bytes.len();
        if start <= durable <= end {
            assert(final(s)@.held.bytes =~= s@.held.bytes.skip(durable - start));
        }
    }
}

/// Where the relay says the stream is decides what is sent again: exactly the rest from
/// there on, nothing where it has everything, and nothing that is no longer kept.
pub proof fn law_the_rest_is_sent_again(offset: u64, answer: Resync)
    ensures
        forall|s: &mut Outgoing| #[trigger]
            call_ensures(Outgoing::attached, (s, offset), answer) && s.wf() ==> {
                let start = s@.held.start as int;
                let end = start + s@.held.bytes.len();
                let fresh = start == 0 && end == 0;
                &&& final(s)@.positioned
                &&& final(s)@.window == s@.window
                &&& answer is Unrecoverable <==> !fresh && offset < start
                &&& answer is Nothing <==> fresh || offset >= end
                &&& answer matches Resync::Retransmit { start: from, bytes } ==> from == offset
                    && bytes@ == s@.held.bytes.skip(offset - start)
                &&& fresh || offset > end ==> final(s)@.held.start == offset && final(s)@.held.bytes.len() == 0
                &&& !fresh && offset <= end ==> final(s)@.held == s@.held
            },
{
    assert forall|s: &mut Outgoing| #[trigger]
        call_ensures(Outgoing::attached, (s, offset), answer) && s.wf() implies ({
        let start = s@.held.start as int;
        let end = start + s@.held.bytes.len();
        let fresh = start == 0 && end == 0;
        &&& answer is Unrecoverable <==> !fresh && offset < start
        &&& answer is Nothing <==> fresh || offset >= end
        &&& answer matches Resync::Retransmit { start: from, bytes } ==> from == offset && bytes@
            == s@.held.bytes.skip(offset - start)
        &&& fresh || offset > end ==> final(s)@.held.start == offset && final(s)@.held.bytes.len()
            == 0
        &&& !fresh && offset <= end ==> final(s)@.held == s@.held
    }) by {
        let start = s@.held.start as int;
        let end = start + s@.held.bytes.len();
        let shown = answer@;
        if start == 0 && end == 0 {
            assert(s@.held.bytes =~= Seq::empty());
        }
        if let Resync::Retransmit { start: from, bytes } = answer {
            assert(bytes@ =~= s@.held.bytes.skip(offset - start));
        }
    }
}

/// A refusal is answered with the rest from where the relay is, once; its echo with
/// nothing; and one for what is no longer kept cannot be answered.
pub proof fn law_refusals_are_answered_once(offset: u64, answer: Resync)
    ensures
        forall|s: &mut Outgoing| #[trigger]
            call_ensures(Outgoing::mismatch, (s, offset), answer) && s.wf() ==> {
                let start = s@.held.start as int;
                let end = start + s@.held.bytes.len();
                let echo = s@.answered == Some(offset);
                &&& final(s)@.answered == Some(offset)
                &&& final(s)@.held == s@.held
                &&& final(s)@.positioned == s@.positioned
                &&& answer is Nothing <==> echo || offset == end
                &&& answer is Unrecoverable <==> !echo && (offset < start || offset > end)
                &&& answer matches Resync::Retransmit { start: from, bytes } ==> from == offset
                    && bytes@ == s@.held.bytes.skip(offset - start)
            },
{
    assert forall|s: &mut Outgoing| #[trigger]
        call_ensures(Outgoing::mismatch, (s, offset), answer) && s.wf() implies ({
        let start = s@.held.start as int;
        answer matches Resync::Retransmit { start: from, bytes } ==> from == offset && bytes@
            == s@.held.bytes.skip(offset - start)
    }) by {
        let start = s@.held.start as int;
        let shown = answer@;
        if let Resync::Retransmit { start: from, bytes } = answer {
            assert(bytes@ =~= s@.held.bytes.skip(offset - start));
        }
    }
}

/// The window is the one that was announced, but never smaller than one that always works;
/// and output is sent while less is on its way than fits.
pub proof fn law_windows_hold_back(window: u64, stream: Outgoing, may: bool, unacked: u64, next: u64)
    requires
        stream.wf(),
        call_ensures(Outgoing::may_send, (&stream,), may),
        call_ensures(Outgoing::unacked, (&stream,), unacked),
        call_ensures(Outgoing::next_offset, (&stream,), next),
    ensures
        forall|s: &mut Outgoing| #[trigger]
            call_ensures(Outgoing::set_window, (s, window), ()) && s.wf() ==> {
                &&& window >= 65536 ==> final(s)@.window == window
                &&& window < 65536 ==> final(s)@.window == 65536
                &&& final(s)@.held == s@.held
                &&& final(s)@.positioned == s@.positioned
            },
        forall|s: &mut Outgoing| #[trigger]
            call_ensures(Outgoing::detached, (s,), ()) && s.wf() ==> {
                &&& !final(s)@.positioned
                &&& final(s)@.answered is None
                &&& final(s)@.held == s@.held
                &&& final(s)@.window == s@.window
            },
        may <==> stream@.positioned && unacked < stream@.window,
        next - unacked == stream@.held.start,
        unacked == stream@.held.bytes.len(),
{
}

/// Output is cut into frames of the announced size: put together again they are the
/// output, each begins where the one before it ended, and only the last may be shorter.
pub proof fn law_output_is_cut_into_frames(
    start: u64,
    bytes: &[u8],
    max_frame: u64,
    requests: Vec<Request>,
)
    requires
        max_frame > 0,
        start + bytes@.len() <= u64::MAX,
        call_ensures(send_output, (start, bytes, max_frame), requests),
    ensures
        bytes@.len() == 0 ==> requests@.len() == 0,
        bytes@.len() > 0 ==> carried(Seq::new(requests@.len(), |i: int| requests@[i]@)) == bytes@,
        forall|i: int|
            0 <= i < requests@.len() ==> {
                &&& (#[trigger] requests@[i]) matches Request::Output { start_offset, bytes: piece }
                    && 0 < piece@.len() <= max_frame && start_offset == start + i * max_frame
                    && piece@ == bytes@.subrange(i * max_frame, i * max_frame + piece@.len())
            },
{
    let list = Seq::new(requests@.len(), |i: int| requests@[i]@);
    if bytes@.len() > 0 {
        assert(list.len() > 0);
        law_frames_are_contiguous(start as nat, bytes@, max_frame as nat, 0);
    }
    assert forall|i: int| 0 <= i < requests@.len() implies {
        &&& (#[trigger] requests@[i]) matches Request::Output { start_offset, bytes: piece } && 0
            < piece@.len() <= max_frame && start_offset == start + i * max_frame && piece@
            == bytes@.subrange(i * max_frame, i * max_frame + piece@.len())
    } by {
        law_frames_are_contiguous(start as nat, bytes@, max_frame as nat, i);
        assert(list[i] == requests@[i]@);
        if let Request::Output { start_offset, bytes: piece } = requests@[i] {
            assert(list[i]->Output_bytes == piece@);
        }
    }
}

/// What comes for the terminal's owner is passed on as it is, and nothing else is.
pub proof fn law_owners_are_told(event: Option<Event>, step: Step)
    ensures
        forall|d: &mut Driver| #[trigger]
            call_ensures(Driver::on_event, (d, event), step) && d.wf() ==> {
                &&& event matches Some(Event::Input(bytes)) ==> {
                    &&& step@.notices == seq![Notice::<Seq<char>, Seq<u8>>::Input(bytes@)]
                    &&& step@.requests.len() == 0
                    &&& !step.finished
                    &&& final(d)@ == d@
                }
                &&& event matches Some(Event::ResizeRequest { cols, rows }) ==> {
                    &&& step@.notices == seq![
                        Notice::<Seq<char>, Seq<u8>>::Resize { cols, rows },
                    ]
                    &&& step@.requests.len() == 0
                    &&& !step.finished
                    &&& final(d)@ == d@
                }
                &&& event matches Some(Event::Ended(reason)) ==> {
                    &&& step@.notices == seq![Notice::<Seq<char>, Seq<u8>>::Ended(reason@)]
                    &&& step@.requests.len() == 0
                    &&& step.finished
                }
                &&& event is None ==> {
                    &&& step@.notices == seq![
                        Notice::<Seq<char>, Seq<u8>>::Ended("mirroring stopped"@),
                    ]
                    &&& step@.requests.len() == 0
                    &&& step.finished
                }
                &&& event matches Some(Event::Ack { durable_offset }) ==> {
                    &&& step@.notices.len() == 0
                    &&& step@.requests.len() == 0
                    &&& !step.finished
                }
                &&& event matches Some(Event::Detached) ==> {
                    &&& step@.notices.len() == 0
                    &&& step@.requests.len() == 0
                    &&& !step.finished
                    &&& !final(d)@.stream.positioned
                    &&& final(d)@.stream.held == d@.stream.held
                }
            },
{
}

/// The announced limits apply from the next byte on, but a frame is never smaller than one
/// that always works.
pub proof fn law_limits_apply_to_frames(event: Option<Event>, step: Step)
    ensures
        forall|d: &mut Driver| #[trigger]
            call_ensures(Driver::on_event, (d, event), step) && d.wf() ==> {
                &&& event matches Some(Event::Attached { terminal_id, next_offset, limits }) ==> {
                    &&& limits.max_output_frame_bytes >= 1024 ==> final(d)@.max_frame
                        == limits.max_output_frame_bytes
                    &&& limits.max_output_frame_bytes < 1024 ==> final(d)@.max_frame == 1024
                    &&& limits.max_unacked_output_bytes >= 65536 ==> final(d)@.stream.window
                        == limits.max_unacked_output_bytes
                    &&& limits.max_unacked_output_bytes < 65536 ==> final(d)@.stream.window
                        == 65536
                    &&& final(d)@.stream.positioned
                    &&& d@.stream.held.start > next_offset ==> {
                        &&& step.finished
                        &&& step@.requests == seq![
                            Request::<Seq<char>, Seq<u8>>::Close {
                                reason: "publisher_desynchronised"@,
                            },
                        ]
                        &&& step@.notices.len() == 1
                        &&& step@.notices[0] is Ended
                    }
                }
                &&& final(d)@.owner_gone == d@.owner_gone
                &&& final(d)@.closed == d@.closed
                &&& final(d)@.waiting == d@.waiting
            },
{
    assert forall|d: &mut Driver| #[trigger]
        call_ensures(Driver::on_event, (d, event), step) && d.wf() implies ({
        event matches Some(Event::Attached { terminal_id, next_offset, limits }) ==> (
        d@.stream.held.start > next_offset ==> step.finished)
    }) by {
        let shown = step@;
        if let Some(Event::Attached { terminal_id, next_offset, limits }) = event {
            let limited = d@.with_limits(limits);
            assert(limited.stream.held == d@.stream.held);
        }
    }
}

/// What the owner writes is sent at once where it may be, and waits otherwise; a new size
/// is declared at once.
pub proof fn law_owners_write(from: Option<FromOwner>, step: Step)
    ensures
        forall|d: &mut Driver| #[trigger]
            call_ensures(Driver::on_owner, (d, from), step) && d.wf() && (from matches Some(
                FromOwner::Output(chunk),
            ) ==> d@.stream.held.end() + chunk@.len() <= u64::MAX) ==> {
                let may = d@.stream.positioned && d@.stream.held.bytes.len() < d@.stream.window;
                &&& step@.notices.len() == 0
                &&& !step.finished
                &&& from matches Some(FromOwner::Resize { cols, rows }) ==> step@.requests == seq![
                    Request::<Seq<char>, Seq<u8>>::Resize { cols, rows },
                ] && final(d)@ == d@
                &&& from matches Some(FromOwner::Output(chunk)) ==> {
                    &&& may ==> final(d)@.stream.held.bytes == d@.stream.held.bytes + chunk@
                        && final(d)@.waiting == d@.waiting
                    &&& !may ==> final(d)@.waiting == Some(chunk@) && final(d)@.stream == d@.stream
                        && step@.requests.len() == 0
                }
                &&& from is None ==> final(d)@.owner_gone && step@.requests.len() == 0
                    && final(d)@.stream == d@.stream
            },
{
}

/// A terminal whose owner is gone is closed, once, as soon as the relay has everything; and
/// what waited is sent as soon as it may be.
pub proof fn law_finished_output_closes_the_terminal(step: Step)
    ensures
        forall|d: &mut Driver| #[trigger]
            call_ensures(Driver::settle, (d,), step) && d.wf() && d.waiting_fits() ==> {
                let may = d@.stream.positioned && d@.stream.held.bytes.len() < d@.stream.window;
                let empty = d@.waiting is None && d@.stream.held.bytes.len() == 0;
                &&& step@.notices.len() == 0
                &&& !step.finished
                &&& d@.owner_gone && !d@.closed && empty ==> final(d)@.closed && step@.requests
                    == seq![Request::<Seq<char>, Seq<u8>>::Close { reason: "process_exited"@ }]
                &&& d@.waiting is None && !(d@.owner_gone && !d@.closed && empty) ==> step@.requests.len()
                    == 0 && final(d)@.closed == d@.closed
                &&& d@.waiting is Some && may ==> final(d)@.waiting is None && final(d)@.stream.held.bytes == d@.stream.held.bytes + d@.waiting->0
                &&& d@.waiting is Some && !may ==> final(d)@ == d@ && step@.requests.len() == 0
            },
{
    assert forall|d: &mut Driver| #[trigger]
        call_ensures(Driver::settle, (d,), step) && d.wf() && d.waiting_fits() implies ({
        let empty = d@.waiting is None && d@.stream.held.bytes.len() == 0;
        d@.owner_gone && !d@.closed && empty ==> step@.requests == seq![
            Request::<Seq<char>, Seq<u8>>::Close { reason: "process_exited"@ },
        ]
    }) by {
        let shown = step@;
        assert(Seq::<Request<Seq<char>, Seq<u8>>>::empty() + seq![
            Request::<Seq<char>, Seq<u8>>::Close { reason: "process_exited"@ },
        ] =~= seq![Request::<Seq<char>, Seq<u8>>::Close { reason: "process_exited"@ }]);
    }
}

/// A stream begins with nothing kept and nowhere to send to, and with limits that always
/// work; its owner is listened to while nothing waits.
pub proof fn law_streams_begin_empty(
    driver: Driver,
    stream: Outgoing,
    later: Driver,
    wants: bool,
    count: usize,
    waiting: usize,
    room: bool,
)
    requires
        call_ensures(Driver::new, (), driver),
        call_ensures(Outgoing::new, (), stream),
        later.wf(),
        call_ensures(Driver::wants_owner, (&later,), wants),
        call_ensures(Driver::waiting_len, (&later,), waiting),
        call_ensures(Driver::has_room_for, (&later, count), room),
    ensures
        driver@.max_frame == 65536,
        !driver@.owner_gone && !driver@.closed && driver@.waiting is None,
        driver@.stream == stream@,
        stream@.held.start == 0 && stream@.held.bytes.len() == 0,
        !stream@.positioned && stream@.answered is None,
        stream@.window == 65536,
        wants <==> !later@.owner_gone && later@.waiting is None,
        later@.waiting is None ==> waiting == 0,
        later@.waiting matches Some(chunk) ==> waiting == chunk.len(),
        room <==> later@.stream.held.start + later@.stream.held.bytes.len() + count <= u64::MAX,
{
}

} // verus!
