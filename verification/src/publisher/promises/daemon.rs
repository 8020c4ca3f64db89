//! What can be counted on between the daemon and the terminals that it mirrors.

use crate::publisher::daemon::{
    acceptable_label, check_greeting, forward_request, hello, host_for_request, hosted_arguments,
    hosted_directory, is_acceptable, is_idle, next_wait_ms, on_client_frame, on_daemon_frame, on_daemon_message,
    on_hello, on_open, on_probe, on_retired, open, reattach_delay_ms, recent, relay_event, Claims,
    DaemonFrame, Hosting, Incoming, Received, Refusal, Relayed, Running, Talk, ToDaemon,
};
use crate::publisher::ipc::{written, Frame, FromClient, FromDaemon};
use crate::publisher::publish::Request;
use crate::publisher::session::{Event, OpenRequest, TerminalSpec};
use crate::publisher::state::RemoteOpenConfig;
use crate::text::{decimal, is_control, is_white_space, option_view, texts};
use vstd::prelude::*;
use vstd::utf8::encode_utf8;

verus! {

/// A label can be shown if and only if it is not too long, shows something and holds no
/// control character.
pub proof fn law_labels_can_be_shown(label: &str, acceptable: bool)
    requires
        call_ensures(acceptable_label, (label,), acceptable),
    ensures
        acceptable <==> encode_utf8(label@).len() <= 200 && (exists|i: int|
            0 <= i < label@.len() && !is_white_space(#[trigger] label@[i])) && forall|i: int|
            0 <= i < label@.len() ==> !is_control(#[trigger] label@[i]),
{
}

/// The times that count are those of the last minute, in their order.
proof fn lemma_recent(times: Seq<u64>, now: u64)
    ensures
        recent(times, now).len() <= times.len(),
        forall|i: int|
            0 <= i < recent(times, now).len() ==> (#[trigger] recent(times, now)[i]) + 60_000 > now,
        (forall|i: int| 0 <= i < times.len() ==> (#[trigger] times[i]) + 60_000 > now)
            ==> recent(times, now) == times,
        (forall|i: int| 0 <= i < times.len() ==> (#[trigger] times[i]) + 60_000 <= now)
            ==> recent(times, now).len() == 0,
    decreases times.len(),
{
    if times.len() > 0 {
        let front = times.drop_last();
        lemma_recent(front, now);
        if forall|i: int| 0 <= i < times.len() ==> (#[trigger] times[i]) + 60_000 > now {
            assert forall|i: int| 0 <= i < front.len() implies (#[trigger] front[i]) + 60_000
                > now by {
                assert(front[i] == times[i]);
            }
            assert(times[times.len() - 1] + 60_000 > now);
            assert(front.push(times.last()) =~= times);
        }
        if forall|i: int| 0 <= i < times.len() ==> (#[trigger] times[i]) + 60_000 <= now {
            assert forall|i: int| 0 <= i < front.len() implies (#[trigger] front[i]) + 60_000
                <= now by {
                assert(front[i] == times[i]);
            }
            assert(times[times.len() - 1] + 60_000 <= now);
        }
    }
}

/// A label that can be shown.
pub open spec fn can_be_shown(label: Seq<char>) -> bool {
    &&& encode_utf8(label).len() <= 200
    &&& exists|i: int| 0 <= i < label.len() && !is_white_space(#[trigger] label[i])
    &&& forall|i: int| 0 <= i < label.len() ==> !is_control(#[trigger] label[i])
}

/// A terminal is hosted on request if and only if this machine allows it, fewer than three
/// were asked for in the last minute, there is room, and its label can be shown. It is
/// hosted under that label, in the size that was asked for, and every attempt that was
/// allowed counts.
pub open spec fn is_hosted_as_asked(
    remote: RemoteOpenConfig,
    before: Seq<u64>,
    after: Seq<u64>,
    now: u64,
    live: int,
    request: OpenRequest,
    decision: Hosting,
) -> bool {
    let label = match request.label {
        Some(label) => label@,
        None => "phone"@,
    };
    let rested = recent(before, now).len() < 3;
    &&& decision is Host <==> remote.enabled && rested && live < remote.max_terminals
        && can_be_shown(label)
    &&& decision matches Hosting::Host { label: given, cols, rows } ==> {
        &&& given@ == label
        &&& request.cols is None ==> cols == 80
        &&& request.rows is None ==> rows == 24
        &&& request.cols is Some && request.cols->0 > 0 ==> cols == request.cols->0
        &&& request.rows is Some && request.rows->0 > 0 ==> rows == request.rows->0
        &&& request.cols == Some(0u16) ==> cols == 1
        &&& request.rows == Some(0u16) ==> rows == 1
    }
    &&& !remote.enabled ==> (decision matches Hosting::Decline(Refusal::NotPermitted)) && after
        == before
    &&& remote.enabled && !rested ==> (decision matches Hosting::Decline(Refusal::Busy)) && after
        == recent(before, now)
    &&& remote.enabled && rested ==> after == recent(before, now).push(now)
    &&& remote.enabled && rested && live >= remote.max_terminals ==> (
    decision matches Hosting::Decline(Refusal::LimitReached))
    &&& remote.enabled && rested && live < remote.max_terminals && !can_be_shown(label) ==> (
    decision matches Hosting::Decline(Refusal::NotPermitted))
}

/// Requests are hosted as they ask to be.
pub proof fn law_requests_are_hosted_as_asked(
    remote: RemoteOpenConfig,
    now: u64,
    claimed: u32,
    hosting: u32,
    request: OpenRequest,
    decision: Hosting,
)
    ensures
        forall|spawns: &mut Vec<u64>| #[trigger]
            call_ensures(
                host_for_request,
                (&remote, spawns, now, claimed, hosting, &request),
                decision,
            ) ==> is_hosted_as_asked(
                remote,
                spawns@,
                final(spawns)@,
                now,
                claimed + hosting,
                request,
                decision,
            ),
{
    assert forall|spawns: &mut Vec<u64>| #[trigger]
        call_ensures(
            host_for_request,
            (&remote, spawns, now, claimed, hosting, &request),
            decision,
        ) implies is_hosted_as_asked(
        remote,
        spawns@,
        final(spawns)@,
        now,
        claimed + hosting,
        request,
        decision,
    ) by {
        let shown = decision@;
        let label = match request.label {
            Some(label) => label@,
            None => "phone"@,
        };
        assert(is_acceptable(label) <==> can_be_shown(label));
        let decided = crate::publisher::daemon::hosting(
            remote@,
            spawns@,
            now,
            claimed + hosting,
            request@,
        );
        assert(decided == (shown, final(spawns)@));
        assert(request@.label == (match request.label {
            Some(label) => Some(label@),
            None => None,
        }));
    }
}

/// Only the last minute counts against a request: three attempts in it are enough to
/// refuse one, and none are left of what lies further back.
pub proof fn law_attempts_count_for_a_minute(times: Seq<u64>, now: u64)
    ensures
        forall|i: int|
            0 <= i < recent(times, now).len() ==> now < (#[trigger] recent(times, now)[i]) + 60_000,
        (forall|i: int| 0 <= i < times.len() ==> now < (#[trigger] times[i]) + 60_000)
            ==> recent(times, now) == times,
        (forall|i: int| 0 <= i < times.len() ==> (#[trigger] times[i]) + 60_000 <= now)
            ==> recent(times, now).len() == 0,
{
    lemma_recent(times, now);
}

/// A hosted terminal is started with its label, its size, the request that it answers and
/// the shell that this machine is set up with, and nothing of it comes from elsewhere.
pub proof fn law_hosted_terminals_are_started_as_decided(
    state_file: &str,
    remote: RemoteOpenConfig,
    label: &str,
    request_id: &str,
    cols: u16,
    rows: u16,
    arguments: Vec<String>,
    home: Option<String>,
    directory: Option<String>,
)
    requires
        call_ensures(
            hosted_arguments,
            (state_file, &remote, label, request_id, cols, rows),
            arguments,
        ),
        call_ensures(hosted_directory, (&remote, &home), directory),
    ensures
        ({
            let list = texts(arguments@);
            &&& list[0] == "--state-file"@ && list[1] == state_file@
            &&& list[2] == "run"@
            &&& list[3] == "--label"@ && list[4] == label@
            &&& list[5] == "--in-reply-to"@ && list[6] == request_id@
            &&& list[7] == "--cols"@ && list[8] == decimal(cols as nat)
            &&& list[9] == "--rows"@ && list[10] == decimal(rows as nat)
            &&& remote.shell@.len() == 0 ==> list.len() == 11
            &&& remote.shell@.len() > 0 ==> list.len() == 12 + remote.shell@.len() && list[11]
                == "--"@ && list.skip(12) == texts(remote.shell@)
        }),
        remote.cwd@.len() > 0 ==> directory is Some && (directory->0)@ == remote.cwd@,
        remote.cwd@.len() == 0 ==> option_view(directory) == option_view(home),
{
    if remote.shell@.len() > 0 {
        assert(texts(arguments@).skip(12) =~= texts(remote.shell@));
    }
}

/// The daemon is idle if and only if nobody is connected, nothing is hosted, and nobody can
/// ask for a terminal.
pub proof fn law_idle_daemons_have_nothing_to_do(
    clients: u32,
    hosting: u32,
    remote: bool,
    idle: bool,
)
    requires
        call_ensures(is_idle, (clients, hosting, remote), idle),
    ensures
        idle <==> clients == 0 && hosting == 0 && !remote,
{
}

/// A client that says hello is told who the daemon is and how many others there are; one
/// that begins otherwise is refused.
pub proof fn law_clients_say_hello_first(
    received: Received,
    clients: u32,
    build: &str,
    pid: u32,
    talk: Talk,
)
    requires
        call_ensures(on_hello, (received, clients, build, pid), talk),
    ensures
        (received matches Received::Control(FromClient::Hello { .. })) <==> talk is Answer,
        talk matches Talk::Answer(answer) ==> (answer matches FromDaemon::HelloOk {
            ipc_version,
            build: told,
            pid: told_pid,
            clients: others,
        } && told@ == build@ && told_pid == pid && (clients > 0 ==> others == clients - 1) && (
        clients == 0 ==> others == 0)),
        received is Unreadable ==> talk is Fail && talk->Fail_0@ == received->Unreadable_0@,
        received is End ==> talk is Fail && talk->Fail_0@ == received->End_0@,
        received is Failed ==> talk is Fail && talk->Fail_0@ == received->Failed_0@,
        talk matches Talk::Refuse { answer, reason } ==> (answer matches FromDaemon::Error {
            code,
            message,
        } && code@ == "protocol_error"@),
{
    let shown = talk@;
    let seen = received@;
    if let Talk::Answer(answer) = talk {
        let told = answer@;
    }
    if let Talk::Refuse { answer, reason } = talk {
        let told = answer@;
    }
}

/// A terminal is opened as its client describes it, under a reference that nobody else
/// here has; the daemon stands down only when it is alone.
pub proof fn law_terminals_are_opened_as_described(
    received: Received,
    others: u32,
    talk: Talk,
)
    ensures
        forall|claims: &mut Claims| #[trigger]
            call_ensures(on_open, (received, others, claims), talk) && claims.wf() ==> {
                &&& received matches Received::Control(
                    FromClient::Open { local_ref, label, cols, rows, term, in_reply_to },
                ) ==> {
                    &&& talk is Open <==> !claims@.contains(local_ref@)
                    &&& talk matches Talk::Open(spec) ==> {
                        &&& spec.local_ref@ == local_ref@
                        &&& spec.label@ == label@
                        &&& spec.cols == cols
                        &&& spec.rows == rows
                        &&& spec.term@ == term@
                        &&& option_view(spec.in_reply_to) == option_view(in_reply_to)
                        &&& final(claims)@ == claims@.push(local_ref@)
                    }
                    &&& talk matches Talk::Refuse { answer, reason } ==> (
                    answer matches FromDaemon::Error { code, message } && code@
                        == "duplicate_local_ref"@) && final(claims)@ == claims@
                }
                &&& received matches Received::Control(FromClient::Retire) ==> {
                    &&& talk is StandDown <==> others == 0 && claims@.len() == 0
                    &&& final(claims)@ == claims@
                }
                &&& talk is Open ==> (received matches Received::Control(FromClient::Open { .. }))
                &&& talk is StandDown ==> (received matches Received::Control(FromClient::Retire))
            },
{
    assert forall|claims: &mut Claims| #[trigger]
        call_ensures(on_open, (received, others, claims), talk) && claims.wf() implies ({
        received matches Received::Control(
            FromClient::Open { local_ref, label, cols, rows, term, in_reply_to },
        ) ==> {
            &&& talk matches Talk::Open(spec) ==> {
                &&& spec.local_ref@ == local_ref@
                &&& spec.label@ == label@
                &&& spec.cols == cols
                &&& spec.rows == rows
                &&& spec.term@ == term@
                &&& option_view(spec.in_reply_to) == option_view(in_reply_to)
            }
            &&& talk matches Talk::Refuse { answer, reason } ==> (answer matches FromDaemon::Error {
                code,
                message,
            } && code@ == "duplicate_local_ref"@)
        }
    }) by {
        let shown = talk@;
        let seen = received@;
        if let Talk::Open(spec) = talk {
            let told = spec@;
        }
        if let Talk::Refuse { answer, reason } = talk {
            let told = answer@;
        }
    }
}

/// What an open terminal sends is carried on: its output as it is, from where it stands,
/// and its size; closing, or going away, ends it.
pub proof fn law_terminals_are_carried_on(received: Received, talk: Talk)
    requires
        call_ensures(on_client_frame, (received,), talk),
    ensures
        received matches Received::Output { start_offset: at, bytes: given } ==> {
            &&& given@.len() > 0 ==> (talk matches Talk::Publish { start_offset, bytes }
                && start_offset == at && bytes@ == given@)
            &&& given@.len() == 0 ==> talk is Ignore
        },
        received matches Received::Control(FromClient::Resize { cols: wide, rows: high }) ==> (
        talk matches Talk::Resize { cols, rows } && cols == wide && rows == high),
        received matches Received::Control(FromClient::Close { .. }) ==> talk is Finish,
        received is End ==> talk is Finish,
        received is Input ==> talk is Fail,
        received is Unreadable ==> talk is Fail && talk->Fail_0@ == received->Unreadable_0@,
        received is Failed ==> talk is Fail && talk->Fail_0@ == received->Failed_0@,
        talk is Publish ==> received is Output,
        talk is Finish ==> received is End || (received matches Received::Control(
            FromClient::Close { .. },
        )),
{
    let shown = talk@;
    let seen = received@;
    if let Talk::Publish { start_offset, bytes } = talk {
        assert(shown->Publish_bytes == bytes@);
    }
}

/// What the daemon passes on arrives: an event that is put into a message and taken out of
/// it again is the same event, keystrokes are passed on as they are, and the end is the
/// last that is passed on.
pub proof fn law_events_arrive_as_sent(event: Event, out: Relayed, incoming: Incoming)
    requires
        call_ensures(relay_event, (event,), out),
        (out matches Relayed::Message(message) ==> call_ensures(
            on_daemon_message,
            (message,),
            incoming,
        )),
        (out matches Relayed::Last(message) ==> call_ensures(
            on_daemon_message,
            (message,),
            incoming,
        )),
    ensures
        out is Message ==> incoming is Event && incoming->Event_0@ == event@,
        event matches Event::Input(bytes) ==> (out matches Relayed::Input(sent) && sent@ == bytes@),
        event matches Event::Ended(reason) ==> out is Last && (incoming matches Incoming::Final(
            told,
        ) && told@ == reason@),
        out is Last ==> event is Ended,
        out is Input ==> event is Input,
{
    let shown = out@;
    let seen = event@;
    let got = incoming@;
    if let Relayed::Message(message) = out {
        let told = message@;
    }
    if let Relayed::Last(message) = out {
        let told = message@;
    }
    if let Relayed::Input(bytes) = out {
        assert(shown->Input_0 == bytes@);
    }
}

/// Keystrokes come to their terminal as they are, an error ends it with what was said, and
/// what is not understood is left alone.
pub proof fn law_frames_of_the_daemon_are_understood(frame: DaemonFrame, incoming: Incoming)
    requires
        call_ensures(on_daemon_frame, (frame,), incoming),
    ensures
        frame matches DaemonFrame::Input(bytes) ==> (incoming matches Incoming::Event(
            Event::Input(got),
        ) && got@ == bytes@),
        frame matches DaemonFrame::Control(None) ==> incoming is Ignore,
        frame matches DaemonFrame::Control(Some(FromDaemon::Error { code, message })) ==> (
        incoming matches Incoming::Final(reason) && reason@ == code@ + ": "@ + message@),
        frame matches DaemonFrame::Control(Some(FromDaemon::HelloOk { .. })) ==> incoming is Ignore,
        frame matches DaemonFrame::Control(Some(FromDaemon::Unrecognised)) ==> incoming is Ignore,
        frame is Output ==> incoming is Final,
{
    let shown = incoming@;
    if let Incoming::Event(event) = incoming {
        let told = event@;
    }
    if let DaemonFrame::Control(Some(message)) = frame {
        let told = message@;
    }
}

/// What a terminal asks for is handed to the daemon as it is, and closing is the last.
pub proof fn law_requests_are_handed_on(request: Request, out: ToDaemon)
    requires
        call_ensures(forward_request, (request,), out),
    ensures
        request matches Request::Output { start_offset, bytes } ==> (out matches ToDaemon::Frame(
            sent,
        ) && sent@ == written(Frame::Output { start_offset, bytes: bytes@ })),
        request matches Request::Resize { cols: wide, rows: high } ==> (
        out matches ToDaemon::Control { message: FromClient::Resize { cols, rows }, last } && cols
            == wide && rows == high && !last),
        request matches Request::Close { reason: why } ==> (out matches ToDaemon::Control {
            message: FromClient::Close { reason },
            last,
        } && reason@ == why@ && last),
{
    let shown = out@;
    let seen = request@;
    if let ToDaemon::Control { message, last } = out {
        let told = message@;
    }
}

/// A terminal is announced to the daemon as it is; only the first time it says which
/// request it answers.
pub proof fn law_terminals_are_announced_as_they_are(
    spec: TerminalSpec,
    again: bool,
    message: FromClient,
    build: &str,
    pid: u32,
    greeting: FromClient,
)
    requires
        call_ensures(open, (&spec, again), message),
        call_ensures(hello, (build, pid), greeting),
    ensures
        message matches FromClient::Open { local_ref, label, cols, rows, term, in_reply_to } && {
            &&& local_ref@ == spec.local_ref@
            &&& label@ == spec.label@
            &&& cols == spec.cols
            &&& rows == spec.rows
            &&& term@ == spec.term@
            &&& again ==> in_reply_to is None
            &&& !again ==> option_view(in_reply_to) == option_view(spec.in_reply_to)
        },
        greeting matches FromClient::Hello { ipc_version, build: told, pid: told_pid } && ipc_version
            == 2 && told@ == build@ && told_pid == pid,
{
    let shown = message@;
    let seen = spec@;
    let greeted = greeting@;
}

/// A daemon is talked to if and only if it answers a greeting in the version that it was
/// greeted in.
pub proof fn law_versions_have_to_agree(
    build: &str,
    pid: u32,
    greeting: FromClient,
    answer: FromDaemon,
    shown: &str,
    result: Result<(), String>,
)
    requires
        call_ensures(hello, (build, pid), greeting),
        call_ensures(check_greeting, (&answer, shown), result),
    ensures
        result is Ok <==> (answer matches FromDaemon::HelloOk { ipc_version: theirs, .. }
            && greeting@->ipc_version == theirs),
{
    let told = answer@;
}

/// What runs is what answers a greeting, and a daemon has retired if and only if it says
/// that it ended.
pub proof fn law_probes_tell_what_runs(
    answer: Option<FromDaemon>,
    running: Option<Running>,
    result: Result<bool, String>,
)
    requires
        call_ensures(on_probe, (answer,), running),
        call_ensures(on_retired, (answer,), result),
    ensures
        running is Some <==> (answer matches Some(FromDaemon::HelloOk { .. })),
        answer matches Some(FromDaemon::HelloOk { ipc_version, build, pid, clients })
            ==> running->0.pid == pid && running->0.build@ == build@ && running->0.ipc_version
            == ipc_version && running->0.clients == clients,
        result == Ok::<bool, String>(true) <==> (answer matches Some(FromDaemon::Ended { .. })),
        result is Err <==> (answer matches Some(FromDaemon::Error { .. })),
        answer matches Some(FromDaemon::Error { code, message }) ==> result->Err_0@ == message@,
{
    if let Some(message) = answer {
        let told = message@;
    }
}

/// A wait doubles until it is a quarter of a second, and stays there.
pub proof fn law_waits_double(wait: u64, next: u64)
    requires
        call_ensures(next_wait_ms, (wait,), next),
    ensures
        next <= 250,
        wait <= 125 ==> next == 2 * wait,
        wait > 125 ==> next == 250,
{
}

/// Attaching again waits a quarter of a second at first, twice as long each time, and never
/// longer than half a minute.
pub proof fn law_attaching_again_waits_longer_each_time(
    attempt: u32,
    first: u64,
    delay: u64,
    next: u64,
)
    requires
        attempt < u32::MAX,
        call_ensures(reattach_delay_ms, (0,), first),
        call_ensures(reattach_delay_ms, (attempt,), delay),
        call_ensures(reattach_delay_ms, ((attempt + 1) as u32,), next),
    ensures
        first == 250,
        2 * delay <= 30_000 ==> next == 2 * delay,
        2 * delay > 30_000 ==> next == 30_000,
{
    assert(crate::publisher::backoff::delay_before(250, (attempt + 1) as nat) == next);
}

} // verus!
