//! What a person is told.

use crate::paths::System;
use crate::publisher::api::ApiError;
use crate::publisher::cli::{describe_window, WindowPolicy};
use crate::publisher::daemon::{quoted_list, remote_open_record, Claims, Running};
use crate::publisher::ipc::Paths;
use crate::publisher::pty::PtyError;
use crate::publisher::report::{
    daemon_status, daemon_stopped, enrolled, pair_code, paired, remote_open_disabled,
    remote_open_enabled, remote_open_status, status,
};
use crate::publisher::state::{RemoteOpenConfig, State, StateError};
use crate::text::{decimal, quoted_text, signed_decimal, spaced, texts};
use vstd::prelude::*;

verus! {

/// A list of lines has this one.
pub open spec fn tells(lines: Vec<String>, line: Seq<char>) -> bool {
    exists|i: int| 0 <= i < lines@.len() && (#[trigger] lines@[i])@ == line
}

proof fn lemma_tells(lines: Vec<String>, i: int)
    requires
        0 <= i < lines@.len(),
    ensures
        tells(lines, texts(lines@)[i]),
{
    assert(lines@[i]@ == texts(lines@)[i]);
}

/// The status of a machine that is enrolled tells where it publishes, as whom, as which
/// device, and whether terminals can be opened from elsewhere; and the daemon's, if it is
/// known. One that is not enrolled is told how to be.
pub proof fn law_the_status_tells_what_is_set_up(
    state: State,
    path: &str,
    daemon: Option<(bool, Paths)>,
    lines: Vec<String>,
)
    requires
        call_ensures(status, (&state, path, &daemon), lines),
    ensures
        state.relay_url@.len() == 0 ==> tells(lines, "not enrolled ("@ + path@ + ")"@),
        state.relay_url@.len() > 0 ==> {
            &&& tells(lines, "relay      "@ + state.relay_url@)
            &&& tells(lines, "identity   "@ + state.identity_id@)
            &&& tells(
                lines,
                "device     "@ + state.device_id@ + " ("@ + state.device_name@ + ")"@,
            )
            &&& tells(lines, "state      "@ + path@)
            &&& tells(lines, "protocol   "@ + "terminal-relay.publisher.v2"@)
            &&& state.remote_open.enabled ==> tells(lines, "remote open "@ + "on"@)
            &&& !state.remote_open.enabled ==> tells(lines, "remote open "@ + "off"@)
            &&& daemon matches Some((running, paths)) ==> {
                &&& running ==> tells(lines, "daemon     "@ + "running"@)
                &&& !running ==> tells(lines, "daemon     "@ + "not running"@)
                &&& tells(lines, "  socket   "@ + paths.socket@)
                &&& tells(lines, "  log      "@ + paths.log@)
            }
        },
{
    let all = texts(lines@);
    assert(all.len() == lines@.len());
    lemma_tells(lines, 0);
    if state.relay_url@.len() > 0 {
        lemma_tells(lines, 1);
        lemma_tells(lines, 2);
        lemma_tells(lines, 3);
        lemma_tells(lines, 4);
        lemma_tells(lines, 5);
        if daemon is Some {
            lemma_tells(lines, 6);
            lemma_tells(lines, 7);
            lemma_tells(lines, 8);
        }
    }
}

/// Whoever enrols a machine is told with which relay, as whom, as which device, and where
/// that is remembered.
pub proof fn law_enrolment_is_told(state: State, path: &str, lines: Vec<String>)
    requires
        call_ensures(enrolled, (&state, path), lines),
    ensures
        tells(lines, "enrolled with "@ + state.relay_url@),
        tells(lines, "  identity  "@ + state.identity_id@),
        tells(lines, "  device    "@ + state.device_id@ + " ("@ + state.device_name@ + ")"@),
        tells(lines, "  state     "@ + path@),
{
    assert(texts(lines@).len() == lines@.len());
    lemma_tells(lines, 0);
    lemma_tells(lines, 1);
    lemma_tells(lines, 2);
    lemma_tells(lines, 3);
}

/// Whoever pairs a phone is told its name, its owner and its ID; or the code to pair it
/// with, where it will connect to, and for how many minutes.
pub proof fn law_pairing_is_told(
    name: &str,
    identity_id: &str,
    device_id: &str,
    done: Vec<String>,
    code: &str,
    url: &str,
    seconds: i64,
    offered: Vec<String>,
)
    requires
        call_ensures(paired, (name, identity_id, device_id), done),
        call_ensures(pair_code, (code, url, seconds), offered),
    ensures
        tells(done, "paired "@ + name@),
        tells(done, "  identity_id  "@ + identity_id@),
        tells(done, "  device_id    "@ + device_id@),
        tells(offered, code@),
        tells(offered, "The phone will connect to "@ + url@),
        seconds >= 120 ==> tells(
            offered,
            "Paste that into the phone's pairing screen. It expires in "@ + signed_decimal(
                seconds as int / 60,
            ) + " minutes, and it "@,
        ),
        seconds < 120 ==> tells(
            offered,
            "Paste that into the phone's pairing screen. It expires in "@ + signed_decimal(1)
                + " minutes, and it "@,
        ),
{
    assert(texts(done@).len() == done@.len());
    lemma_tells(done, 0);
    lemma_tells(done, 1);
    lemma_tells(done, 2);
    assert(texts(offered@).len() == offered@.len());
    lemma_tells(offered, 0);
    lemma_tells(offered, 2);
    lemma_tells(offered, 3);
}

/// Whoever lets terminals be opened from elsewhere is told what exactly can be opened.
pub proof fn law_remote_opening_is_told(
    config: RemoteOpenConfig,
    window: &str,
    on: Vec<String>,
    off: Vec<String>,
    now: Vec<String>,
)
    requires
        call_ensures(remote_open_enabled, (&config, window), on),
        call_ensures(remote_open_disabled, (), off),
        call_ensures(remote_open_status, (&config, window), now),
    ensures
        tells(on, "remote open: on"@),
        tells(on, "  shell     ["@ + quoted_list(texts(config.shell@)) + "]"@),
        config.cwd@.len() > 0 ==> tells(on, "  directory "@ + config.cwd@),
        config.cwd@.len() == 0 ==> tells(on, "  directory "@ + "$HOME"@),
        tells(on, "  at most   "@ + decimal(config.max_terminals as nat) + " terminals"@),
        tells(on, "  window    "@ + window@),
        tells(off, "remote open: off"@),
        config.enabled ==> {
            &&& tells(now, "remote open: "@ + "on"@)
            &&& tells(now, "  shell     ["@ + quoted_list(texts(config.shell@)) + "]"@)
            &&& tells(now, "  at most   "@ + decimal(config.max_terminals as nat) + " terminals"@)
            &&& tells(now, "  window    "@ + window@)
        },
        !config.enabled ==> tells(now, "remote open: "@ + "off"@) && now@.len() == 2,
{
    assert(texts(on@).len() == on@.len());
    lemma_tells(on, 0);
    lemma_tells(on, 1);
    lemma_tells(on, 2);
    lemma_tells(on, 3);
    lemma_tells(on, 4);
    assert(texts(off@).len() == off@.len());
    lemma_tells(off, 0);
    assert(texts(now@).len() == now@.len());
    lemma_tells(now, 0);
    if config.enabled {
        lemma_tells(now, 1);
        lemma_tells(now, 3);
        lemma_tells(now, 4);
    }
}

/// Whoever asks after the daemon is told which one runs and where, or that none does.
pub proof fn law_the_daemon_is_told_of(
    running: Option<Running>,
    paths: Paths,
    lines: Vec<String>,
    was: bool,
    words: &'static str,
)
    requires
        call_ensures(daemon_status, (&running, &paths), lines),
        call_ensures(daemon_stopped, (was,), words),
    ensures
        (running matches Some(daemon) ==> tells(
            lines,
            "a daemon is running (pid "@ + decimal(daemon.pid as nat) + ", build "@
                + daemon.build@ + ") on "@ + paths.socket@,
        )),
        running is None ==> tells(lines, "no daemon is running for this device"@),
        tells(lines, "log        "@ + paths.log@),
        was ==> words@ == "the daemon is standing down"@,
        !was ==> words@ == "no daemon is running for this device"@,
{
    assert(texts(lines@).len() == lines@.len());
    lemma_tells(lines, 0);
    lemma_tells(lines, 1);
}

/// What is opened from elsewhere is on record: when, for which request, under which label,
/// with which shell, where and in which size.
pub proof fn law_remote_openings_are_on_record(
    unix: u64,
    request_id: &str,
    label: &str,
    remote: RemoteOpenConfig,
    cols: u16,
    rows: u16,
    line: String,
)
    requires
        call_ensures(remote_open_record, (unix, request_id, label, &remote, cols, rows), line),
    ensures
        line@ == "unix="@ + decimal(unix as nat) + " request="@ + request_id@ + " label="@
            + quoted_text(label@) + " argv=["@ + quoted_list(texts(remote.shell@)) + "] cwd="@
            + quoted_text(remote.cwd@) + " cols="@ + decimal(cols as nat) + " rows="@ + decimal(
            rows as nat,
        ) + "\n"@,
{
}

/// How a window is opened is told in words, with the command wherever there is one.
pub proof fn law_windows_are_told_of(
    system: System,
    policy: WindowPolicy,
    detected: Option<Vec<String>>,
    words: String,
)
    requires
        call_ensures(describe_window, (system, &policy, &detected), words),
    ensures
        policy is Never ==> words@ == "never \u{2014} hosted headlessly"@,
        policy matches WindowPolicy::Command(argv) ==> words@ == spaced(texts(argv@)),
        policy is Auto && system == System::Windows ==> words@ == "auto"@,
        policy is Auto && system == System::Unix && detected is Some ==> words@
            == "auto \u{2014} "@ + spaced(texts((detected->0)@)),
        policy is Auto && system == System::Unix && detected is None ==> words@
            == "auto \u{2014} no display or no terminal emulator here, so headless"@,
{
    let shown = policy@;
}

/// Errors are told with everything that is known of them.
pub proof fn law_errors_are_told(
    api: ApiError,
    told: String,
    state: StateError,
    also: String,
    pty: PtyError,
    last: String,
)
    requires
        call_ensures(ApiError::to_text, (&api,), told),
        call_ensures(StateError::to_text, (&state,), also),
        call_ensures(PtyError::to_text, (&pty,), last),
    ensures
        (api matches ApiError::Transport(detail) ==> told@ == detail@),
        (api matches ApiError::Relay { status, code, message } ==> told@ == decimal(status as nat)
            + ": "@ + code@ + ": "@ + message@),
        (api matches ApiError::Malformed(detail) ==> told@
            == "the relay's response was not what this client expects: "@ + detail@),
        (state matches StateError::Io(detail) ==> also@ == detail@),
        (state matches StateError::Malformed(detail) ==> also@ == "state file is malformed: "@
            + detail@),
        (state matches StateError::Permissions(path) ==> also@ == "state file "@ + path@
            + " is readable by other users; fix with: chmod 600 "@ + path@),
        (pty matches PtyError::Open(reason) ==> last@ == "could not open a pseudo-terminal: "@
            + reason@),
        (pty matches PtyError::Spawn { command, reason } ==> last@ == "could not start "@
            + command@ + ": "@ + reason@),
{
    let a = api@;
    let b = state@;
    let c = pty@;
}

/// A reference is free again once it is released, and the others stay taken.
pub proof fn law_released_references_are_free(local_ref: &str, other: Seq<char>)
    requires
        other != local_ref@,
    ensures
        forall|claims: &mut Claims| #[trigger]
            call_ensures(Claims::release, (claims, local_ref), ()) && claims.wf() ==> {
                &&& !final(claims)@.contains(local_ref@)
                &&& final(claims)@.contains(other) <==> claims@.contains(other)
            },
        forall|claims: &mut Claims, free: bool| #[trigger]
            call_ensures(Claims::claim, (claims, local_ref), free) && claims.wf() ==> {
                &&& free <==> !claims@.contains(local_ref@)
                &&& final(claims)@.contains(local_ref@)
                &&& final(claims)@.contains(other) <==> claims@.contains(other)
            },
{
    assert forall|claims: &mut Claims| #[trigger]
        call_ensures(Claims::release, (claims, local_ref), ()) && claims.wf() implies (final(
        claims)@.contains(other) <==> claims@.contains(other)) by {
        let before = claims@;
        if before.contains(local_ref@) {
            let at = crate::publisher::daemon::place_of(before, local_ref@) as int;
            lemma_place(before, local_ref@);
            let after = before.remove(at);
            if before.contains(other) {
                let k = choose|k: int| 0 <= k < before.len() && before[k] == other;
                if k < at {
                    assert(after[k] == other);
                } else {
                    assert(after[k - 1] == other);
                }
            }
            if after.contains(other) {
                let k = choose|k: int| 0 <= k < after.len() && after[k] == other;
                if k < at {
                    assert(before[k] == other);
                } else {
                    assert(before[k + 1] == other);
                }
            }
        }
    }
    assert forall|claims: &mut Claims, free: bool| #[trigger]
        call_ensures(Claims::claim, (claims, local_ref), free) && claims.wf() implies {
        &&& final(claims)@.contains(local_ref@)
        &&& final(claims)@.contains(other) <==> claims@.contains(other)
    } by {
        let before = claims@;
        let after = before.push(local_ref@);
        assert(after[before.len() as int] == local_ref@);
        if before.contains(other) {
            let k = choose|k: int| 0 <= k < before.len() && before[k] == other;
            assert(after[k] == other);
        }
        if after.contains(other) {
            let k = choose|k: int| 0 <= k < after.len() && after[k] == other;
            assert(before[k] == other);
        }
    }
}

proof fn lemma_place(claims: Seq<Seq<char>>, local_ref: Seq<char>)
    requires
        claims.contains(local_ref),
    ensures
        crate::publisher::daemon::place_of(claims, local_ref) < claims.len(),
        claims[crate::publisher::daemon::place_of(claims, local_ref) as int] == local_ref,
    decreases claims.len(),
{
    if claims[0] != local_ref {
        let rest = claims.drop_first();
        let k = choose|k: int| 0 <= k < claims.len() && claims[k] == local_ref;
        assert(rest[k - 1] == local_ref);
        lemma_place(rest, local_ref);
    }
}

} // verus!
