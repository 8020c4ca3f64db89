//! What the command line tells the person in front of it, line by line.

use crate::publisher::cli::minutes_left;
use crate::publisher::daemon::{quote_list, quoted_list, Policy, Running};
use crate::publisher::ipc::Paths;
use crate::publisher::protocol::SUBPROTOCOL_V2;
use crate::publisher::state::{RemoteOpenConfig, State};
use crate::text;
use crate::text::{decimal, signed_decimal, texts};
use vstd::prelude::*;

verus! {

/// Puts a line together from what it says and what it says it of.
fn line(label: &str, value: &str) -> (line: String)
    ensures
        line@ == label@ + value@,
{
    label.to_owned().concat(value)
}

/// Appends lines to others.
fn extend(lines: &mut Vec<String>, more: Vec<String>)
    ensures
        texts(final(lines)@) == texts(old(lines)@) + texts(more@),
{
    let ghost before = texts(lines@);
    let mut index: usize = 0;
    assert(before =~= before + texts(more@).take(0));
    while index < more.len()
        invariant
            index <= more@.len(),
            texts(lines@) == before + texts(more@).take(index as int),
        decreases more@.len() - index,
    {
        let ghost so_far = texts(lines@);
        lines.push(more[index].as_str().to_owned());
        index = index + 1;
        assert(texts(lines@) =~= so_far.push(more@[index - 1]@));
        assert(texts(lines@) =~= before + texts(more@).take(index as int));
    }
    assert(texts(more@).take(more@.len() as int) =~= texts(more@));
}

/// A switch in words.
pub open spec fn switch(on: bool) -> Seq<char> {
    if on {
        "on"@
    } else {
        "off"@
    }
}

fn switch_of(on: bool) -> (word: &'static str)
    ensures
        word@ == switch(on),
{
    if on {
        "on"
    } else {
        "off"
    }
}

/// The policy for terminals that a subscriber asks for. `window` says what becomes of a
/// window on this machine's own screen.
pub open spec fn policy_text(policy: Policy, window: Seq<char>) -> Seq<Seq<char>> {
    seq![
        "  shell     ["@ + quoted_list(policy.shell) + "]"@,
        "  directory "@ + (if policy.cwd.len() == 0 {
            "$HOME"@
        } else {
            policy.cwd
        }),
        "  at most   "@ + decimal(policy.max_terminals as nat) + " terminals"@,
        "  window    "@ + window,
    ]
}

fn policy_lines(config: &RemoteOpenConfig, window: &str) -> (lines: Vec<String>)
    ensures
        texts(lines@) == policy_text(config@, window@),
{
    let directory = if config.cwd.as_str().is_empty() {
        "$HOME".to_owned()
    } else {
        config.cwd.as_str().to_owned()
    };
    let lines = vec![
        line("  shell     [", quote_list(&config.shell).as_str()).concat("]"),
        line("  directory ", directory.as_str()),
        line("  at most   ", text::decimal_of(config.max_terminals as u64).as_str()).concat(
            " terminals",
        ),
        line("  window    ", window),
    ];
    assert(texts(lines@) =~= policy_text(config@, window@));
    lines
}

/// What is said once a subscriber may ask this machine for a terminal. What it means is
/// said plainly, once, at the moment of consent.
pub fn remote_open_enabled(config: &RemoteOpenConfig, window: &str) -> (lines: Vec<String>)
    ensures
        texts(lines@) == seq!["remote open: on"@] + policy_text(config@, window@) + seq![
            ""@,
            "A phone paired to this identity can now start shells on this machine."@,
            "Combined with typing, that is the same reach as sitting here."@,
            "Turn it off with: hypeterm-publish remote-open --disable"@,
            "restart the daemon to apply: hypeterm-publish daemon --stop"@,
        ],
{
    let mut lines = vec!["remote open: on".to_owned()];
    assert(texts(lines@) =~= seq!["remote open: on"@]);
    extend(&mut lines, policy_lines(config, window));
    let end = vec![
        "".to_owned(),
        "A phone paired to this identity can now start shells on this machine.".to_owned(),
        "Combined with typing, that is the same reach as sitting here.".to_owned(),
        "Turn it off with: hypeterm-publish remote-open --disable".to_owned(),
        "restart the daemon to apply: hypeterm-publish daemon --stop".to_owned(),
    ];
    assert(texts(end@) =~= seq![
        ""@,
        "A phone paired to this identity can now start shells on this machine."@,
        "Combined with typing, that is the same reach as sitting here."@,
        "Turn it off with: hypeterm-publish remote-open --disable"@,
        "restart the daemon to apply: hypeterm-publish daemon --stop"@,
    ]);
    extend(&mut lines, end);
    lines
}

/// What is said once a subscriber may no longer ask.
pub fn remote_open_disabled() -> (lines: Vec<String>)
    ensures
        texts(lines@) == seq![
            "remote open: off"@,
            "restart the daemon to apply: hypeterm-publish daemon --stop"@,
        ],
{
    let lines = vec![
        "remote open: off".to_owned(),
        "restart the daemon to apply: hypeterm-publish daemon --stop".to_owned(),
    ];
    assert(texts(lines@) =~= seq![
        "remote open: off"@,
        "restart the daemon to apply: hypeterm-publish daemon --stop"@,
    ]);
    lines
}

/// The current policy for terminals that a subscriber asks for.
pub fn remote_open_status(config: &RemoteOpenConfig, window: &str) -> (lines: Vec<String>)
    ensures
        texts(lines@) == seq!["remote open: "@ + switch(config.enabled)] + (if config.enabled {
            policy_text(config@, window@)
        } else {
            seq!["enable with: hypeterm-publish remote-open --enable"@]
        }),
{
    let mut lines = vec![line("remote open: ", switch_of(config.enabled))];
    assert(texts(lines@) =~= seq!["remote open: "@ + switch(config.enabled)]);
    if config.enabled {
        extend(&mut lines, policy_lines(config, window));
    } else {
        let hint = vec!["enable with: hypeterm-publish remote-open --enable".to_owned()];
        assert(texts(hint@) =~= seq!["enable with: hypeterm-publish remote-open --enable"@]);
        extend(&mut lines, hint);
    }
    lines
}

/// What is said of a daemon's files.
pub open spec fn daemon_text(running: bool, paths: Paths) -> Seq<Seq<char>> {
    seq![
        "daemon     "@ + (if running {
            "running"@
        } else {
            "not running"@
        }),
        "  socket   "@ + paths.socket@,
        "  log      "@ + paths.log@,
    ]
}

/// What this machine has enrolled. `daemon` says whether one is running, where its files
/// can be named.
pub open spec fn status_text(
    state: State,
    path: Seq<char>,
    daemon: Option<(bool, Paths)>,
) -> Seq<Seq<char>> {
    if state.relay_url@.len() == 0 {
        seq![
            "not enrolled ("@ + path + ")"@,
            "run: hypeterm-publish enroll --relay <url>"@,
        ]
    } else {
        seq![
            "relay      "@ + state.relay_url@,
            "identity   "@ + state.identity_id@,
            "device     "@ + state.device_id@ + " ("@ + state.device_name@ + ")"@,
            "state      "@ + path,
            "protocol   "@ + SUBPROTOCOL_V2@,
            "remote open "@ + switch(state.remote_open.enabled),
        ] + (match daemon {
            Some((running, paths)) => daemon_text(running, paths),
            None => Seq::empty(),
        })
    }
}

/// What this machine has enrolled. A detached daemon writes nowhere that anyone would
/// look, so its log is named too.
pub fn status(state: &State, path: &str, daemon: &Option<(bool, Paths)>) -> (lines: Vec<String>)
    ensures
        texts(lines@) == status_text(*state, path@, *daemon),
{
    if state.relay_url.as_str().is_empty() {
        let lines = vec![
            line("not enrolled (", path).concat(")"),
            "run: hypeterm-publish enroll --relay <url>".to_owned(),
        ];
        assert(texts(lines@) =~= status_text(*state, path@, *daemon));
        return lines;
    }
    let mut lines = vec![
        line("relay      ", state.relay_url.as_str()),
        line("identity   ", state.identity_id.as_str()),
        line("device     ", state.device_id.as_str()).concat(" (").concat(
            state.device_name.as_str(),
        ).concat(")"),
        line("state      ", path),
        line("protocol   ", SUBPROTOCOL_V2),
        line("remote open ", switch_of(state.remote_open.enabled)),
    ];
    match daemon {
        Some((running, paths)) => {
            lines.push(
                line(
                    "daemon     ",
                    if *running {
                        "running"
                    } else {
                        "not running"
                    },
                ),
            );
            lines.push(line("  socket   ", paths.socket.as_str()));
            lines.push(line("  log      ", paths.log.as_str()));
        },
        None => {},
    }
    assert(texts(lines@) =~= status_text(*state, path@, *daemon));
    lines
}

/// What is said once this machine is registered.
pub fn enrolled(state: &State, path: &str) -> (lines: Vec<String>)
    ensures
        texts(lines@) == seq![
            "enrolled with "@ + state.relay_url@,
            "  identity  "@ + state.identity_id@,
            "  device    "@ + state.device_id@ + " ("@ + state.device_name@ + ")"@,
            "  state     "@ + path@,
            ""@,
            "Pair a phone with:  hypeterm-publish pair <its public key>"@,
            "Publish a terminal: hypeterm-publish run"@,
        ],
{
    let lines = vec![
        line("enrolled with ", state.relay_url.as_str()),
        line("  identity  ", state.identity_id.as_str()),
        line("  device    ", state.device_id.as_str()).concat(" (").concat(
            state.device_name.as_str(),
        ).concat(")"),
        line("  state     ", path),
        "".to_owned(),
        "Pair a phone with:  hypeterm-publish pair <its public key>".to_owned(),
        "Publish a terminal: hypeterm-publish run".to_owned(),
    ];
    assert(texts(lines@) =~= seq![
        "enrolled with "@ + state.relay_url@,
        "  identity  "@ + state.identity_id@,
        "  device    "@ + state.device_id@ + " ("@ + state.device_name@ + ")"@,
        "  state     "@ + path@,
        ""@,
        "Pair a phone with:  hypeterm-publish pair <its public key>"@,
        "Publish a terminal: hypeterm-publish run"@,
    ]);
    lines
}

/// What is said once a device has been registered as a client.
pub fn paired(name: &str, identity_id: &str, device_id: &str) -> (lines: Vec<String>)
    ensures
        texts(lines@) == seq![
            "paired "@ + name@,
            "  identity_id  "@ + identity_id@,
            "  device_id    "@ + device_id@,
        ],
{
    let lines = vec![
        line("paired ", name),
        line("  identity_id  ", identity_id),
        line("  device_id    ", device_id),
    ];
    assert(texts(lines@) =~= seq![
        "paired "@ + name@,
        "  identity_id  "@ + identity_id@,
        "  device_id    "@ + device_id@,
    ]);
    lines
}

/// What is said with a pairing code, and how long it is good for.
pub fn pair_code(code: &str, device_url: &str, expires_in: i64) -> (lines: Vec<String>)
    ensures
        texts(lines@) == seq![
            code@,
            ""@,
            "The phone will connect to "@ + device_url@,
            "Paste that into the phone's pairing screen. It expires in "@ + signed_decimal(
                if expires_in < 120 {
                    1
                } else {
                    expires_in as int / 60
                },
            ) + " minutes, and it "@,
            "carries this identity's authority until then — treat it like a password."@,
        ],
{
    let minutes: i64 = minutes_left(expires_in);
    let lines = vec![
        code.to_owned(),
        "".to_owned(),
        line("The phone will connect to ", device_url),
        line(
            "Paste that into the phone's pairing screen. It expires in ",
            text::signed_of(minutes as i128).as_str(),
        ).concat(" minutes, and it "),
        "carries this identity's authority until then — treat it like a password.".to_owned(),
    ];
    assert(texts(lines@) =~= seq![
        code@,
        ""@,
        "The phone will connect to "@ + device_url@,
        "Paste that into the phone's pairing screen. It expires in "@ + signed_decimal(
            minutes as int,
        ) + " minutes, and it "@,
        "carries this identity's authority until then — treat it like a password."@,
    ]);
    lines
}

/// What is said of a daemon that was looked for.
pub fn daemon_status(running: &Option<Running>, paths: &Paths) -> (lines: Vec<String>)
    ensures
        texts(lines@) == seq![
            match running {
                Some(running) => "a daemon is running (pid "@ + decimal(running.pid as nat)
                    + ", build "@ + running.build@ + ") on "@ + paths.socket@,
                None => "no daemon is running for this device"@,
            },
            "log        "@ + paths.log@,
        ],
{
    let first = match running {
        Some(running) => line(
            "a daemon is running (pid ",
            text::decimal_of(running.pid as u64).as_str(),
        ).concat(", build ").concat(running.build.as_str()).concat(") on ").concat(
            paths.socket.as_str(),
        ),
        None => "no daemon is running for this device".to_owned(),
    };
    let ghost shown = first@;
    let lines = vec![first, line("log        ", paths.log.as_str())];
    assert(texts(lines@) =~= seq![shown, "log        "@ + paths.log@]);
    lines
}

/// What is said once a daemon was asked to stand down.
pub fn daemon_stopped(was_running: bool) -> (words: &'static str)
    ensures
        words@ == (if was_running {
            "the daemon is standing down"@
        } else {
            "no daemon is running for this device"@
        }),
{
    if was_running {
        "the daemon is standing down"
    } else {
        "no daemon is running for this device"
    }
}

} // verus!
