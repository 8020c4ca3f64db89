//! What the person at a hosted terminal can count on.

use crate::publisher::api::Terminal;
use crate::publisher::cli::{
    choose_label, disable_remote_open, enable_remote_open, initial_size, machine_name, minutes_left,
    notice, pump_actions, require_enrolled, terminal_line, terminal_size, window_policy, Pump,
    PumpAction, PumpInput, Session, WindowPolicy,
};
use crate::publisher::publish::Notice;
use crate::publisher::state::{RemoteOpenConfig, State};
use crate::text::{decimal, spaced, texts};
use vstd::prelude::*;

verus! {

/// What comes of an input to a hosted terminal.
pub open spec fn follows(
    before: Pump,
    after: Pump,
    input: PumpInput,
    actions: Seq<PumpAction<Seq<char>, Seq<u8>>>,
    session: Session,
) -> bool {
    match input {
        // Output is shown to whoever sits here and mirrored to whoever watches.
        PumpInput::Output(Some(chunk)) => {
            &&& after == before
            &&& session is GoesOn
            &&& before.interactive && before.mirrored ==> actions == seq![
                PumpAction::<Seq<char>, Seq<u8>>::Show(chunk@),
                PumpAction::Publish(chunk@),
            ]
            &&& before.interactive && !before.mirrored ==> actions == seq![
                PumpAction::<Seq<char>, Seq<u8>>::Show(chunk@),
            ]
            &&& !before.interactive && before.mirrored ==> actions == seq![
                PumpAction::<Seq<char>, Seq<u8>>::Publish(chunk@),
            ]
            &&& !before.interactive && !before.mirrored ==> actions.len() == 0
        },
        // A shell that is gone is closed where it is mirrored, and ends the session where
        // it is not.
        PumpInput::Output(None) => {
            &&& after.shell_gone
            &&& after.mirrored == before.mirrored
            &&& session is Over <==> !before.mirrored
            &&& session is GoesOn <==> before.mirrored
            &&& before.mirrored ==> after.shutting_down
            &&& before.mirrored && !before.shutting_down ==> actions == seq![
                PumpAction::<Seq<char>, Seq<u8>>::BeginShutdown,
            ]
            &&& before.shutting_down || !before.mirrored ==> actions.len() == 0
        },
        // Keystrokes are written as they come, from here or from a subscriber.
        PumpInput::Keys(bytes) => {
            &&& after == before
            &&& session is GoesOn
            &&& actions == seq![PumpAction::<Seq<char>, Seq<u8>>::Write(bytes@)]
        },
        PumpInput::Notice(Some(Notice::Input(bytes))) => {
            &&& after == before
            &&& session is GoesOn
            &&& actions == seq![PumpAction::<Seq<char>, Seq<u8>>::Write(bytes@)]
        },
        // A subscriber's wish counts where nobody sits here.
        PumpInput::Notice(Some(Notice::Resize { cols, rows })) => {
            &&& session is GoesOn
            &&& before.interactive ==> after == before && actions.len() == 0
            &&& !before.interactive ==> {
                &&& after == (Pump { cols, rows, ..before })
                &&& actions[0] == PumpAction::<Seq<char>, Seq<u8>>::ResizeTerminal { cols, rows }
                &&& before.mirrored ==> actions.len() == 2 && actions[1] == PumpAction::<
                    Seq<char>,
                    Seq<u8>,
                >::ResizeMirror { cols, rows }
                &&& !before.mirrored ==> actions.len() == 1
            }
        },
        // The terminal follows the window that it is in.
        PumpInput::Window { cols, rows } => {
            &&& session is GoesOn
            &&& after == (Pump { cols, rows, ..before })
            &&& cols == before.cols && rows == before.rows ==> actions.len() == 0
            &&& cols != before.cols || rows != before.rows ==> {
                &&& actions[0] == PumpAction::<Seq<char>, Seq<u8>>::ResizeTerminal { cols, rows }
                &&& before.mirrored ==> actions.len() == 2 && actions[1] == PumpAction::<
                    Seq<char>,
                    Seq<u8>,
                >::ResizeMirror { cols, rows }
                &&& !before.mirrored ==> actions.len() == 1
            }
        },
        // The end of the mirror is the end of the session only where that was wanted.
        PumpInput::Notice(Some(Notice::Ended(reason))) => {
            &&& session is Over <==> before.shutting_down
            &&& session is GoesOn <==> !before.shutting_down
            &&& !before.shutting_down ==> after == (Pump { mirrored: false, ..before }) && actions
                == seq![
                PumpAction::<Seq<char>, Seq<u8>>::Tell(reason@ + "; this terminal still works"@),
            ]
        },
        PumpInput::Notice(None) => {
            &&& session is Over <==> before.shutting_down
            &&& session is GoesOn <==> !before.shutting_down
            &&& !before.shutting_down ==> after == (Pump { mirrored: false, ..before })
            &&& actions.len() == 0
        },
        PumpInput::PublishFailed => {
            &&& session is GoesOn
            &&& after == (Pump { mirrored: false, ..before })
            &&& actions.len() == 1
            &&& actions[0] is Tell
        },
        // A signal closes the mirror first.
        PumpInput::Signal => {
            &&& after == (Pump { shutting_down: true, ..before })
            &&& session is Over <==> !before.mirrored
            &&& session is GoesOn <==> before.mirrored
            &&& before.mirrored ==> actions == seq![
                PumpAction::<Seq<char>, Seq<u8>>::BeginShutdown,
            ]
        },
        PumpInput::WriteFailed => session is Over,
        PumpInput::Deadline => session is Over,
        PumpInput::KeyboardEnded => {
            &&& after == before
            &&& session is GoesOn
            &&& actions == seq![PumpAction::<Seq<char>, Seq<u8>>::Pause]
        },
        PumpInput::KeyboardFailed(error) => session is Failed && session->Failed_0@
            == "reading the keyboard: "@ + error@,
    }
}

/// Every input to a hosted terminal has the consequences that it should have, and no
/// others.
pub proof fn law_inputs_have_their_consequences(
    input: PumpInput,
    result: (Vec<PumpAction>, Session),
)
    ensures
        forall|pump: &mut Pump| #[trigger]
            call_ensures(Pump::on_input, (pump, input), result) ==> follows(
                *pump,
                *final(pump),
                input,
                pump_actions(result.0@),
                result.1,
            ),
{
    assert forall|pump: &mut Pump| #[trigger]
        call_ensures(Pump::on_input, (pump, input), result) implies follows(
        *pump,
        *final(pump),
        input,
        pump_actions(result.0@),
        result.1,
    ) by {
        let seen = input@;
        let step = pump.step(seen);
        let actions = pump_actions(result.0@);
        let session = result.1@;
        assert(step.actions == actions);
        assert(step.session == session);
        assert(step.pump == *final(pump));
        if let PumpInput::Output(Some(chunk)) = input {
            assert(seen == PumpInput::<Seq<char>, Seq<u8>>::Output(Some(chunk@)));
            assert(Seq::<PumpAction<Seq<char>, Seq<u8>>>::empty() + seq![
                PumpAction::<Seq<char>, Seq<u8>>::Publish(chunk@),
            ] =~= seq![PumpAction::<Seq<char>, Seq<u8>>::Publish(chunk@)]);
            assert(seq![PumpAction::<Seq<char>, Seq<u8>>::Show(chunk@)] + Seq::<
                PumpAction<Seq<char>, Seq<u8>>,
            >::empty() =~= seq![PumpAction::<Seq<char>, Seq<u8>>::Show(chunk@)]);
            assert(seq![PumpAction::<Seq<char>, Seq<u8>>::Show(chunk@)] + seq![
                PumpAction::<Seq<char>, Seq<u8>>::Publish(chunk@),
            ] =~= seq![
                PumpAction::<Seq<char>, Seq<u8>>::Show(chunk@),
                PumpAction::Publish(chunk@),
            ]);
        }
    }
}

/// A hosted terminal begins in its window's size, mirrored and attended as it was started.
pub proof fn law_hosting_begins_as_started(
    interactive: bool,
    mirrored: bool,
    cols: u16,
    rows: u16,
    pump: Pump,
)
    requires
        call_ensures(Pump::new, (interactive, mirrored, cols, rows), pump),
    ensures
        pump.interactive == interactive,
        pump.mirrored == mirrored,
        pump.cols == cols,
        pump.rows == rows,
        !pump.shutting_down,
        !pump.shell_gone,
{
}

/// A terminal has the size that was measured, or eighty by twenty-four; and the size that
/// was asked for wherever both numbers were.
pub proof fn law_sizes_are_sensible(
    measured: Option<(u16, u16)>,
    window: (u16, u16),
    cols: Option<u16>,
    rows: Option<u16>,
    size: (u16, u16),
)
    requires
        call_ensures(terminal_size, (measured,), window),
        call_ensures(initial_size, (cols, rows, window), size),
    ensures
        window.0 > 0 && window.1 > 0,
        measured matches Some(given) ==> (given.0 > 0 && given.1 > 0 ==> window == given),
        measured is None ==> window == (80u16, 24u16),
        measured matches Some(given) ==> (given.0 == 0 || given.1 == 0 ==> window == (80u16, 24u16)),
        cols is Some && rows is Some ==> size == (cols->0, rows->0),
        cols is None || rows is None ==> size == window,
{
}

/// Only a machine that knows its relay and its device can publish.
pub proof fn law_publishing_takes_enrolment(state: State, result: Result<(), String>)
    requires
        call_ensures(require_enrolled, (&state,), result),
    ensures
        result is Ok <==> state.relay_url@.len() > 0 && state.device_id@.len() > 0,
{
}

/// A terminal's label says what it was named, or else where it runs and what, and always
/// which process it is.
pub proof fn law_labels_tell_terminals_apart(
    given: Option<String>,
    host: &str,
    command: Vec<String>,
    directory: &str,
    pid: u32,
    label: String,
)
    requires
        call_ensures(choose_label, (&given, host, &command, directory, pid), label),
    ensures
        ({
            let base = if given is Some {
                (given->0)@
            } else if command@.len() == 0 {
                host@
            } else {
                host@ + ": "@ + spaced(texts(command@))
            };
            &&& directory@.len() == 0 ==> label@ == base + " ("@ + decimal(pid as nat) + ")"@
            &&& directory@.len() > 0 ==> label@ == base + ": "@ + directory@ + " ("@ + decimal(
                pid as nat,
            ) + ")"@
        }),
{
}

/// A machine's name is the one that it is given, or the first one that is known.
pub proof fn law_machines_are_named(
    given: Option<String>,
    host: Option<String>,
    computer: Option<String>,
    fallback: &str,
    name: String,
)
    requires
        call_ensures(machine_name, (&given, &host, &computer, fallback), name),
    ensures
        given is Some ==> name@ == (given->0)@,
        given is None && host is Some ==> name@ == (host->0)@,
        given is None && host is None && computer is Some ==> name@ == (computer->0)@,
        given is None && host is None && computer is None ==> name@ == fallback@,
{
}

/// What is left is told in whole minutes, and is never less than one.
pub proof fn law_time_left_is_told_in_minutes(seconds: i64, minutes: i64)
    requires
        call_ensures(minutes_left, (seconds,), minutes),
    ensures
        minutes >= 1,
        seconds >= 60 ==> minutes * 60 <= seconds < (minutes + 1) * 60,
        seconds < 60 ==> minutes == 1,
{
}

/// A window is opened as the machine sees fit, not at all, or with a command.
pub proof fn law_windows_are_opened_as_told(spec: Vec<String>, policy: Result<WindowPolicy, String>)
    requires
        call_ensures(window_policy, (spec,), policy),
    ensures
        policy is Err <==> spec@.len() == 0,
        spec@.len() == 1 && spec@[0]@ == "auto"@ ==> policy->Ok_0 is Auto,
        spec@.len() == 1 && spec@[0]@ == "never"@ ==> policy->Ok_0 is Never,
        spec@.len() > 1 || (spec@.len() == 1 && spec@[0]@ != "auto"@ && spec@[0]@ != "never"@)
            ==> policy->Ok_0 is Command && texts(policy->Ok_0->Command_0@) == texts(spec@),
{
    reveal_strlit("auto");
    reveal_strlit("never");
    assert("auto"@.len() == 4 && "never"@.len() == 5);
    assert(texts(spec@).len() == spec@.len());
    if spec@.len() > 0 {
        assert(texts(spec@)[0] == spec@[0]@);
    }
    assert(seq!["auto"@][0] == "auto"@ && seq!["never"@][0] == "never"@);
    if spec@.len() == 1 && spec@[0]@ == "auto"@ {
        assert(texts(spec@) =~= seq!["auto"@]);
    }
    if spec@.len() == 1 && spec@[0]@ == "never"@ {
        assert(texts(spec@) =~= seq!["never"@]);
    }
    if let Ok(policy) = policy {
        let shown = policy@;
        if let WindowPolicy::Command(argv) = policy {
            assert(shown->Command_0 == texts(argv@));
        }
    }
}

/// Opening terminals from elsewhere is enabled with the shell, the directory and the number
/// that were given, and with the user's own where they were not; it is refused without any
/// shell. Disabling it changes nothing else.
pub proof fn law_remote_opening_is_set_up_as_asked(
    shell: Option<Vec<String>>,
    cwd: Option<String>,
    max: Option<u32>,
    own: Option<String>,
    home: Option<String>,
    result: Result<(), String>,
)
    ensures
        forall|config: &mut RemoteOpenConfig| #[trigger]
            call_ensures(enable_remote_open, (config, shell, cwd, max, own, home), result) ==> {
                let given = shell is Some && (shell->0)@.len() > 0;
                &&& result is Ok <==> given || own is Some
                &&& result is Err ==> *final(config) == *config
                &&& result is Ok ==> {
                    &&& final(config).enabled
                    &&& given ==> texts(final(config).shell@) == texts((shell->0)@)
                    &&& !given ==> texts(final(config).shell@) == seq![(own->0)@]
                    &&& cwd is Some ==> final(config).cwd@ == (cwd->0)@
                    &&& cwd is None && home is Some ==> final(config).cwd@ == (home->0)@
                    &&& cwd is None && home is None ==> final(config).cwd@.len() == 0
                    &&& max is Some && max->0 > 0 ==> final(config).max_terminals == max->0
                    &&& max == Some(0u32) ==> final(config).max_terminals == 1
                    &&& max is None ==> final(config).max_terminals == config.max_terminals
                }
            },
        forall|config: &mut RemoteOpenConfig| #[trigger]
            call_ensures(disable_remote_open, (config,), ()) ==> {
                &&& !final(config).enabled
                &&& final(config).shell == config.shell
                &&& final(config).cwd == config.cwd
                &&& final(config).max_terminals == config.max_terminals
            },
{
}

/// A terminal is listed with its ID, its label, its size and its state, and as read only
/// where it takes no input; the columns line up where they fit.
pub proof fn law_terminals_are_listed(terminal: Terminal, line: String)
    requires
        terminal.label@.len() == 24,
        terminal.cols is Some && 100 <= terminal.cols->0 <= 999,
        terminal.rows is Some && 100 <= terminal.rows->0 <= 999,
        call_ensures(terminal_line, (&terminal,), line),
    ensures
        ({
            let front = terminal.terminal_id@ + "  "@ + terminal.label@ + " "@ + decimal(
                terminal.cols->0 as nat,
            ) + "x"@ + decimal(terminal.rows->0 as nat) + " "@ + terminal.state@;
            &&& terminal.accepts_input ==> line@ == front
            &&& !terminal.accepts_input ==> line@ == front + " (read only)"@
        }),
{
    lemma_three_digits(terminal.cols->0 as nat);
    lemma_three_digits(terminal.rows->0 as nat);
    reveal_strlit("");
    let front = terminal.terminal_id@ + "  "@ + terminal.label@ + " "@ + decimal(
        terminal.cols->0 as nat,
    ) + "x"@ + decimal(terminal.rows->0 as nat) + " "@ + terminal.state@;
    assert(front + ""@ =~= front);
}

proof fn lemma_three_digits(n: nat)
    requires
        100 <= n <= 999,
    ensures
        decimal(n).len() == 3,
{
    reveal_with_fuel(decimal, 4);
}

/// A person is told things on a line of their own, wherever the cursor stands.
pub proof fn law_notices_have_their_own_line(message: &str, attended: String, plain: String)
    requires
        call_ensures(notice, (true, message), attended),
        call_ensures(notice, (false, message), plain),
    ensures
        plain@ == "[hypeterm] "@ + message@,
        attended@ == "\r\n"@ + plain@ + "\r"@,
{
    reveal_strlit("\r\n[hypeterm] ");
    reveal_strlit("[hypeterm] ");
    reveal_strlit("\r\n");
    assert(attended@ =~= "\r\n"@ + plain@ + "\r"@);
}

/// Nothing is opened from elsewhere until it is asked for, and not more than a few
/// terminals then; a machine that was never set up knows nothing.
pub proof fn law_machines_begin_closed(config: RemoteOpenConfig, state: State)
    requires
        call_ensures(RemoteOpenConfig::default, (), config),
        call_ensures(State::default, (), state),
    ensures
        !config.enabled,
        config.max_terminals == 4,
        config.shell@.len() == 0,
        config.cwd@.len() == 0,
        !state.remote_open.enabled,
        state.remote_open.max_terminals == 4,
        state.relay_url@.len() == 0,
        state.identity_seed@.len() == 0,
        state.device_seed@.len() == 0,
        state.device_id@.len() == 0,
{
}

} // verus!
