//! What the command line decides: which bytes go where while a terminal is hosted, what
//! is remembered, and what a person is told.

use crate::paths::System;
use crate::publisher::api::{ApiError, Terminal};
use crate::publisher::publish::Notice;
use crate::publisher::state::{RemoteOpenConfig, State};
use crate::text;
use crate::text::{decimal, join_words, option_view, spaced, texts};
use vstd::prelude::*;

verus! {

/// What happens while a terminal is hosted.
#[derive(Debug)]
pub enum PumpInput<S = String, B = Vec<u8>> {
    /// The shell wrote something, or is gone.
    Output(Option<B>),
    /// The mirror did not take what it was handed.
    PublishFailed,
    /// The mirror said something, or is gone.
    Notice(Option<Notice<S, B>>),
    /// The shell did not take what was typed: it is gone.
    WriteFailed,
    /// Somebody typed.
    Keys(B),
    /// The local keyboard has ended.
    KeyboardEnded,
    /// The local keyboard cannot be read.
    KeyboardFailed(S),
    /// Something asked this process to stop.
    Signal,
    /// Closing took too long.
    Deadline,
    /// The size of the local window.
    Window { cols: u16, rows: u16 },
}

impl View for PumpInput {
    type V = PumpInput<Seq<char>, Seq<u8>>;

    open spec fn view(&self) -> PumpInput<Seq<char>, Seq<u8>> {
        match self {
            PumpInput::Output(chunk) => PumpInput::Output(option_view(*chunk)),
            PumpInput::PublishFailed => PumpInput::PublishFailed,
            PumpInput::Notice(notice) => PumpInput::Notice(option_view(*notice)),
            PumpInput::WriteFailed => PumpInput::WriteFailed,
            PumpInput::Keys(bytes) => PumpInput::Keys(bytes@),
            PumpInput::KeyboardEnded => PumpInput::KeyboardEnded,
            PumpInput::KeyboardFailed(error) => PumpInput::KeyboardFailed(error@),
            PumpInput::Signal => PumpInput::Signal,
            PumpInput::Deadline => PumpInput::Deadline,
            PumpInput::Window { cols, rows } => PumpInput::Window { cols: *cols, rows: *rows },
        }
    }
}

/// What is to be done while a terminal is hosted.
#[derive(Debug)]
pub enum PumpAction<S = String, B = Vec<u8>> {
    /// Show bytes on the local terminal.
    Show(B),
    /// Hand bytes to the mirror. If it does not take them, say so with
    /// [`PumpInput::PublishFailed`].
    Publish(B),
    /// Write bytes into the pseudo-terminal. If that fails, the session is over.
    Write(B),
    ResizeTerminal { cols: u16, rows: u16 },
    ResizeMirror { cols: u16, rows: u16 },
    /// Close the mirror, and wait for it no longer than the grace period.
    BeginShutdown,
    /// Say something to whoever sits in front of the terminal.
    Tell(S),
    /// Wait a moment.
    Pause,
}

impl View for PumpAction {
    type V = PumpAction<Seq<char>, Seq<u8>>;

    open spec fn view(&self) -> PumpAction<Seq<char>, Seq<u8>> {
        match self {
            PumpAction::Show(bytes) => PumpAction::Show(bytes@),
            PumpAction::Publish(bytes) => PumpAction::Publish(bytes@),
            PumpAction::Write(bytes) => PumpAction::Write(bytes@),
            PumpAction::ResizeTerminal { cols, rows } => PumpAction::ResizeTerminal {
                cols: *cols,
                rows: *rows,
            },
            PumpAction::ResizeMirror { cols, rows } => PumpAction::ResizeMirror {
                cols: *cols,
                rows: *rows,
            },
            PumpAction::BeginShutdown => PumpAction::BeginShutdown,
            PumpAction::Tell(words) => PumpAction::Tell(words@),
            PumpAction::Pause => PumpAction::Pause,
        }
    }
}

/// An action over sequences.
pub type PumpActionModel = PumpAction<Seq<char>, Seq<u8>>;

/// The actions in a list, over sequences.
pub open spec fn pump_actions(list: Seq<PumpAction>) -> Seq<PumpActionModel> {
    Seq::new(list.len(), |i: int| list[i]@)
}

/// How the session stands after a step.
#[derive(Debug)]
pub enum Session<S = String> {
    GoesOn,
    Over,
    Failed(S),
}

impl View for Session {
    type V = Session<Seq<char>>;

    open spec fn view(&self) -> Session<Seq<char>> {
        match self {
            Session::GoesOn => Session::GoesOn,
            Session::Over => Session::Over,
            Session::Failed(error) => Session::Failed(error@),
        }
    }
}

/// A hosted terminal as seen from the command line.
#[derive(Debug, Clone, Copy, PartialEq, Eq, Structural)]
pub struct Pump {
    /// Whether a person sits in front of it.
    pub interactive: bool,
    /// Whether it is mirrored. Losing the mirror is no reason to take away the terminal
    /// that someone is working in.
    pub mirrored: bool,
    pub shutting_down: bool,
    pub shell_gone: bool,
    pub cols: u16,
    pub rows: u16,
}

/// What a step comes to.
pub struct PumpStep {
    pub pump: Pump,
    pub actions: Seq<PumpActionModel>,
    pub session: Session<Seq<char>>,
}

impl Pump {
    pub open spec fn goes_on(self, actions: Seq<PumpActionModel>) -> PumpStep {
        PumpStep { pump: self, actions, session: Session::GoesOn }
    }

    pub open spec fn over(self) -> PumpStep {
        PumpStep { pump: self, actions: Seq::empty(), session: Session::Over }
    }

    /// The terminal has a new size.
    pub open spec fn resized(self, cols: u16, rows: u16) -> PumpStep {
        let resize = PumpAction::ResizeTerminal { cols, rows };
        Pump { cols, rows, ..self }.goes_on(
            if self.mirrored {
                seq![resize, PumpAction::ResizeMirror { cols, rows }]
            } else {
                seq![resize]
            },
        )
    }

    pub open spec fn step(self, input: PumpInput<Seq<char>, Seq<u8>>) -> PumpStep {
        match input {
            PumpInput::Output(None) => {
                let gone = Pump { shell_gone: true, ..self };
                if !self.mirrored {
                    gone.over()
                } else if self.shutting_down {
                    gone.goes_on(Seq::empty())
                } else {
                    Pump { shutting_down: true, ..gone }.goes_on(seq![PumpAction::BeginShutdown])
                }
            },
            PumpInput::Output(Some(chunk)) => self.goes_on(
                (if self.interactive {
                    seq![PumpAction::Show(chunk)]
                } else {
                    Seq::empty()
                }) + (if self.mirrored {
                    seq![PumpAction::Publish(chunk)]
                } else {
                    Seq::empty()
                }),
            ),
            PumpInput::PublishFailed => Pump { mirrored: false, ..self }.goes_on(
                seq![PumpAction::Tell("mirroring stopped; this terminal still works"@)],
            ),
            PumpInput::Notice(Some(Notice::Input(bytes))) => self.goes_on(
                seq![PumpAction::Write(bytes)],
            ),
            PumpInput::Notice(Some(Notice::Resize { cols, rows })) => if self.interactive {
                self.goes_on(Seq::empty())
            } else {
                self.resized(cols, rows)
            },
            PumpInput::Notice(Some(Notice::Ended(reason))) => if self.shutting_down {
                self.over()
            } else {
                Pump { mirrored: false, ..self }.goes_on(
                    seq![PumpAction::Tell(reason + "; this terminal still works"@)],
                )
            },
            PumpInput::Notice(None) => if self.shutting_down {
                self.over()
            } else {
                Pump { mirrored: false, ..self }.goes_on(Seq::empty())
            },
            PumpInput::WriteFailed => self.over(),
            PumpInput::Keys(bytes) => self.goes_on(seq![PumpAction::Write(bytes)]),
            PumpInput::KeyboardEnded => self.goes_on(seq![PumpAction::Pause]),
            PumpInput::KeyboardFailed(error) => PumpStep {
                pump: self,
                actions: Seq::empty(),
                session: Session::Failed("reading the keyboard: "@ + error),
            },
            PumpInput::Signal => {
                let stopping = Pump { shutting_down: true, ..self };
                if self.mirrored {
                    stopping.goes_on(seq![PumpAction::BeginShutdown])
                } else {
                    stopping.over()
                }
            },
            PumpInput::Deadline => self.over(),
            PumpInput::Window { cols, rows } => if cols == self.cols && rows == self.rows {
                self.goes_on(Seq::empty())
            } else {
                self.resized(cols, rows)
            },
        }
    }

    pub fn new(interactive: bool, mirrored: bool, cols: u16, rows: u16) -> (pump: Self)
        ensures
            pump == (Pump {
                interactive,
                mirrored,
                shutting_down: false,
                shell_gone: false,
                cols,
                rows,
            }),
    {
        Self { interactive, mirrored, shutting_down: false, shell_gone: false, cols, rows }
    }

    fn resize(&mut self, cols: u16, rows: u16) -> (actions: Vec<PumpAction>)
        ensures
            old(self).resized(cols, rows) == (PumpStep {
                pump: *final(self),
                actions: pump_actions(actions@),
                session: Session::GoesOn,
            }),
    {
        self.cols = cols;
        self.rows = rows;
        let mut actions: Vec<PumpAction> = Vec::new();
        actions.push(PumpAction::ResizeTerminal { cols, rows });
        if self.mirrored {
            actions.push(PumpAction::ResizeMirror { cols, rows });
        }
        assert(pump_actions(actions@) =~= old(self).resized(cols, rows).actions);
        actions
    }

    /// One step of the session: what arrived, and what is to be done about it. Signals
    /// are listened to until the session is shutting down, output until the shell is
    /// gone, and the keyboard and the window while a person sits in front of it.
    pub fn on_input(&mut self, input: PumpInput) -> (result: (Vec<PumpAction>, Session))
        ensures
            old(self).step(input@) == (PumpStep {
                pump: *final(self),
                actions: pump_actions(result.0@),
                session: result.1@,
            }),
    {
        let mut actions: Vec<PumpAction> = Vec::new();
        let ghost model = self.step(input@);
        let mut session = Session::GoesOn;
        match input {
            PumpInput::Output(None) => {
                // The hosted shell has gone. The terminal is closed at the relay before
                // leaving, or it would stay listed and swallow whatever is typed.
                self.shell_gone = true;
                if !self.mirrored {
                    session = Session::Over;
                } else if !self.shutting_down {
                    self.shutting_down = true;
                    actions.push(PumpAction::BeginShutdown);
                }
            },
            PumpInput::Output(Some(chunk)) => {
                if self.interactive {
                    let copy = crate::encoding::copy_of(chunk.as_slice(), 0, chunk.len());
                    assert(copy@ =~= chunk@);
                    actions.push(PumpAction::Show(copy));
                }
                if self.mirrored {
                    actions.push(PumpAction::Publish(chunk));
                }
            },
            PumpInput::PublishFailed => {
                self.mirrored = false;
                let words = "mirroring stopped; this terminal still works".to_owned();
                actions.push(PumpAction::Tell(words));
            },
            PumpInput::Notice(Some(Notice::Input(bytes))) => {
                actions.push(PumpAction::Write(bytes));
            },
            PumpInput::Notice(Some(Notice::Resize { cols, rows })) => {
                // With a local window attached, its size is the real one and a
                // subscriber's request would fight it. Without one, the request is all
                // there is.
                if !self.interactive {
                    actions = self.resize(cols, rows);
                }
            },
            PumpInput::Notice(Some(Notice::Ended(reason))) => {
                if self.shutting_down {
                    session = Session::Over;
                } else {
                    self.mirrored = false;
                    let words = reason.concat("; this terminal still works");
                    actions.push(PumpAction::Tell(words));
                }
            },
            PumpInput::Notice(None) => {
                if self.shutting_down {
                    session = Session::Over;
                } else {
                    self.mirrored = false;
                }
            },
            PumpInput::WriteFailed => {
                session = Session::Over;
            },
            PumpInput::Keys(bytes) => {
                actions.push(PumpAction::Write(bytes));
            },
            PumpInput::KeyboardEnded => {
                // The hosted shell may still be running for a subscriber.
                actions.push(PumpAction::Pause);
            },
            PumpInput::KeyboardFailed(error) => {
                session = Session::Failed(
                    "reading the keyboard: ".to_owned().concat(error.as_str()),
                );
            },
            PumpInput::Signal => {
                self.shutting_down = true;
                if self.mirrored {
                    actions.push(PumpAction::BeginShutdown);
                } else {
                    session = Session::Over;
                }
            },
            PumpInput::Deadline => {
                session = Session::Over;
            },
            PumpInput::Window { cols, rows } => {
                if cols != self.cols || rows != self.rows {
                    actions = self.resize(cols, rows);
                }
            },
        }
        assert(pump_actions(actions@) =~= model.actions);
        (actions, session)
    }
}

/// Losing the mirror never takes the terminal away: unless the session is already
/// shutting down, whatever the mirror says or fails to do, the session goes on.
pub proof fn law_mirror_never_ends_the_session(
    pump: Pump,
    notice: Option<Notice<Seq<char>, Seq<u8>>>,
)
    requires
        !pump.shutting_down,
    ensures
        pump.step(PumpInput::Notice(notice)).session is GoesOn,
        pump.step(PumpInput::PublishFailed).session is GoesOn,
{
}

/// A terminal with a person in front of it follows its own window: what a subscriber
/// would like changes nothing.
pub proof fn law_own_window_wins(pump: Pump, cols: u16, rows: u16)
    requires
        pump.interactive,
    ensures
        pump.step(PumpInput::Notice(Some(Notice::Resize { cols, rows }))) == pump.goes_on(
            Seq::empty(),
        ),
{
}

/// A mirrored terminal is never just abandoned: when its shell is gone or the process is
/// asked to stop, it is closed at the relay, once, before the session ends.
pub proof fn law_mirrors_are_closed_before_leaving(pump: Pump)
    requires
        pump.mirrored,
        !pump.shutting_down,
    ensures
        pump.step(PumpInput::Output(None)).actions == seq![
            PumpActionModel::BeginShutdown,
        ],
        pump.step(PumpInput::Output(None)).session is GoesOn,
        pump.step(PumpInput::Signal).actions == seq![PumpActionModel::BeginShutdown],
        pump.step(PumpInput::Signal).session is GoesOn,
        pump.step(PumpInput::Signal).pump.step(PumpInput::Output(None)).actions.len() == 0,
{
}

/// What a machine that is not enrolled is told.
pub const NOT_ENROLLED: &'static str =
    "this machine is not enrolled; run `hypeterm-publish enroll --relay <url>`";

/// What a machine without an identity is told.
pub const NO_IDENTITY: &'static str =
    "this machine has no identity yet; run `hypeterm-publish enroll` first";

/// What a machine without a relay is told.
pub const NO_RELAY: &'static str =
    "no relay is configured; run `hypeterm-publish enroll` first";

/// Publishing needs a relay and a device.
pub fn require_enrolled(state: &State) -> (result: Result<(), String>)
    ensures
        match result {
            Ok(()) => state.relay_url@.len() > 0 && state.device_id@.len() > 0,
            Err(words) => (state.relay_url@.len() == 0 || state.device_id@.len() == 0) && words@
                == NOT_ENROLLED@,
        },
{
    if state.relay_url.as_str().is_empty() || state.device_id.as_str().is_empty() {
        return Err(NOT_ENROLLED.to_owned());
    }
    Ok(())
}

/// The size of the local window, as far as it is known.
pub fn terminal_size(measured: Option<(u16, u16)>) -> (size: (u16, u16))
    ensures
        size == (match measured {
            Some((cols, rows)) => if cols > 0 && rows > 0 {
                (cols, rows)
            } else {
                (80u16, 24u16)
            },
            None => (80u16, 24u16),
        }),
{
    match measured {
        Some((cols, rows)) => if cols > 0 && rows > 0 {
            (cols, rows)
        } else {
            (80, 24)
        },
        None => (80, 24),
    }
}

/// The size that a hosted terminal starts with: what was asked for, if both sides were,
/// and the size of the local window otherwise.
pub fn initial_size(
    requested_cols: Option<u16>,
    requested_rows: Option<u16>,
    window: (u16, u16),
) -> (size: (u16, u16))
    ensures
        size == (if requested_cols is Some && requested_rows is Some {
            (requested_cols->0, requested_rows->0)
        } else {
            window
        }),
{
    match (requested_cols, requested_rows) {
        (Some(cols), Some(rows)) => (cols, rows),
        _ => window,
    }
}

/// A label with the working directory and the process appended.
pub open spec fn decorated(base: Seq<char>, directory: Seq<char>, pid: u32) -> Seq<char> {
    if directory.len() == 0 {
        base + " ("@ + decimal(pid as nat) + ")"@
    } else {
        base + ": "@ + directory + " ("@ + decimal(pid as nat) + ")"@
    }
}

/// Appends the working directory and process, so that two terminals started the same way
/// can still be told apart in a list on a phone.
pub fn decorate_label(base: &str, directory: &str, pid: u32) -> (label: String)
    ensures
        label@ == decorated(base@, directory@, pid),
{
    let label = base.to_owned();
    let label = if directory.is_empty() {
        label
    } else {
        label.concat(": ").concat(directory)
    };
    label.concat(" (").concat(text::decimal_of(pid as u64).as_str()).concat(")")
}

/// The label that a terminal gets: the given one, or the machine's name and the command,
/// decorated either way.
pub open spec fn label_for(
    given: Option<Seq<char>>,
    host: Seq<char>,
    command: Seq<Seq<char>>,
    directory: Seq<char>,
    pid: u32,
) -> Seq<char> {
    let base = match given {
        Some(given) => given,
        None => if command.len() == 0 {
            host
        } else {
            host + ": "@ + spaced(command)
        },
    };
    decorated(base, directory, pid)
}

/// The label that subscribers see.
pub fn choose_label(
    given: &Option<String>,
    host: &str,
    command: &Vec<String>,
    directory: &str,
    pid: u32,
) -> (label: String)
    ensures
        label@ == label_for(option_view(*given), host@, texts(command@), directory@, pid),
{
    match given {
        Some(given) => decorate_label(given.as_str(), directory, pid),
        None => {
            if command.len() == 0 {
                decorate_label(host, directory, pid)
            } else {
                let base = host.to_owned().concat(": ").concat(join_words(command).as_str());
                decorate_label(base.as_str(), directory, pid)
            }
        },
    }
}

/// The first name that is known of a machine, or a fallback.
pub fn machine_name(
    given: &Option<String>,
    hostname: &Option<String>,
    computer_name: &Option<String>,
    fallback: &str,
) -> (name: String)
    ensures
        name@ == (match option_view(*given) {
            Some(name) => name,
            None => match option_view(*hostname) {
                Some(name) => name,
                None => match option_view(*computer_name) {
                    Some(name) => name,
                    None => fallback@,
                },
            },
        }),
{
    match given {
        Some(name) => name.as_str().to_owned(),
        None => match hostname {
            Some(name) => name.as_str().to_owned(),
            None => match computer_name {
                Some(name) => name.as_str().to_owned(),
                None => fallback.to_owned(),
            },
        },
    }
}

/// How many minutes a pairing code lasts, as it is said to a person: never less than one.
pub fn minutes_left(expires_in: i64) -> (minutes: i64)
    ensures
        minutes == (if expires_in < 120 {
            1
        } else {
            expires_in as int / 60
        }),
{
    if expires_in < 120 {
        1
    } else {
        expires_in / 60
    }
}

/// Whether and how a terminal that a phone asked for also gets a window here.
#[derive(Debug)]
pub enum WindowPolicy<S = Vec<String>> {
    /// Open one when this machine has a display and an emulator to open it with.
    Auto,
    /// Always host headlessly.
    Never,
    /// The emulator to use, which the hosting command is appended to.
    Command(S),
}

impl View for WindowPolicy {
    type V = WindowPolicy<Seq<Seq<char>>>;

    open spec fn view(&self) -> WindowPolicy<Seq<Seq<char>>> {
        match self {
            WindowPolicy::Auto => WindowPolicy::Auto,
            WindowPolicy::Never => WindowPolicy::Never,
            WindowPolicy::Command(argv) => WindowPolicy::Command(texts(argv@)),
        }
    }
}

/// `auto`, `never`, or an emulator with its arguments.
pub fn window_policy(spec: Vec<String>) -> (policy: Result<WindowPolicy, String>)
    ensures
        match policy {
            Ok(policy) => spec@.len() > 0 && policy@ == (if texts(spec@) == seq!["auto"@] {
                WindowPolicy::Auto
            } else if texts(spec@) == seq!["never"@] {
                WindowPolicy::Never
            } else {
                WindowPolicy::Command(texts(spec@))
            }),
            Err(words) => spec@.len() == 0 && words@
                == "--window takes auto, never, or a terminal command"@,
        },
{
    if spec.len() == 0 {
        return Err("--window takes auto, never, or a terminal command".to_owned());
    }
    proof {
        reveal_strlit("auto");
        reveal_strlit("never");
        assert("auto"@.len() != "never"@.len());
        assert(texts(spec@)[0] == spec@[0]@);
        assert(seq!["auto"@][0] == "auto"@ && seq!["never"@][0] == "never"@);
    }
    if spec.len() == 1 {
        if text::same(spec[0].as_str(), "auto") {
            assert(texts(spec@) =~= seq!["auto"@]);
            return Ok(WindowPolicy::Auto);
        }
        if text::same(spec[0].as_str(), "never") {
            assert(texts(spec@) =~= seq!["never"@]);
            return Ok(WindowPolicy::Never);
        }
    }
    Ok(WindowPolicy::Command(spec))
}

/// Says what the policy will actually do. `detected` is the emulator that was found on
/// this machine, if one was; only on Unix is one looked for.
pub fn describe_window(
    system: System,
    policy: &WindowPolicy,
    detected: &Option<Vec<String>>,
) -> (words: String)
    ensures
        words@ == (match policy@ {
            WindowPolicy::Never => "never \u{2014} hosted headlessly"@,
            WindowPolicy::Command(argv) => spaced(argv),
            WindowPolicy::Auto => if system == System::Windows {
                "auto"@
            } else {
                match detected {
                    Some(argv) => "auto \u{2014} "@ + spaced(texts(argv@)),
                    None => "auto \u{2014} no display or no terminal emulator here, so headless"@,
                }
            },
        }),
{
    match policy {
        WindowPolicy::Never => "never \u{2014} hosted headlessly".to_owned(),
        WindowPolicy::Command(argv) => join_words(argv),
        WindowPolicy::Auto => match (system, detected) {
            (System::Windows, _) => "auto".to_owned(),
            (System::Unix, Some(argv)) => "auto \u{2014} ".to_owned().concat(join_words(argv).as_str()),
            (System::Unix, None) => {
                "auto \u{2014} no display or no terminal emulator here, so headless".to_owned()
            },
        },
    }
}

/// Allows a paired phone to ask for terminals, capturing the program and the directory
/// at the moment somebody means it. The program is what was given, or the user's own
/// shell; without either nothing changes.
pub fn enable_remote_open(
    config: &mut RemoteOpenConfig,
    shell: Option<Vec<String>>,
    cwd: Option<String>,
    max: Option<u32>,
    own_shell: Option<String>,
    home: Option<String>,
) -> (result: Result<(), String>)
    ensures
        ({
            let given = shell is Some && shell->0@.len() > 0;
            match result {
                Ok(()) => {
                    &&& given || own_shell is Some
                    &&& final(config).enabled
                    &&& texts(final(config).shell@) == (if given {
                        texts(shell->0@)
                    } else {
                        seq![own_shell->0@]
                    })
                    &&& final(config).cwd@ == (match option_view(cwd) {
                        Some(dir) => dir,
                        None => match option_view(home) {
                            Some(home) => home,
                            None => Seq::empty(),
                        },
                    })
                    &&& final(config).max_terminals == (match max {
                        Some(max) => if max == 0 {
                            1
                        } else {
                            max
                        },
                        None => old(config).max_terminals,
                    })
                },
                Err(words) => {
                    &&& !given && own_shell is None
                    &&& *final(config) == *old(config)
                    &&& words@ == "no $SHELL to capture; pass --shell <program> [args...]"@
                },
            }
        }),
{
    let mut argv: Vec<String> = match shell {
        Some(argv) => argv,
        None => Vec::new(),
    };
    if argv.len() == 0 {
        match own_shell {
            Some(program) => {
                argv.push(program);
                assert(texts(argv@) =~= seq![program@]);
            },
            None => return Err(
                "no $SHELL to capture; pass --shell <program> [args...]".to_owned(),
            ),
        }
    }
    config.enabled = true;
    config.shell = argv;
    config.cwd = match cwd {
        Some(dir) => dir,
        None => match home {
            Some(home) => home,
            None => String::new(),
        },
    };
    assert(Seq::<char>::empty().len() == 0);
    match max {
        Some(max) => {
            config.max_terminals = if max == 0 {
                1
            } else {
                max
            };
        },
        None => {},
    }
    Ok(())
}

/// Stops allowing it. What was captured is kept.
pub fn disable_remote_open(config: &mut RemoteOpenConfig)
    ensures
        *final(config) == (RemoteOpenConfig { enabled: false, ..*old(config) }),
{
    config.enabled = false;
}

/// `text` holds `part` somewhere.
pub open spec fn has_part(text: Seq<char>, part: Seq<char>) -> bool {
    exists|i: int|
        0 <= i && i + part.len() <= text.len() && #[trigger] text.subrange(
            i,
            i + part.len() as int,
        ) == part
}

fn contains_part(text: &str, part: &str) -> (found: bool)
    ensures
        found == has_part(text@, part@),
{
    let list = text::characters(text);
    let size: usize = text::characters(part).len();
    if list.len() < size {
        return false;
    }
    let mut index: usize = 0;
    while index <= list.len() - size
        invariant
            size == part@.len(),
            size <= list@.len(),
            list@ == text@,
            index <= list@.len() - size + 1,
            forall|i: int| 0 <= i < index ==> #[trigger] text@.subrange(i, i + part@.len() as int)
                != part@,
        decreases list@.len() - size + 1 - index,
    {
        let piece = text::string_of(&list, index, index + size);
        if text::same(piece.as_str(), part) {
            assert(text@.subrange(index as int, index + part@.len() as int) == part@);
            return true;
        }
        if index == list.len() - size {
            return false;
        }
        index = index + 1;
    }
    false
}

/// What is said when pairing a device that holds its own key.
pub const NEEDS_OWN_SIGNATURE: &'static str =
    "pairing a device that holds its own key needs a signature from that key.\nThe relay requires the device to sign its own registration challenge, so the phone has to complete this step itself.\nSee `hypeterm-publish pair --help`.";

/// What is said when a device could not be registered. Explicit where this side alone
/// cannot do it: the device has to sign its own registration.
pub fn pair_failure(error: &ApiError) -> (words: String)
    ensures
        words@ == (match error@ {
            ApiError::Malformed(detail) if has_part(detail, "private key"@) =>
                NEEDS_OWN_SIGNATURE@,
            _ => "registering the device: "@ + error@.words(),
        }),
{
    match error {
        ApiError::Malformed(detail) => {
            if contains_part(detail.as_str(), "private key") {
                return NEEDS_OWN_SIGNATURE.to_owned();
            }
        },
        _ => {},
    }
    "registering the device: ".to_owned().concat(error.to_text().as_str())
}

/// As many spaces.
pub open spec fn spaces(count: nat) -> Seq<char> {
    Seq::new(count, |i: int| ' ')
}

/// A text with spaces behind it, up to a width.
pub open spec fn padded_right(text: Seq<char>, width: nat) -> Seq<char> {
    if text.len() >= width {
        text
    } else {
        text + spaces((width - text.len()) as nat)
    }
}

/// A text with spaces in front of it, up to a width.
pub open spec fn padded_left(text: Seq<char>, width: nat) -> Seq<char> {
    if text.len() >= width {
        text
    } else {
        spaces((width - text.len()) as nat) + text
    }
}

fn fill(count: usize) -> (text: String)
    ensures
        text@ == spaces(count as nat),
{
    let mut text = String::new();
    let mut index: usize = 0;
    while index < count
        invariant
            index <= count,
            text@ =~= spaces(index as nat),
        decreases count - index,
    {
        text.push(' ');
        index = index + 1;
    }
    text
}

fn pad_right(text: &str, width: usize) -> (padded: String)
    ensures
        padded@ == padded_right(text@, width as nat),
{
    let size: usize = text::characters(text).len();
    if size >= width {
        text.to_owned()
    } else {
        text.to_owned().concat(fill(width - size).as_str())
    }
}

fn pad_left(text: &str, width: usize) -> (padded: String)
    ensures
        padded@ == padded_left(text@, width as nat),
{
    let size: usize = text::characters(text).len();
    if size >= width {
        text.to_owned()
    } else {
        fill(width - size).concat(text)
    }
}

/// A size, or zero.
pub open spec fn size_text(size: Option<u32>) -> Seq<char> {
    match size {
        Some(size) => decimal(size as nat),
        None => decimal(0),
    }
}

/// The line of one terminal in a list.
pub open spec fn listed(terminal: Terminal) -> Seq<char> {
    terminal.terminal_id@ + "  "@ + padded_right(terminal.label@, 24) + " "@ + padded_left(
        size_text(terminal.cols),
        3,
    ) + "x"@ + padded_right(size_text(terminal.rows), 3) + " "@ + terminal.state@ + (
    if terminal.accepts_input {
        ""@
    } else {
        " (read only)"@
    })
}

fn show_size(size: Option<u32>) -> (text: String)
    ensures
        text@ == size_text(size),
{
    match size {
        Some(size) => text::decimal_of(size as u64),
        None => text::decimal_of(0),
    }
}

/// The line of one terminal in a list.
pub fn terminal_line(terminal: &Terminal) -> (line: String)
    ensures
        line@ == listed(*terminal),
{
    let line = terminal.terminal_id.as_str().to_owned().concat("  ");
    let line = line.concat(pad_right(terminal.label.as_str(), 24).as_str()).concat(" ");
    let line = line.concat(pad_left(show_size(terminal.cols).as_str(), 3).as_str()).concat("x");
    let line = line.concat(pad_right(show_size(terminal.rows).as_str(), 3).as_str()).concat(" ");
    let line = line.concat(terminal.state.as_str());
    let suffix: &str = if terminal.accepts_input {
        ""
    } else {
        " (read only)"
    };
    line.concat(suffix)
}

/// Something about the mirror for whoever sits in front of the terminal.
pub fn notice(interactive: bool, message: &str) -> (line: String)
    ensures
        line@ == (if interactive {
            "\r\n[hypeterm] "@ + message@ + "\r"@
        } else {
            "[hypeterm] "@ + message@
        }),
{
    if interactive {
        "\r\n[hypeterm] ".to_owned().concat(message).concat("\r")
    } else {
        "[hypeterm] ".to_owned().concat(message)
    }
}

} // verus!
