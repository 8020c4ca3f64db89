//! The multiplexing daemon: one relay connection, many mirrored terminals.
//!
//! A device may hold only one publisher connection. The daemon owns it and every
//! terminal on the machine is handed to it, which is what lets a machine mirror as many
//! as the relay allows. What is decided here is who is let in, what they are told, and
//! whether a terminal is opened because a phone asked; sockets, processes and the clock
//! belong to the program around the library.

use crate::ids::{uuid_text, uuid_value, Uuid};
use crate::publisher::backoff::{backoff_ms, delay_before};
use crate::publisher::ipc;
use crate::publisher::ipc::{
    code, encode_output, written, FromClient, FromDaemon, Paths, IPC_VERSION,
};
use crate::publisher::publish::Request;
use crate::publisher::session::{Event, Limits, OpenRequest, TerminalSpec};
use crate::publisher::state::RemoteOpenConfig;
use crate::text;
use crate::text::{decimal, is_control, is_white_space, option_view, quoted_text, texts};
use vstd::prelude::*;
use vstd::utf8::*;

verus! {

/// How long the daemon waits, with nothing to mirror, before standing down: long enough
/// to close one terminal and open another.
pub const IDLE_GRACE_SECONDS: u64 = 60;

/// How long a terminal keeps trying to reach a daemon before it goes without a mirror.
pub const ATTACH_DEADLINE_SECONDS: u64 = 5;

/// Exit status of a daemon that finds another one running. Distinct, so that this
/// expected outcome can be told from a failure.
pub const EXIT_ALREADY_RUNNING: i32 = 3;

/// How many terminals may be opened on request within [`REMOTE_OPEN_WINDOW_MS`].
/// Deliberately small: it bounds what a stolen phone can start before anyone notices.
pub const REMOTE_OPEN_BURST: usize = 3;

pub const REMOTE_OPEN_WINDOW_MS: u64 = 60000;

/// The longest label, in bytes.
pub const MAX_LABEL_BYTES: usize = 200;

/// A label that can be shown anywhere as it is.
pub open spec fn is_acceptable(label: Seq<char>) -> bool {
    &&& label.len() > 0
    &&& encode_utf8(label).len() <= MAX_LABEL_BYTES
    &&& exists|i: int| 0 <= i < label.len() && !is_white_space(#[trigger] label[i])
    &&& forall|i: int| 0 <= i < label.len() ==> !is_control(#[trigger] label[i])
}

/// Refuses a label rather than sanitising it.
///
/// The label is printed into a real terminal on this machine and crosses an argument
/// boundary. Stripping would leave the phone showing one string and this machine
/// another, which is the confusion that an injection wants.
pub fn acceptable_label(label: &str) -> (acceptable: bool)
    ensures
        acceptable == is_acceptable(label@),
{
    if label.as_bytes().len() > MAX_LABEL_BYTES {
        return false;
    }
    let list = text::characters(label);
    let mut index: usize = 0;
    let mut visible: bool = false;
    while index < list.len()
        invariant
            index <= list@.len(),
            list@ == label@,
            visible <==> exists|i: int| 0 <= i < index && !is_white_space(#[trigger] label@[i]),
            forall|i: int| 0 <= i < index ==> !is_control(#[trigger] label@[i]),
        decreases list@.len() - index,
    {
        if text::control(list[index]) {
            assert(is_control(label@[index as int]));
            return false;
        }
        if !text::white_space(list[index]) {
            assert(!is_white_space(label@[index as int]));
            visible = true;
        }
        index = index + 1;
    }
    visible
}

/// The owner's policy over sequences.
pub struct Policy {
    pub enabled: bool,
    pub shell: Seq<Seq<char>>,
    pub cwd: Seq<char>,
    pub max_terminals: u32,
}

impl View for RemoteOpenConfig {
    type V = Policy;

    open spec fn view(&self) -> Policy {
        Policy {
            enabled: self.enabled,
            shell: texts(self.shell@),
            cwd: self.cwd@,
            max_terminals: self.max_terminals,
        }
    }
}

/// The times, in milliseconds, that are still within the window at `now`. A time that
/// lies ahead of `now` is.
pub open spec fn recent(times: Seq<u64>, now: u64) -> Seq<u64>
    decreases times.len(),
{
    if times.len() == 0 {
        Seq::empty()
    } else if times.last() + REMOTE_OPEN_WINDOW_MS > now {
        recent(times.drop_last(), now).push(times.last())
    } else {
        recent(times.drop_last(), now)
    }
}

fn keep_recent(times: &Vec<u64>, now: u64) -> (kept: Vec<u64>)
    ensures
        kept@ == recent(times@, now),
{
    let mut kept: Vec<u64> = Vec::new();
    let mut index: usize = 0;
    assert(times@.take(0) =~= Seq::empty());
    while index < times.len()
        invariant
            index <= times@.len(),
            kept@ == recent(times@.take(index as int), now),
        decreases times@.len() - index,
    {
        assert(times@.take(index + 1).drop_last() =~= times@.take(index as int));
        let at: u64 = times[index];
        if at > now || now - at < REMOTE_OPEN_WINDOW_MS {
            kept.push(at);
        }
        index = index + 1;
    }
    assert(times@.take(index as int) =~= times@);
    kept
}

/// Why a request to open a terminal is refused.
#[derive(Debug, Clone, Copy, PartialEq, Eq, Structural)]
pub enum Refusal {
    NotPermitted,
    Busy,
    LimitReached,
    InternalError,
}

impl Refusal {
    pub open spec fn word(self) -> Seq<char> {
        match self {
            Refusal::NotPermitted => "not_permitted"@,
            Refusal::Busy => "busy"@,
            Refusal::LimitReached => "limit_reached"@,
            Refusal::InternalError => "internal_error"@,
        }
    }

    /// The word that the relay understands.
    pub fn as_str(&self) -> (word: &'static str)
        ensures
            word@ == self.word(),
    {
        match self {
            Refusal::NotPermitted => "not_permitted",
            Refusal::Busy => "busy",
            Refusal::LimitReached => "limit_reached",
            Refusal::InternalError => "internal_error",
        }
    }
}

/// What a request to open a terminal comes to.
#[derive(Debug)]
pub enum Hosting<S = String> {
    Decline(Refusal),
    Host { label: S, cols: u16, rows: u16 },
}

impl View for Hosting {
    type V = Hosting<Seq<char>>;

    open spec fn view(&self) -> Hosting<Seq<char>> {
        match self {
            Hosting::Decline(refusal) => Hosting::Decline(*refusal),
            Hosting::Host { label, cols, rows } => Hosting::Host {
                label: label@,
                cols: *cols,
                rows: *rows,
            },
        }
    }
}

/// The size that a terminal gets on one side.
pub open spec fn size_or(requested: Option<u16>, default: u16) -> u16 {
    match requested {
        Some(0) => 1,
        Some(size) => size,
        None => default,
    }
}

/// What a request to open a terminal comes to on this machine, and which openings count
/// against the next. `live` is how many terminals are mirrored or about to be.
pub open spec fn hosting(
    policy: Policy,
    spawns: Seq<u64>,
    now: u64,
    live: int,
    request: OpenRequest<Seq<char>>,
) -> (Hosting<Seq<char>>, Seq<u64>) {
    let label = match request.label {
        Some(label) => label,
        None => "phone"@,
    };
    if !policy.enabled {
        (Hosting::Decline(Refusal::NotPermitted), spawns)
    } else if recent(spawns, now).len() >= REMOTE_OPEN_BURST {
        (Hosting::Decline(Refusal::Busy), recent(spawns, now))
    } else {
        let counted = recent(spawns, now).push(now);
        if live >= policy.max_terminals {
            (Hosting::Decline(Refusal::LimitReached), counted)
        } else if !is_acceptable(label) {
            (Hosting::Decline(Refusal::NotPermitted), counted)
        } else {
            (
                Hosting::Host {
                    label,
                    cols: size_or(request.cols, 80),
                    rows: size_or(request.rows, 24),
                },
                counted,
            )
        }
    }
}

fn choose_size(requested: Option<u16>, default: u16) -> (size: u16)
    ensures
        size == size_or(requested, default),
{
    match requested {
        Some(size) => if size == 0 {
            1
        } else {
            size
        },
        None => default,
    }
}

/// Decides whether to open a terminal because a subscriber asked.
///
/// Every check is local. The relay has made its own, but this is the process that would
/// start the program, and its checks have to hold if the relay is compromised or simply
/// wrong. `spawns` are the times of earlier openings; `claimed` and `hosting` count the
/// terminals that are mirrored and those that have been started and not yet attached.
pub fn host_for_request(
    remote: &RemoteOpenConfig,
    spawns: &mut Vec<u64>,
    now_ms: u64,
    claimed: u32,
    hosting: u32,
    request: &OpenRequest,
) -> (decision: Hosting)
    ensures
        self::hosting(remote@, old(spawns)@, now_ms, claimed + hosting, request@) == (
            decision@,
            final(spawns)@,
        ),
{
    // This machine's own switch: the one that holds under a compromised relay.
    if !remote.enabled {
        return Hosting::Decline(Refusal::NotPermitted);
    }
    // A local rate limit, independent of the relay's.
    let kept = keep_recent(spawns, now_ms);
    *spawns = kept;
    if spawns.len() >= REMOTE_OPEN_BURST {
        return Hosting::Decline(Refusal::Busy);
    }
    spawns.push(now_ms);
    if claimed as u64 + hosting as u64 >= remote.max_terminals as u64 {
        return Hosting::Decline(Refusal::LimitReached);
    }
    let label = match &request.label {
        Some(label) => label.as_str().to_owned(),
        None => "phone".to_owned(),
    };
    if !acceptable_label(label.as_str()) {
        return Hosting::Decline(Refusal::NotPermitted);
    }
    Hosting::Host {
        label,
        cols: choose_size(request.cols, 80),
        rows: choose_size(request.rows, 24),
    }
}

/// The texts in quotation marks, separated by commas.
pub open spec fn quoted_list(list: Seq<Seq<char>>) -> Seq<char>
    decreases list.len(),
{
    if list.len() == 0 {
        Seq::empty()
    } else if list.len() == 1 {
        quoted_text(list[0])
    } else {
        quoted_list(list.drop_last()) + ", "@ + quoted_text(list.last())
    }
}

/// The texts in quotation marks, separated by commas.
pub fn quote_list(list: &Vec<String>) -> (text: String)
    ensures
        text@ == quoted_list(texts(list@)),
{
    let mut text = String::new();
    let mut index: usize = 0;
    assert(texts(list@).take(0) =~= Seq::empty());
    assert(text@ =~= quoted_list(texts(list@).take(0)));
    while index < list.len()
        invariant
            index <= list@.len(),
            text@ == quoted_list(texts(list@).take(index as int)),
        decreases list@.len() - index,
    {
        proof {
            let longer = texts(list@).take(index + 1);
            assert(longer.drop_last() =~= texts(list@).take(index as int));
            assert(longer.last() == list@[index as int]@);
        }
        let item = text::quoted(list[index].as_str());
        if index == 0 {
            text = item;
        } else {
            text = text.concat(", ").concat(item.as_str());
        }
        index = index + 1;
    }
    assert(texts(list@).take(index as int) =~= texts(list@));
    text
}

/// The line that records an opening.
pub open spec fn record_text(
    unix: u64,
    request_id: Seq<char>,
    label: Seq<char>,
    policy: Policy,
    cols: u16,
    rows: u16,
) -> Seq<char> {
    "unix="@ + decimal(unix as nat) + " request="@ + request_id + " label="@ + quoted_text(label)
        + " argv=["@ + quoted_list(policy.shell) + "] cwd="@ + quoted_text(policy.cwd) + " cols="@
        + decimal(cols as nat) + " rows="@ + decimal(rows as nat) + "\n"@
}

/// The line that records an opening, written before the program is started so that one
/// that dies at once still leaves a trace. The label is escaped because it came off the
/// network.
pub fn remote_open_record(
    unix: u64,
    request_id: &str,
    label: &str,
    remote: &RemoteOpenConfig,
    cols: u16,
    rows: u16,
) -> (line: String)
    ensures
        line@ == record_text(unix, request_id@, label@, remote@, cols, rows),
{
    let line = "unix=".to_owned().concat(text::decimal_of(unix).as_str());
    let line = line.concat(" request=").concat(request_id);
    let line = line.concat(" label=").concat(text::quoted(label).as_str());
    let line = line.concat(" argv=[").concat(quote_list(&remote.shell).as_str());
    let line = line.concat("] cwd=").concat(text::quoted(remote.cwd.as_str()).as_str());
    let line = line.concat(" cols=").concat(text::decimal_of(cols as u64).as_str());
    let line = line.concat(" rows=").concat(text::decimal_of(rows as u64).as_str());
    line.concat("\n")
}

/// The arguments of the program that hosts a terminal for a subscriber. Every value that
/// came off the network is one argument of its own, whole and unchanged; nothing is put
/// together for a shell to take apart.
pub open spec fn hosted_argv(
    state_file: Seq<char>,
    policy: Policy,
    label: Seq<char>,
    request_id: Seq<char>,
    cols: u16,
    rows: u16,
) -> Seq<Seq<char>> {
    let fixed = seq![
        "--state-file"@,
        state_file,
        "run"@,
        "--label"@,
        label,
        "--in-reply-to"@,
        request_id,
        "--cols"@,
        decimal(cols as nat),
        "--rows"@,
        decimal(rows as nat),
    ];
    if policy.shell.len() == 0 {
        fixed
    } else {
        fixed + seq!["--"@] + policy.shell
    }
}

/// The arguments of the program that hosts a terminal for a subscriber.
pub fn hosted_arguments(
    state_file: &str,
    remote: &RemoteOpenConfig,
    label: &str,
    request_id: &str,
    cols: u16,
    rows: u16,
) -> (arguments: Vec<String>)
    ensures
        texts(arguments@) == hosted_argv(state_file@, remote@, label@, request_id@, cols, rows),
{
    let mut arguments: Vec<String> = Vec::new();
    arguments.push("--state-file".to_owned());
    arguments.push(state_file.to_owned());
    arguments.push("run".to_owned());
    arguments.push("--label".to_owned());
    arguments.push(label.to_owned());
    arguments.push("--in-reply-to".to_owned());
    arguments.push(request_id.to_owned());
    arguments.push("--cols".to_owned());
    arguments.push(text::decimal_of(cols as u64));
    arguments.push("--rows".to_owned());
    arguments.push(text::decimal_of(rows as u64));
    let ghost fixed = texts(arguments@);
    proof {
        assert(fixed =~= seq![
            "--state-file"@,
            state_file@,
            "run"@,
            "--label"@,
            label@,
            "--in-reply-to"@,
            request_id@,
            "--cols"@,
            decimal(cols as nat),
            "--rows"@,
            decimal(rows as nat),
        ]);
    }
    if remote.shell.len() > 0 {
        arguments.push("--".to_owned());
        let ghost start = texts(arguments@);
        assert(start =~= fixed + seq!["--"@]);
        let mut index: usize = 0;
        assert(start =~= start + texts(remote.shell@).take(0));
        while index < remote.shell.len()
            invariant
                index <= remote.shell@.len(),
                texts(arguments@) == start + texts(remote.shell@).take(index as int),
            decreases remote.shell@.len() - index,
        {
            let ghost before = texts(arguments@);
            arguments.push(remote.shell[index].as_str().to_owned());
            assert(texts(arguments@) =~= before.push(remote.shell@[index as int]@));
            assert(texts(remote.shell@).take(index + 1) =~= texts(remote.shell@).take(
                index as int,
            ).push(remote.shell@[index as int]@));
            index = index + 1;
            assert(texts(arguments@) =~= start + texts(remote.shell@).take(index as int));
        }
        assert(texts(remote.shell@).take(index as int) =~= texts(remote.shell@));
    }
    arguments
}

/// Where the hosted program starts: the owner's choice, or the home directory.
pub fn hosted_directory(remote: &RemoteOpenConfig, home: &Option<String>) -> (directory: Option<
    String,
>)
    ensures
        option_view(directory) == (if remote.cwd@.len() > 0 {
            Some(remote.cwd@)
        } else {
            option_view(*home)
        }),
{
    if !remote.cwd.as_str().is_empty() {
        Some(remote.cwd.as_str().to_owned())
    } else {
        text::copy_option(home)
    }
}

/// Whether the daemon has nothing to do. A program that was started for a phone and has
/// not connected back counts, or its socket would be taken away from under it; and while
/// the owner allows requests the daemon stays, because a machine with no terminal open
/// is exactly when someone asks for one.
pub fn is_idle(clients: u32, hosting: u32, remote_enabled: bool) -> (idle: bool)
    ensures
        idle == (clients == 0 && hosting == 0 && !remote_enabled),
{
    clients == 0 && hosting == 0 && !remote_enabled
}

/// The references of the terminals that live clients hold. The relay tells terminals
/// apart by these, so admitting a second client under one would splice two shells onto
/// a single offset stream.
pub struct Claims {
    refs: Vec<String>,
}

impl View for Claims {
    type V = Seq<Seq<char>>;

    closed spec fn view(&self) -> Seq<Seq<char>> {
        texts(self.refs@)
    }
}

/// Where a reference stands among the claims, or their number.
pub open spec fn place_of(claims: Seq<Seq<char>>, local_ref: Seq<char>) -> nat
    decreases claims.len(),
{
    if claims.len() == 0 || claims[0] == local_ref {
        0
    } else {
        1 + place_of(claims.drop_first(), local_ref)
    }
}

proof fn lemma_place_of(claims: Seq<Seq<char>>, local_ref: Seq<char>, at: int)
    requires
        0 <= at <= claims.len(),
        at < claims.len() ==> claims[at] == local_ref,
        forall|i: int| 0 <= i < at ==> claims[i] != local_ref,
    ensures
        place_of(claims, local_ref) == at,
    decreases claims.len(),
{
    if claims.len() > 0 && claims[0] != local_ref {
        lemma_place_of(claims.drop_first(), local_ref, at - 1);
    }
}

impl Claims {
    /// No reference is held twice.
    pub open spec fn wf(&self) -> bool {
        self@.no_duplicates()
    }

    pub fn new() -> (claims: Self)
        ensures
            claims.wf(),
            claims@ == Seq::<Seq<char>>::empty(),
    {
        let claims = Self { refs: Vec::new() };
        assert(claims@ =~= Seq::<Seq<char>>::empty());
        claims
    }

    pub fn len(&self) -> (len: usize)
        ensures
            len == self@.len(),
    {
        self.refs.len()
    }

    /// Whether a reference is held.
    pub fn contains(&self, local_ref: &str) -> (held: bool)
        ensures
            held == self@.contains(local_ref@),
    {
        text::holds(self.refs.as_slice(), local_ref)
    }

    /// Claim a reference. Returns whether it was free.
    pub fn claim(&mut self, local_ref: &str) -> (free: bool)
        requires
            old(self).wf(),
        ensures
            final(self).wf(),
            free == !old(self)@.contains(local_ref@),
            final(self)@ == (if free {
                old(self)@.push(local_ref@)
            } else {
                old(self)@
            }),
    {
        if self.contains(local_ref) {
            return false;
        }
        let ghost before = self@;
        self.refs.push(local_ref.to_owned());
        assert(self@ =~= before.push(local_ref@));
        true
    }

    /// Give a reference back.
    pub fn release(&mut self, local_ref: &str)
        requires
            old(self).wf(),
        ensures
            final(self).wf(),
            !final(self)@.contains(local_ref@),
            final(self)@ == (if old(self)@.contains(local_ref@) {
                old(self)@.remove(place_of(old(self)@, local_ref@) as int)
            } else {
                old(self)@
            }),
    {
        let ghost before = self@;
        let mut index: usize = 0;
        while index < self.refs.len()
            invariant
                index <= self.refs@.len(),
                self@ == before,
                before.no_duplicates(),
                forall|i: int| 0 <= i < index ==> before[i] != local_ref@,
            ensures
                index <= self.refs@.len(),
                self@ == before,
                forall|i: int| 0 <= i < index ==> before[i] != local_ref@,
                index < self.refs@.len() ==> before[index as int] == local_ref@,
            decreases self.refs@.len() - index,
        {
            assert(before[index as int] == self.refs@[index as int]@);
            if text::same(self.refs[index].as_str(), local_ref) {
                break;
            }
            index = index + 1;
        }
        if index < self.refs.len() {
            proof {
                lemma_place_of(before, local_ref@, index as int);
                assert(before.contains(local_ref@));
            }
            self.refs.remove(index);
            assert(self@ =~= before.remove(index as int));
            assert(self@.no_duplicates()) by {
                assert forall|i: int, j: int| 0 <= i < self@.len() && 0 <= j < self@.len() && i != j
                    implies self@[i] != self@[j] by {
                    let i0 = if i < index { i } else { i + 1 };
                    let j0 = if j < index { j } else { j + 1 };
                    assert(before[i0] != before[j0]);
                }
            }
            assert(!self@.contains(local_ref@)) by {
                assert forall|i: int| 0 <= i < self@.len() implies self@[i] != local_ref@ by {
                    let i0 = if i < index { i } else { i + 1 };
                    assert(before[i0] != before[index as int]);
                }
            }
        }
    }
}

/// What the daemon reads from a client.
#[derive(Debug)]
pub enum Received<S = String, B = Vec<u8>> {
    Control(FromClient<S>),
    /// A control frame that could not be read, with the reason.
    Unreadable(S),
    Output { start_offset: u64, bytes: B },
    Input(B),
    /// The client is gone, with the words for it.
    End(S),
    /// The connection failed, with the reason.
    Failed(S),
}

impl View for Received {
    type V = Received<Seq<char>, Seq<u8>>;

    open spec fn view(&self) -> Received<Seq<char>, Seq<u8>> {
        match self {
            Received::Control(message) => Received::Control(message@),
            Received::Unreadable(reason) => Received::Unreadable(reason@),
            Received::Output { start_offset, bytes } => Received::Output {
                start_offset: *start_offset,
                bytes: bytes@,
            },
            Received::Input(bytes) => Received::Input(bytes@),
            Received::End(words) => Received::End(words@),
            Received::Failed(reason) => Received::Failed(reason@),
        }
    }
}

/// How a conversation with a client stands.
#[derive(Debug)]
pub enum Talk<S = String, B = Vec<u8>> {
    /// Answer, and go on to the next frame.
    Answer(FromDaemon<S>),
    /// Answer, and end the conversation for the given reason.
    Refuse { answer: FromDaemon<S>, reason: S },
    /// End the conversation without an answer, for the given reason.
    Fail(S),
    /// Open this terminal and carry its frames.
    Open(TerminalSpec<S>),
    /// Answer, and stand down.
    StandDown(FromDaemon<S>),
    /// Hand output to the relay connection.
    Publish { start_offset: u64, bytes: B },
    Resize { cols: u16, rows: u16 },
    /// Nothing to do.
    Ignore,
    /// The client has finished.
    Finish,
}

impl View for Talk {
    type V = Talk<Seq<char>, Seq<u8>>;

    open spec fn view(&self) -> Talk<Seq<char>, Seq<u8>> {
        match self {
            Talk::Answer(answer) => Talk::Answer(answer@),
            Talk::Refuse { answer, reason } => Talk::Refuse { answer: answer@, reason: reason@ },
            Talk::Fail(reason) => Talk::Fail(reason@),
            Talk::Open(spec) => Talk::Open(spec@),
            Talk::StandDown(answer) => Talk::StandDown(answer@),
            Talk::Publish { start_offset, bytes } => Talk::Publish {
                start_offset: *start_offset,
                bytes: bytes@,
            },
            Talk::Resize { cols, rows } => Talk::Resize { cols: *cols, rows: *rows },
            Talk::Ignore => Talk::Ignore,
            Talk::Finish => Talk::Finish,
        }
    }
}

/// A refusal with its code and its message.
pub open spec fn refused(code: Seq<char>, message: Seq<char>) -> Talk<Seq<char>, Seq<u8>> {
    Talk::Refuse { answer: FromDaemon::Error { code, message }, reason: message }
}

fn refuse(code: &str, message: &str) -> (talk: Talk)
    ensures
        talk@ == refused(code@, message@),
{
    Talk::Refuse {
        answer: FromDaemon::Error { code: code.to_owned(), message: message.to_owned() },
        reason: message.to_owned(),
    }
}

/// What the first frame of a client comes to. `others` counts the other clients.
pub open spec fn greeted(
    received: Received<Seq<char>, Seq<u8>>,
    others: u32,
    build: Seq<char>,
    pid: u32,
) -> Talk<Seq<char>, Seq<u8>> {
    match received {
        Received::Control(FromClient::Hello { ipc_version, build: theirs, pid: their_pid }) =>
            Talk::Answer(
            FromDaemon::HelloOk { ipc_version: IPC_VERSION, build, pid, clients: others },
        ),
        Received::Unreadable(reason) => Talk::Fail(reason),
        Received::End(reason) => Talk::Fail(reason),
        Received::Failed(reason) => Talk::Fail(reason),
        _ => refused(code::PROTOCOL_ERROR@, "the first frame must be hello"@),
    }
}

/// The first frame of a client has to be a greeting. It is answered with this daemon's
/// version, whatever the client's: the client knows whether it can live without a
/// mirror, and this daemon must not take other terminals down to make way. `clients`
/// counts the attached clients, this one with them.
pub fn on_hello(received: Received, clients: u32, build: &str, pid: u32) -> (talk: Talk)
    ensures
        talk@ == greeted(
            received@,
            if clients == 0 {
                0
            } else {
                (clients - 1) as u32
            },
            build@,
            pid,
        ),
{
    match received {
        Received::Control(FromClient::Hello { ipc_version, build: theirs, pid: their_pid }) => {
            Talk::Answer(
                FromDaemon::HelloOk {
                    ipc_version: IPC_VERSION,
                    build: build.to_owned(),
                    pid,
                    clients: clients.saturating_sub(1),
                },
            )
        },
        Received::Unreadable(reason) => Talk::Fail(reason),
        Received::End(reason) => Talk::Fail(reason),
        Received::Failed(reason) => Talk::Fail(reason),
        _ => refuse(code::PROTOCOL_ERROR, "the first frame must be hello"),
    }
}

/// What the second frame of a client comes to, and who holds what afterwards.
pub open spec fn opened(
    received: Received<Seq<char>, Seq<u8>>,
    others: u32,
    claims: Seq<Seq<char>>,
) -> (Talk<Seq<char>, Seq<u8>>, Seq<Seq<char>>) {
    match received {
        Received::Control(
            FromClient::Open { local_ref, label, cols, rows, term, in_reply_to },
        ) => if claims.contains(local_ref) {
            (
                refused(
                    code::DUPLICATE_LOCAL_REF@,
                    "another terminal here already uses that reference"@,
                ),
                claims,
            )
        } else {
            (
                Talk::Open(TerminalSpec { local_ref, label, cols, rows, term, in_reply_to }),
                claims.push(local_ref),
            )
        },
        Received::Control(FromClient::Retire) => if others == 0 && claims.len() == 0 {
            (
                Talk::StandDown(
                    FromDaemon::Ended { reason: "retiring so a newer build can take over"@ },
                ),
                claims,
            )
        } else {
            (
                refused(
                    code::RETIRE_REFUSED@,
                    "terminals are being mirrored through this daemon"@,
                ),
                claims,
            )
        },
        Received::Unreadable(reason) => (Talk::Fail(reason), claims),
        Received::End(reason) => (Talk::Fail(reason), claims),
        Received::Failed(reason) => (Talk::Fail(reason), claims),
        _ => (refused(code::PROTOCOL_ERROR@, "expected open"@), claims),
    }
}

/// The second frame of a client opens its terminal, under a reference that nobody else
/// here holds, or asks the daemon to stand down. It stands down only if nobody else is
/// attached and nothing is mirrored: standing down would drop the relay connection under
/// them.
pub fn on_open(received: Received, others: u32, claims: &mut Claims) -> (talk: Talk)
    requires
        old(claims).wf(),
    ensures
        final(claims).wf(),
        opened(received@, others, old(claims)@) == (talk@, final(claims)@),
{
    match received {
        Received::Control(
            FromClient::Open { local_ref, label, cols, rows, term, in_reply_to },
        ) => {
            if !claims.claim(local_ref.as_str()) {
                return refuse(
                    code::DUPLICATE_LOCAL_REF,
                    "another terminal here already uses that reference",
                );
            }
            Talk::Open(TerminalSpec { local_ref, label, cols, rows, term, in_reply_to })
        },
        Received::Control(FromClient::Retire) => {
            if others == 0 && claims.len() == 0 {
                return Talk::StandDown(
                    FromDaemon::Ended {
                        reason: "retiring so a newer build can take over".to_owned(),
                    },
                );
            }
            refuse(code::RETIRE_REFUSED, "terminals are being mirrored through this daemon")
        },
        Received::Unreadable(reason) => Talk::Fail(reason),
        Received::End(reason) => Talk::Fail(reason),
        Received::Failed(reason) => Talk::Fail(reason),
        _ => refuse(code::PROTOCOL_ERROR, "expected open"),
    }
}

/// What any later frame of a client comes to.
pub open spec fn carried_on(received: Received<Seq<char>, Seq<u8>>) -> Talk<Seq<char>, Seq<u8>> {
    match received {
        Received::Output { start_offset, bytes } => if bytes.len() == 0 {
            Talk::Ignore
        } else {
            Talk::Publish { start_offset, bytes }
        },
        Received::Control(FromClient::Resize { cols, rows }) => Talk::Resize { cols, rows },
        Received::Control(FromClient::Close { reason }) => Talk::Finish,
        Received::Control(message) => Talk::Ignore,
        Received::Unreadable(reason) => Talk::Fail(reason),
        Received::Input(bytes) => Talk::Fail("a client sent an input frame"@),
        Received::End(words) => Talk::Finish,
        Received::Failed(reason) => Talk::Fail(reason),
    }
}

/// Any later frame of a client. However the client leaves, cleanly, killed or with its
/// window, its terminal is closed at the relay: an abandoned one would stay listed and
/// swallow keystrokes.
pub fn on_client_frame(received: Received) -> (talk: Talk)
    ensures
        talk@ == carried_on(received@),
{
    match received {
        Received::Output { start_offset, bytes } => if bytes.len() == 0 {
            Talk::Ignore
        } else {
            Talk::Publish { start_offset, bytes }
        },
        Received::Control(FromClient::Resize { cols, rows }) => Talk::Resize { cols, rows },
        Received::Control(FromClient::Close { reason }) => Talk::Finish,
        Received::Control(message) => Talk::Ignore,
        Received::Unreadable(reason) => Talk::Fail(reason),
        Received::Input(bytes) => Talk::Fail("a client sent an input frame".to_owned()),
        Received::End(words) => Talk::Finish,
        Received::Failed(reason) => Talk::Fail(reason),
    }
}

/// How an event about a terminal reaches its client.
#[derive(Debug)]
pub enum Relayed<S = String, B = Vec<u8>> {
    Message(FromDaemon<S>),
    Input(B),
    /// The last message of the conversation.
    Last(FromDaemon<S>),
}

impl View for Relayed {
    type V = Relayed<Seq<char>, Seq<u8>>;

    open spec fn view(&self) -> Relayed<Seq<char>, Seq<u8>> {
        match self {
            Relayed::Message(message) => Relayed::Message(message@),
            Relayed::Input(bytes) => Relayed::Input(bytes@),
            Relayed::Last(message) => Relayed::Last(message@),
        }
    }
}

/// How an event about a terminal reaches its client.
pub open spec fn relayed(event: Event<Seq<char>, Seq<u8>>) -> Relayed<Seq<char>, Seq<u8>> {
    match event {
        Event::Attached { terminal_id, next_offset, limits } => Relayed::Message(
            FromDaemon::Attached {
                terminal_id: uuid_text(terminal_id.value),
                next_offset,
                max_output_frame_bytes: limits.max_output_frame_bytes,
                max_unacked_output_bytes: limits.max_unacked_output_bytes,
            },
        ),
        Event::Ack { durable_offset } => Relayed::Message(FromDaemon::Ack { durable_offset }),
        Event::Mismatch { next_offset } => Relayed::Message(FromDaemon::Mismatch { next_offset }),
        Event::Detached => Relayed::Message(FromDaemon::Detached),
        Event::ResizeRequest { cols, rows } => Relayed::Message(
            FromDaemon::ResizeRequest { cols, rows },
        ),
        Event::Input(bytes) => Relayed::Input(bytes),
        Event::Ended(reason) => Relayed::Last(FromDaemon::Ended { reason }),
    }
}

/// How an event about a terminal reaches its client. What the client makes of the
/// message is the event again.
pub fn relay_event(event: Event) -> (out: Relayed)
    ensures
        out@ == relayed(event@),
        out@ matches Relayed::Message(message) ==> understood(message) == Incoming::Event(event@),
        out@ matches Relayed::Last(message) ==> event@ matches Event::Ended(reason) && understood(
            message,
        ) == Incoming::<Seq<char>, Seq<u8>>::Final(reason),
{
    match event {
        Event::Attached { terminal_id, next_offset, limits } => Relayed::Message(
            FromDaemon::Attached {
                terminal_id: terminal_id.to_text(),
                next_offset,
                max_output_frame_bytes: limits.max_output_frame_bytes,
                max_unacked_output_bytes: limits.max_unacked_output_bytes,
            },
        ),
        Event::Ack { durable_offset } => Relayed::Message(FromDaemon::Ack { durable_offset }),
        Event::Mismatch { next_offset } => Relayed::Message(FromDaemon::Mismatch { next_offset }),
        Event::Detached => Relayed::Message(FromDaemon::Detached),
        Event::ResizeRequest { cols, rows } => Relayed::Message(
            FromDaemon::ResizeRequest { cols, rows },
        ),
        Event::Input(bytes) => Relayed::Input(bytes),
        Event::Ended(reason) => Relayed::Last(FromDaemon::Ended { reason }),
    }
}

/// What a client makes of a message from the daemon.
#[derive(Debug)]
pub enum Incoming<S = String, B = Vec<u8>> {
    Event(Event<S, B>),
    /// The terminal is over: attaching again would open something that is meant to be
    /// closed.
    Final(S),
    Ignore,
}

impl View for Incoming {
    type V = Incoming<Seq<char>, Seq<u8>>;

    open spec fn view(&self) -> Incoming<Seq<char>, Seq<u8>> {
        match self {
            Incoming::Event(event) => Incoming::Event(event@),
            Incoming::Final(reason) => Incoming::Final(reason@),
            Incoming::Ignore => Incoming::Ignore,
        }
    }
}

/// What a client makes of a message from the daemon.
pub open spec fn understood(message: FromDaemon<Seq<char>>) -> Incoming<Seq<char>, Seq<u8>> {
    match message {
        FromDaemon::Attached {
            terminal_id,
            next_offset,
            max_output_frame_bytes,
            max_unacked_output_bytes,
        } => Incoming::Event(
            Event::Attached {
                terminal_id: Uuid {
                    value: match uuid_value(terminal_id) {
                        Some(value) => value,
                        None => 0,
                    },
                },
                next_offset,
                limits: Limits { max_output_frame_bytes, max_unacked_output_bytes },
            },
        ),
        FromDaemon::Ack { durable_offset } => Incoming::Event(Event::Ack { durable_offset }),
        FromDaemon::Mismatch { next_offset } => Incoming::Event(Event::Mismatch { next_offset }),
        FromDaemon::Detached => Incoming::Event(Event::Detached),
        FromDaemon::ResizeRequest { cols, rows } => Incoming::Event(
            Event::ResizeRequest { cols, rows },
        ),
        FromDaemon::Ended { reason } => Incoming::Final(reason),
        FromDaemon::Error { code, message } => Incoming::Final(code + ": "@ + message),
        FromDaemon::HelloOk { ipc_version, build, pid, clients } => Incoming::Ignore,
        FromDaemon::Unrecognised => Incoming::Ignore,
    }
}

/// What a client makes of a message from the daemon. Unknown messages are ignored.
pub fn on_daemon_message(message: FromDaemon) -> (incoming: Incoming)
    ensures
        incoming@ == understood(message@),
{
    match message {
        FromDaemon::Attached {
            terminal_id,
            next_offset,
            max_output_frame_bytes,
            max_unacked_output_bytes,
        } => {
            let terminal_id = match Uuid::parse_str(terminal_id.as_str()) {
                Some(id) => id,
                None => Uuid::from_u128(0),
            };
            let limits = Limits { max_output_frame_bytes, max_unacked_output_bytes };
            Incoming::Event(Event::Attached { terminal_id, next_offset, limits })
        },
        FromDaemon::Ack { durable_offset } => Incoming::Event(Event::Ack { durable_offset }),
        FromDaemon::Mismatch { next_offset } => Incoming::Event(Event::Mismatch { next_offset }),
        FromDaemon::Detached => Incoming::Event(Event::Detached),
        FromDaemon::ResizeRequest { cols, rows } => Incoming::Event(
            Event::ResizeRequest { cols, rows },
        ),
        FromDaemon::Ended { reason } => Incoming::Final(reason),
        FromDaemon::Error { code, message } => Incoming::Final(
            code.concat(": ").concat(message.as_str()),
        ),
        FromDaemon::HelloOk { ipc_version, build, pid, clients } => Incoming::Ignore,
        FromDaemon::Unrecognised => Incoming::Ignore,
    }
}

/// What a frame from the daemon comes to on the client's side.
#[derive(Debug)]
pub enum DaemonFrame {
    Input(Vec<u8>),
    /// A control message; `None` if it could not be read.
    Control(Option<FromDaemon>),
    Output,
}

/// What a frame from the daemon comes to. Unreadable messages are ignored, and output is
/// never sent this way.
pub fn on_daemon_frame(frame: DaemonFrame) -> (incoming: Incoming)
    ensures
        incoming@ == (match frame {
            DaemonFrame::Input(bytes) => Incoming::Event(Event::Input(bytes@)),
            DaemonFrame::Control(Some(message)) => understood(message@),
            DaemonFrame::Control(None) => Incoming::Ignore,
            DaemonFrame::Output => Incoming::Final("the daemon sent output to a publisher"@),
        }),
{
    match frame {
        DaemonFrame::Input(bytes) => Incoming::Event(Event::Input(bytes)),
        DaemonFrame::Control(Some(message)) => on_daemon_message(message),
        DaemonFrame::Control(None) => Incoming::Ignore,
        DaemonFrame::Output => Incoming::Final(
            "the daemon sent output to a publisher".to_owned(),
        ),
    }
}

/// How a driver's request reaches the daemon.
#[derive(Debug)]
pub enum ToDaemon<S = String, B = Vec<u8>> {
    /// A frame, as it is written.
    Frame(B),
    /// A control message, and whether it is the last.
    Control { message: FromClient<S>, last: bool },
}

impl View for ToDaemon {
    type V = ToDaemon<Seq<char>, Seq<u8>>;

    open spec fn view(&self) -> ToDaemon<Seq<char>, Seq<u8>> {
        match self {
            ToDaemon::Frame(bytes) => ToDaemon::Frame(bytes@),
            ToDaemon::Control { message, last } => ToDaemon::Control {
                message: message@,
                last: *last,
            },
        }
    }
}

/// How a driver's request reaches the daemon. A close is the last thing that a terminal
/// has to say.
pub fn forward_request(request: Request) -> (out: ToDaemon)
    ensures
        out@ == (match request@ {
            Request::Output { start_offset, bytes } => ToDaemon::Frame(
                written(ipc::Frame::Output { start_offset, bytes }),
            ),
            Request::Resize { cols, rows } => ToDaemon::Control {
                message: FromClient::Resize { cols, rows },
                last: false,
            },
            Request::Close { reason } => ToDaemon::Control {
                message: FromClient::Close { reason },
                last: true,
            },
        }),
{
    match request {
        Request::Output { start_offset, bytes } => ToDaemon::Frame(
            encode_output(start_offset, bytes.as_slice()),
        ),
        Request::Resize { cols, rows } => ToDaemon::Control {
            message: FromClient::Resize { cols, rows },
            last: false,
        },
        Request::Close { reason } => ToDaemon::Control {
            message: FromClient::Close { reason },
            last: true,
        },
    }
}

/// The first message of a client.
pub fn hello(build: &str, pid: u32) -> (message: FromClient)
    ensures
        message@ == (FromClient::Hello { ipc_version: IPC_VERSION, build: build@, pid }),
{
    FromClient::Hello { ipc_version: IPC_VERSION, build: build.to_owned(), pid }
}

/// The second message of a client. A request that the terminal answers is named the first
/// time that the terminal is opened and never `again`: a stale request would be answered
/// twice.
pub fn open(spec: &TerminalSpec, again: bool) -> (message: FromClient)
    ensures
        message@ == (FromClient::Open {
            local_ref: spec@.local_ref,
            label: spec@.label,
            cols: spec@.cols,
            rows: spec@.rows,
            term: spec@.term,
            in_reply_to: if again {
                None
            } else {
                spec@.in_reply_to
            },
        }),
{
    FromClient::Open {
        local_ref: spec.local_ref.as_str().to_owned(),
        label: spec.label.as_str().to_owned(),
        cols: spec.cols,
        rows: spec.rows,
        term: spec.term.as_str().to_owned(),
        in_reply_to: if again {
            None
        } else {
            text::copy_option(&spec.in_reply_to)
        },
    }
}

/// What is wrong with the daemon's greeting, if anything is. `shown` is the greeting as
/// it is shown to a person.
pub open spec fn greeting_fault(greeting: FromDaemon<Seq<char>>, shown: Seq<char>) -> Option<
    Seq<char>,
> {
    match greeting {
        FromDaemon::HelloOk { ipc_version, build, pid, clients } => if ipc_version != IPC_VERSION {
            Some(
                "a hypeterm-publish daemon from build "@ + build + " (pid "@ + decimal(pid as nat)
                    + ") is already mirroring on this machine and speaks a different local protocol. Stop it with: hypeterm-publish daemon --stop"@,
            )
        } else {
            None
        },
        _ => Some("the daemon answered "@ + shown + " to a greeting"@),
    }
}

/// Checks the daemon's greeting: it has to be one, and of this version.
pub fn check_greeting(greeting: &FromDaemon, shown: &str) -> (result: Result<(), String>)
    ensures
        match result {
            Ok(()) => greeting_fault(greeting@, shown@) is None,
            Err(fault) => greeting_fault(greeting@, shown@) == Some(fault@),
        },
{
    match greeting {
        FromDaemon::HelloOk { ipc_version, build, pid, clients } => {
            if *ipc_version != IPC_VERSION {
                let words = "a hypeterm-publish daemon from build ".to_owned().concat(
                    build.as_str(),
                ).concat(" (pid ").concat(text::decimal_of(*pid as u64).as_str()).concat(
                    ") is already mirroring on this machine and speaks a different local protocol. Stop it with: hypeterm-publish daemon --stop",
                );
                return Err(words);
            }
            Ok(())
        },
        _ => Err("the daemon answered ".to_owned().concat(shown).concat(" to a greeting")),
    }
}

/// How often to try attaching again before giving up.
pub const REATTACH_ATTEMPTS: u32 = 8;

/// How long to wait before the given attempt to attach again: a quarter of a second
/// doubled with every attempt, and never more than half a minute.
pub fn reattach_delay_ms(attempt: u32) -> (delay: u64)
    ensures
        delay == delay_before(250, attempt as nat),
{
    backoff_ms(250, attempt)
}

/// How long to wait before looking for a daemon's socket once more: twice as long as
/// before, and never more than a quarter of a second.
pub fn next_wait_ms(wait: u64) -> (next: u64)
    ensures
        next == (if wait * 2 < 250 {
            wait * 2
        } else {
            250
        }),
{
    if wait < 125 {
        wait * 2
    } else {
        250
    }
}

/// Where a daemon's log lives.
pub fn log_path(paths: &Paths) -> (path: String)
    ensures
        path@ == paths.log@,
{
    paths.log.as_str().to_owned()
}

/// What a running daemon says about itself.
#[derive(Debug)]
pub struct Running {
    pub pid: u32,
    pub build: String,
    pub ipc_version: u32,
    /// Clients attached other than the one that asked.
    pub clients: u32,
}

/// Reads a daemon's answer to a greeting that only asks how it is.
pub fn on_probe(answer: Option<FromDaemon>) -> (running: Option<Running>)
    ensures
        match option_view(answer) {
            Some(FromDaemon::HelloOk { ipc_version, build, pid, clients }) => running matches Some(
                running,
            ) && running.ipc_version == ipc_version && running.build@ == build && running.pid
                == pid && running.clients == clients,
            _ => running is None,
        },
{
    match answer {
        Some(FromDaemon::HelloOk { ipc_version, build, pid, clients }) => Some(
            Running { pid, build, ipc_version, clients },
        ),
        _ => None,
    }
}

/// Reads a daemon's answer to being asked to stand down: whether it did, or why not.
pub fn on_retired(answer: Option<FromDaemon>) -> (result: Result<bool, String>)
    ensures
        match option_view(answer) {
            Some(FromDaemon::Ended { reason }) => result == Ok::<bool, String>(true),
            Some(FromDaemon::Error { code, message }) => result matches Err(text) && text@
                == message,
            _ => result == Ok::<bool, String>(false),
        },
{
    match answer {
        Some(FromDaemon::Ended { reason }) => Ok(true),
        Some(FromDaemon::Error { code, message }) => Err(message),
        _ => Ok(false),
    }
}

/// The switch that holds under a compromised relay: while the owner has not allowed
/// requests, whatever the relay forwards is declined, and nothing else happens.
pub proof fn law_nothing_is_hosted_without_consent(
    policy: Policy,
    spawns: Seq<u64>,
    now: u64,
    live: int,
    request: OpenRequest<Seq<char>>,
)
    requires
        !policy.enabled,
    ensures
        hosting(policy, spawns, now, live, request) == (
            Hosting::<Seq<char>>::Decline(Refusal::NotPermitted),
            spawns,
        ),
{
}

/// The rate limit: among any openings that were counted, at most [`REMOTE_OPEN_BURST`]
/// lie within one window, because a request is only ever counted while fewer do.
pub proof fn law_openings_are_rate_limited(
    policy: Policy,
    spawns: Seq<u64>,
    now: u64,
    live: int,
    request: OpenRequest<Seq<char>>,
)
    requires
        spawns.len() <= REMOTE_OPEN_BURST,
    ensures
        hosting(policy, spawns, now, live, request).1.len() <= REMOTE_OPEN_BURST,
        hosting(policy, spawns, now, live, request).0 is Host ==> recent(spawns, now).len()
            < REMOTE_OPEN_BURST,
{
    lemma_recent_len(spawns, now);
}

proof fn lemma_recent_len(times: Seq<u64>, now: u64)
    ensures
        recent(times, now).len() <= times.len(),
    decreases times.len(),
{
    if times.len() > 0 {
        lemma_recent_len(times.drop_last(), now);
    }
}

/// What is hosted can be shown anywhere: its label holds no control character, and it
/// never exceeds what the owner allows at once.
pub proof fn law_hosted_terminals_are_within_policy(
    policy: Policy,
    spawns: Seq<u64>,
    now: u64,
    live: int,
    request: OpenRequest<Seq<char>>,
)
    requires
        hosting(policy, spawns, now, live, request).0 is Host,
    ensures
        policy.enabled,
        live < policy.max_terminals,
        is_acceptable(hosting(policy, spawns, now, live, request).0->label),
        hosting(policy, spawns, now, live, request).0->cols >= 1,
        hosting(policy, spawns, now, live, request).0->rows >= 1,
{
}

/// No two clients share a reference: a client is only let in under one that nobody
/// holds, and it holds it from then on.
pub proof fn law_references_are_claimed_once(
    received: Received<Seq<char>, Seq<u8>>,
    others: u32,
    claims: Seq<Seq<char>>,
)
    requires
        opened(received, others, claims).0 is Open,
        claims.no_duplicates(),
    ensures
        !claims.contains(opened(received, others, claims).0->Open_0.local_ref),
        opened(received, others, claims).1.contains(
            opened(received, others, claims).0->Open_0.local_ref,
        ),
        opened(received, others, claims).1.no_duplicates(),
{
    let local_ref = opened(received, others, claims).0->Open_0.local_ref;
    assert(claims.push(local_ref).last() == local_ref);
}

/// A daemon that mirrors anything never stands down because a client asks.
pub proof fn law_mirrors_keep_the_daemon_up(
    received: Received<Seq<char>, Seq<u8>>,
    others: u32,
    claims: Seq<Seq<char>>,
)
    requires
        others > 0 || claims.len() > 0,
    ensures
        !(opened(received, others, claims).0 is StandDown),
{
}

} // verus!
