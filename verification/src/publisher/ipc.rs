//! The local protocol between a terminal and the multiplexing daemon.
//!
//! A device may hold only one publisher connection to the relay, so on a machine with
//! several mirrored terminals exactly one process may own it. That process is the
//! daemon; every terminal is handed to it over a socket here.
//!
//! One connection carries exactly one terminal, for its whole life, so nothing on this
//! wire needs routing. What does cross the wire is the terminal's offset, because the
//! bytes it refers to are retained on the terminal's side: whoever holds the
//! unacknowledged bytes must be the one that decides where the stream resumes.

use crate::encoding;
use crate::encoding::{be32, be32_value, be64, be64_value, lemma_be32, lemma_be64, sha256_digest};
use crate::paths::{join, joined, System};
use crate::text;
use crate::text::{decimal, hex, option_view, trimmed};
use vstd::prelude::*;
use vstd::utf8::*;

pub mod code;

verus! {

/// Incremented only for a change that an older peer could misread.
pub const IPC_VERSION: u32 = 2;

/// `0x01 | length (u32 BE) | UTF-8 JSON`.
pub const FRAME_CONTROL: u8 = 0x01;

/// `0x02 | length (u32 BE) | start offset (u64 BE) | opaque pty bytes`. To the daemon.
pub const FRAME_OUTPUT: u8 = 0x02;

/// `0x03 | length (u32 BE) | opaque keystrokes`. From the daemon.
pub const FRAME_INPUT: u8 = 0x03;

/// Bigger than any read from a pseudo-terminal and any relay frame, so a length beyond
/// it is a corrupt or hostile peer rather than a large one.
pub const MAX_FRAME_BYTES: usize = 1048576;

/// Why a frame could not be read.
#[derive(Debug)]
pub enum IpcError<S = String> {
    /// The bytes ended inside a frame.
    UnexpectedEnd,
    TooLarge(usize),
    UnknownFrame(u8),
    WrongDirection(u8),
    Malformed(S),
}

impl View for IpcError {
    type V = IpcError<Seq<char>>;

    open spec fn view(&self) -> IpcError<Seq<char>> {
        match self {
            IpcError::UnexpectedEnd => IpcError::UnexpectedEnd,
            IpcError::TooLarge(length) => IpcError::TooLarge(*length),
            IpcError::UnknownFrame(kind) => IpcError::UnknownFrame(*kind),
            IpcError::WrongDirection(kind) => IpcError::WrongDirection(*kind),
            IpcError::Malformed(detail) => IpcError::Malformed(detail@),
        }
    }
}

impl IpcError<Seq<char>> {
    pub open spec fn words(self) -> Seq<char> {
        match self {
            IpcError::UnexpectedEnd => "early eof"@,
            IpcError::TooLarge(length) => "the peer sent a frame of "@ + decimal(length as nat)
                + " bytes, beyond the 1048576 limit"@,
            IpcError::UnknownFrame(kind) => "the peer sent an unknown frame type 0x"@ + hex(
                seq![kind],
            ),
            IpcError::WrongDirection(kind) =>
                "the peer sent a frame in the wrong direction: 0x"@ + hex(seq![kind]),
            IpcError::Malformed(detail) =>
                "the peer sent a control message that is not a JSON object: "@ + detail,
        }
    }
}

fn hex_byte(byte: u8) -> (digits: String)
    ensures
        digits@ == hex(seq![byte]),
{
    let one: [u8; 1] = [byte];
    assert(one@ =~= seq![byte]);
    text::hex_of(&one)
}

impl IpcError {
    /// What went wrong, in words.
    pub fn to_text(&self) -> (words: String)
        ensures
            words@ == self@.words(),
    {
        match self {
            IpcError::UnexpectedEnd => "early eof".to_owned(),
            IpcError::TooLarge(length) => "the peer sent a frame of ".to_owned().concat(
                text::decimal_of(*length as u64).as_str(),
            ).concat(" bytes, beyond the 1048576 limit"),
            IpcError::UnknownFrame(kind) => "the peer sent an unknown frame type 0x".to_owned(
            ).concat(hex_byte(*kind).as_str()),
            IpcError::WrongDirection(kind) =>
                "the peer sent a frame in the wrong direction: 0x".to_owned().concat(
                hex_byte(*kind).as_str(),
            ),
            IpcError::Malformed(detail) =>
                "the peer sent a control message that is not a JSON object: ".to_owned().concat(
                detail.as_str(),
            ),
        }
    }
}

/// What a terminal says to the daemon.
#[derive(Debug, Clone)]
pub enum FromClient<S = String> {
    /// Always the first message on a connection.
    Hello { ipc_version: u32, build: S, pid: u32 },
    /// Exactly once, after the greeting was answered.
    Open {
        local_ref: S,
        label: S,
        cols: u16,
        rows: u16,
        term: S,
        /// The subscriber request that this shell answers, if it answers one. The
        /// daemon owns the relay connection that will carry the answer.
        in_reply_to: Option<S>,
    },
    /// The authoritative size, which only the publisher may declare.
    Resize { cols: u16, rows: u16 },
    Close { reason: S },
    /// Asks a daemon of a different build to stand down so a matching one can start.
    Retire,
    Unrecognised,
}

impl View for FromClient {
    type V = FromClient<Seq<char>>;

    open spec fn view(&self) -> FromClient<Seq<char>> {
        match self {
            FromClient::Hello { ipc_version, build, pid } => FromClient::Hello {
                ipc_version: *ipc_version,
                build: build@,
                pid: *pid,
            },
            FromClient::Open { local_ref, label, cols, rows, term, in_reply_to } =>
                FromClient::Open {
                local_ref: local_ref@,
                label: label@,
                cols: *cols,
                rows: *rows,
                term: term@,
                in_reply_to: option_view(*in_reply_to),
            },
            FromClient::Resize { cols, rows } => FromClient::Resize { cols: *cols, rows: *rows },
            FromClient::Close { reason } => FromClient::Close { reason: reason@ },
            FromClient::Retire => FromClient::Retire,
            FromClient::Unrecognised => FromClient::Unrecognised,
        }
    }
}

/// What the daemon says to a terminal.
#[derive(Debug, Clone)]
pub enum FromDaemon<S = String> {
    HelloOk {
        ipc_version: u32,
        build: S,
        pid: u32,
        /// Attached clients other than this one, which is what decides whether a
        /// mismatched build may ask the daemon to stand down.
        clients: u32,
    },
    /// The relay has the terminal open and its stream continues at `next_offset`.
    Attached {
        terminal_id: S,
        next_offset: u64,
        max_output_frame_bytes: u64,
        max_unacked_output_bytes: u64,
    },
    /// Bytes the relay has committed; everything below this can be forgotten.
    Ack { durable_offset: u64 },
    /// The relay refused a frame and says the stream is here instead.
    Mismatch { next_offset: u64 },
    /// The relay connection is gone. Nothing may be sent until the next attachment.
    Detached,
    /// A size a subscriber would like. Only the terminal's side knows whether a window
    /// is attached, so it decides.
    ResizeRequest { cols: u16, rows: u16 },
    /// This terminal is no longer mirrored. The daemon closes the connection after.
    Ended { reason: S },
    Error { code: S, message: S },
    Unrecognised,
}

impl View for FromDaemon {
    type V = FromDaemon<Seq<char>>;

    open spec fn view(&self) -> FromDaemon<Seq<char>> {
        match self {
            FromDaemon::HelloOk { ipc_version, build, pid, clients } => FromDaemon::HelloOk {
                ipc_version: *ipc_version,
                build: build@,
                pid: *pid,
                clients: *clients,
            },
            FromDaemon::Attached {
                terminal_id,
                next_offset,
                max_output_frame_bytes,
                max_unacked_output_bytes,
            } => FromDaemon::Attached {
                terminal_id: terminal_id@,
                next_offset: *next_offset,
                max_output_frame_bytes: *max_output_frame_bytes,
                max_unacked_output_bytes: *max_unacked_output_bytes,
            },
            FromDaemon::Ack { durable_offset } => FromDaemon::Ack {
                durable_offset: *durable_offset,
            },
            FromDaemon::Mismatch { next_offset } => FromDaemon::Mismatch {
                next_offset: *next_offset,
            },
            FromDaemon::Detached => FromDaemon::Detached,
            FromDaemon::ResizeRequest { cols, rows } => FromDaemon::ResizeRequest {
                cols: *cols,
                rows: *rows,
            },
            FromDaemon::Ended { reason } => FromDaemon::Ended { reason: reason@ },
            FromDaemon::Error { code, message } => FromDaemon::Error {
                code: code@,
                message: message@,
            },
            FromDaemon::Unrecognised => FromDaemon::Unrecognised,
        }
    }
}

/// One decoded frame.
#[derive(Debug, PartialEq)]
pub enum Frame<B = Vec<u8>> {
    Control(B),
    Output { start_offset: u64, bytes: B },
    Input(B),
}

impl View for Frame {
    type V = Frame<Seq<u8>>;

    open spec fn view(&self) -> Frame<Seq<u8>> {
        match self {
            Frame::Control(payload) => Frame::Control(payload@),
            Frame::Output { start_offset, bytes } => Frame::Output {
                start_offset: *start_offset,
                bytes: bytes@,
            },
            Frame::Input(bytes) => Frame::Input(bytes@),
        }
    }
}

/// A frame on the wire. Its length is four bytes wide, so it is written modulo 2^32.
pub open spec fn framed(kind: u8, payload: Seq<u8>) -> Seq<u8> {
    seq![kind] + be32(payload.len() % 0x1_0000_0000) + payload
}

/// The bytes that a frame is written as.
pub open spec fn written(frame: Frame<Seq<u8>>) -> Seq<u8> {
    match frame {
        Frame::Control(payload) => framed(FRAME_CONTROL, payload),
        Frame::Output { start_offset, bytes } => framed(
            FRAME_OUTPUT,
            be64(start_offset as nat) + bytes,
        ),
        Frame::Input(bytes) => framed(FRAME_INPUT, bytes),
    }
}

fn put_frame(kind: u8, payload: &[u8]) -> (out: Vec<u8>)
    ensures
        out@ == framed(kind, payload@),
{
    let mut out: Vec<u8> = Vec::new();
    out.push(kind);
    encoding::put_u32(&mut out, (payload.len() as u64 % 0x1_0000_0000) as u32);
    encoding::put_bytes(&mut out, payload);
    assert(out@ =~= framed(kind, payload@));
    out
}

/// The frame that carries a serialised control message.
pub fn encode_control(message: &[u8]) -> (out: Vec<u8>)
    ensures
        out@ == written(Frame::Control(message@)),
{
    put_frame(FRAME_CONTROL, message)
}

/// The frame that carries terminal output from `start_offset` on.
pub fn encode_output(start_offset: u64, bytes: &[u8]) -> (out: Vec<u8>)
    ensures
        out@ == written(Frame::Output { start_offset, bytes: bytes@ }),
{
    let mut payload: Vec<u8> = Vec::new();
    encoding::put_u64(&mut payload, start_offset);
    encoding::put_bytes(&mut payload, bytes);
    assert(payload@ =~= be64(start_offset as nat) + bytes@);
    put_frame(FRAME_OUTPUT, payload.as_slice())
}

/// The frame that carries keystrokes.
pub fn encode_input(bytes: &[u8]) -> (out: Vec<u8>)
    ensures
        out@ == written(Frame::Input(bytes@)),
{
    put_frame(FRAME_INPUT, bytes)
}

/// What a frame of the given type with the given payload comes to. `expect_output` is
/// true on the daemon's side of a connection and false on the terminal's: a frame
/// travelling the wrong way is a confused peer, and treating it as data would feed
/// keystrokes into an output stream.
pub open spec fn understood(kind: u8, payload: Seq<u8>, expect_output: bool) -> Result<
    Frame<Seq<u8>>,
    IpcError<Seq<char>>,
> {
    if kind == FRAME_CONTROL {
        Ok(Frame::Control(payload))
    } else if kind == FRAME_OUTPUT && expect_output {
        if payload.len() < 8 {
            Err(IpcError::Malformed("an output frame with no offset"@))
        } else {
            Ok(
                Frame::Output {
                    start_offset: be64_value(payload.take(8)) as u64,
                    bytes: payload.skip(8),
                },
            )
        }
    } else if kind == FRAME_INPUT && !expect_output {
        Ok(Frame::Input(payload))
    } else if kind == FRAME_OUTPUT || kind == FRAME_INPUT {
        Err(IpcError::WrongDirection(kind))
    } else {
        Err(IpcError::UnknownFrame(kind))
    }
}

/// A result over views.
pub open spec fn frame_view(result: Result<Frame, IpcError>) -> Result<
    Frame<Seq<u8>>,
    IpcError<Seq<char>>,
> {
    match result {
        Ok(frame) => Ok(frame@),
        Err(error) => Err(error@),
    }
}

/// Checks a frame's length before anything is allocated for it.
pub fn check_length(length: u32) -> (result: Result<usize, IpcError>)
    ensures
        match result {
            Ok(size) => length <= MAX_FRAME_BYTES && size == length,
            Err(error) => length > MAX_FRAME_BYTES && error@ == IpcError::<Seq<char>>::TooLarge(
                length as usize,
            ),
        },
{
    if length as usize > MAX_FRAME_BYTES {
        Err(IpcError::TooLarge(length as usize))
    } else {
        Ok(length as usize)
    }
}

/// Makes sense of a frame that has been read.
pub fn decode_frame(kind: u8, payload: Vec<u8>, expect_output: bool) -> (result: Result<
    Frame,
    IpcError,
>)
    ensures
        frame_view(result) == understood(kind, payload@, expect_output),
{
    if kind == FRAME_CONTROL {
        Ok(Frame::Control(payload))
    } else if kind == FRAME_OUTPUT && expect_output {
        if payload.len() < 8 {
            return Err(IpcError::Malformed("an output frame with no offset".to_owned()));
        }
        let start_offset: u64 = encoding::get_u64(payload.as_slice(), 0);
        let bytes = encoding::copy_of(payload.as_slice(), 8, payload.len());
        assert(payload@.subrange(0, 8) =~= payload@.take(8));
        assert(bytes@ =~= payload@.skip(8));
        Ok(Frame::Output { start_offset, bytes })
    } else if kind == FRAME_INPUT && !expect_output {
        Ok(Frame::Input(payload))
    } else if kind == FRAME_OUTPUT || kind == FRAME_INPUT {
        Err(IpcError::WrongDirection(kind))
    } else {
        Err(IpcError::UnknownFrame(kind))
    }
}

/// What reading a frame off the front of some bytes comes to: the frame and how many
/// bytes it took.
pub open spec fn read_off(bytes: Seq<u8>, expect_output: bool) -> Result<
    (Frame<Seq<u8>>, nat),
    IpcError<Seq<char>>,
> {
    if bytes.len() < 5 {
        Err(IpcError::UnexpectedEnd)
    } else {
        let length = be32_value(bytes.subrange(1, 5));
        if length > MAX_FRAME_BYTES {
            Err(IpcError::TooLarge(length as usize))
        } else if bytes.len() < 5 + length {
            Err(IpcError::UnexpectedEnd)
        } else {
            match understood(bytes[0], bytes.subrange(5, 5 + length as int), expect_output) {
                Ok(frame) => Ok((frame, 5 + length)),
                Err(error) => Err(error),
            }
        }
    }
}

/// Reads one frame off the front of `bytes`, and says how many bytes it took.
pub fn read_frame(bytes: &[u8], expect_output: bool) -> (result: Result<(Frame, usize), IpcError>)
    ensures
        match result {
            Ok((frame, taken)) => read_off(bytes@, expect_output) == Ok::<
                (Frame<Seq<u8>>, nat),
                IpcError<Seq<char>>,
            >((frame@, taken as nat)),
            Err(error) => read_off(bytes@, expect_output) == Err::<
                (Frame<Seq<u8>>, nat),
                IpcError<Seq<char>>,
            >(error@),
        },
{
    if bytes.len() < 5 {
        return Err(IpcError::UnexpectedEnd);
    }
    let kind: u8 = bytes[0];
    let size: usize = match check_length(encoding::get_u32(bytes, 1)) {
        Ok(size) => size,
        Err(error) => return Err(error),
    };
    if bytes.len() - 5 < size {
        return Err(IpcError::UnexpectedEnd);
    }
    let payload = encoding::copy_of(bytes, 5, 5 + size);
    match decode_frame(kind, payload, expect_output) {
        Ok(frame) => Ok((frame, 5 + size)),
        Err(error) => Err(error),
    }
}

/// The payload of a frame on the wire.
pub open spec fn payload_len(frame: Frame<Seq<u8>>) -> nat {
    match frame {
        Frame::Control(payload) => payload.len(),
        Frame::Output { start_offset, bytes } => bytes.len() + 8,
        Frame::Input(bytes) => bytes.len(),
    }
}

/// Frames are read back exactly as written, whatever follows them, by the side that they
/// are meant for; the other side refuses a frame that travels the wrong way.
pub proof fn law_frames_read_back(frame: Frame<Seq<u8>>, rest: Seq<u8>, expect_output: bool)
    requires
        payload_len(frame) <= MAX_FRAME_BYTES,
    ensures
        read_off(written(frame) + rest, expect_output) == (match frame {
            Frame::Output { start_offset, bytes } if !expect_output => Err::<
                (Frame<Seq<u8>>, nat),
                IpcError<Seq<char>>,
            >(IpcError::WrongDirection(FRAME_OUTPUT)),
            Frame::Input(bytes) if expect_output => Err::<
                (Frame<Seq<u8>>, nat),
                IpcError<Seq<char>>,
            >(IpcError::WrongDirection(FRAME_INPUT)),
            _ => Ok::<(Frame<Seq<u8>>, nat), IpcError<Seq<char>>>((frame, written(frame).len())),
        }),
{
    let bytes = written(frame) + rest;
    let payload = match frame {
        Frame::Control(payload) => payload,
        Frame::Output { start_offset, bytes } => be64(start_offset as nat) + bytes,
        Frame::Input(bytes) => bytes,
    };
    let kind = match frame {
        Frame::Control(payload) => FRAME_CONTROL,
        Frame::Output { start_offset, bytes } => FRAME_OUTPUT,
        Frame::Input(bytes) => FRAME_INPUT,
    };
    if let Frame::Output { start_offset, bytes } = frame {
        lemma_be64(start_offset as nat, Seq::empty());
        assert((be64(start_offset as nat) + bytes).take(8) =~= be64(start_offset as nat));
        assert((be64(start_offset as nat) + bytes).skip(8) =~= bytes);
    }
    assert(payload.len() == payload_len(frame));
    lemma_be32(payload.len(), Seq::empty());
    assert(written(frame) == framed(kind, payload));
    assert(bytes.subrange(1, 5) =~= be32(payload.len()));
    assert(bytes.subrange(5, 5 + payload.len() as int) =~= payload);
    assert(bytes[0] == kind);
}

/// What the names of a device's files are derived from. The separator keeps the two
/// parts apart.
pub open spec fn key_input(relay_url: Seq<char>, device_id: Seq<char>) -> Seq<u8> {
    encode_utf8(relay_url) + seq![0u8] + encode_utf8(device_id)
}

/// The name of a device's files.
pub open spec fn key_text(relay_url: Seq<char>, device_id: Seq<char>) -> Seq<char> {
    hex(sha256_digest(key_input(relay_url, device_id)).take(8))
}

/// Names the socket, the lock and the log for one relay and device.
///
/// Per device, not per user: two terminals on one machine can be two different enrolled
/// devices, and a shared socket would publish one device's terminal under the other's
/// identity.
pub fn key(relay_url: &str, device_id: &str) -> (name: String)
    ensures
        name@ == key_text(relay_url@, device_id@),
        name@.len() == 16,
{
    let mut input: Vec<u8> = Vec::new();
    encoding::put_bytes(&mut input, relay_url.as_bytes());
    input.push(0);
    encoding::put_bytes(&mut input, device_id.as_bytes());
    assert(input@ =~= key_input(relay_url@, device_id@));
    let digest = encoding::sha256(input.as_slice());
    let front = encoding::copy_of(&digest, 0, 8);
    assert(front@ =~= digest@.take(8));
    text::hex_of(front.as_slice())
}

/// The key separates devices and relays up to collisions of the digest: what is hashed
/// differs as soon as either part does. An address never holds a zero byte.
pub proof fn law_key_input_is_unambiguous(
    relay_url: Seq<char>,
    device_id: Seq<char>,
    other_url: Seq<char>,
    other_id: Seq<char>,
)
    requires
        !encode_utf8(relay_url).contains(0u8),
        !encode_utf8(other_url).contains(0u8),
        key_input(relay_url, device_id) == key_input(other_url, other_id),
    ensures
        relay_url == other_url,
        device_id == other_id,
{
    let a = encode_utf8(relay_url);
    let b = encode_utf8(other_url);
    let whole = key_input(relay_url, device_id);
    assert(whole[a.len() as int] == 0);
    assert(whole[b.len() as int] == 0);
    if a.len() < b.len() {
        assert(b[a.len() as int] == 0);
    }
    if b.len() < a.len() {
        assert(a[b.len() as int] == 0);
    }
    assert(a =~= whole.take(a.len() as int));
    assert(b =~= whole.take(b.len() as int));
    assert(encode_utf8(device_id) =~= whole.skip(a.len() as int + 1));
    assert(encode_utf8(other_id) =~= whole.skip(b.len() as int + 1));
    text::lemma_same_bytes(relay_url, other_url);
    text::lemma_same_bytes(device_id, other_id);
}

/// The longest socket path. The system's own limit is a little above it; refusing early
/// gives a legible message instead of a bind that truncates or fails obscurely.
pub const MAX_SOCKET_PATH: usize = 100;

/// The files of one daemon.
#[derive(Debug, Clone)]
pub struct Paths {
    pub socket: String,
    pub lock: String,
    pub log: String,
}

impl Paths {
    /// The names of a device's files under a directory.
    pub fn in_dir(dir: &str, relay_url: &str, device_id: &str) -> (paths: Result<Self, String>)
        ensures
            are_files(dir@, key_text(relay_url@, device_id@), paths),
    {
        Paths::named(dir, key(relay_url, device_id).as_str())
    }

    /// The names of the files that a key stands for. The path of the socket must be short
    /// enough for a socket.
    pub fn named(dir: &str, key: &str) -> (paths: Result<Self, String>)
        ensures
            are_files(dir@, key@, paths),
    {
        let name = key.to_owned().concat(".sock");
        let socket = join(System::Unix, dir, name.as_str());
        if socket.as_str().as_bytes().len() > MAX_SOCKET_PATH {
            return Err(
                "the socket path ".to_owned().concat(socket.as_str()).concat(
                    " is too long for a unix socket; set XDG_RUNTIME_DIR to somewhere shorter",
                ),
            );
        }
        let lock_name = key.to_owned().concat(".lock");
        let log_name = key.to_owned().concat(".log");
        Ok(Self { socket, lock: join(System::Unix, dir, lock_name.as_str()), log: join(System::Unix, dir, log_name.as_str()) })
    }
}

/// `paths` are the files that a key stands for under a directory, or the refusal of a
/// socket's path that is too long.
pub open spec fn are_files(dir: Seq<char>, key: Seq<char>, paths: Result<Paths, String>) -> bool {
    let socket = joined(System::Unix, dir, key + ".sock"@);
    match paths {
        Ok(paths) => {
            &&& encode_utf8(socket).len() <= MAX_SOCKET_PATH
            &&& paths.socket@ == socket
            &&& paths.lock@ == joined(System::Unix, dir, key + ".lock"@)
            &&& paths.log@ == joined(System::Unix, dir, key + ".log"@)
        },
        Err(message) => {
            &&& encode_utf8(socket).len() > MAX_SOCKET_PATH
            &&& message@ == "the socket path "@ + socket
                + " is too long for a unix socket; set XDG_RUNTIME_DIR to somewhere shorter"@
        },
    }
}

/// The end of the only directory that is this program's to create.
pub const OWN_DIRECTORY: &'static str = "hypeterm/run";

/// The directory for the socket under a home directory.
pub open spec fn private_home(home: Seq<char>) -> Seq<char> {
    let state = joined(System::Unix, joined(System::Unix, home, ".local"@), "state"@);
    joined(System::Unix, joined(System::Unix, state, "hypeterm"@), "run"@)
}

/// Where a private directory for the socket may be, in order of preference.
pub open spec fn candidates(xdg: Option<Seq<char>>, uid: u32, home: Option<Seq<char>>) -> Seq<
    Seq<char>,
> {
    let explicit = if xdg is Some && trimmed(xdg->0).len() > 0 {
        seq![xdg->0]
    } else {
        Seq::empty()
    };
    let own = match home {
        Some(home) => seq![
            private_home(home),
        ],
        None => Seq::empty(),
    };
    explicit + seq!["/run/user/"@ + decimal(uid as nat)] + own
}

/// Where a private directory for the socket may be, in order of preference.
///
/// Never a shared temporary directory: another local user can create a path there first.
/// Never the configuration directory: it gets synced and backed up.
pub fn runtime_candidates(xdg: &Option<String>, uid: u32, home: &Option<String>) -> (list: Vec<
    String,
>)
    ensures
        text::texts(list@) == candidates(option_view(*xdg), uid, option_view(*home)),
{
    let mut list: Vec<String> = Vec::new();
    match xdg {
        Some(explicit) => {
            if text::trim(explicit.as_str()).as_str().as_bytes().len() > 0 {
                list.push(explicit.as_str().to_owned());
            }
            proof {
                lemma_empty_bytes(trimmed(explicit@));
            }
        },
        None => {},
    }
    let ghost explicit = if option_view(*xdg) is Some && trimmed(option_view(*xdg)->0).len() > 0 {
        seq![option_view(*xdg)->0]
    } else {
        Seq::empty()
    };
    assert(text::texts(list@) =~= explicit);
    let system = "/run/user/".to_owned().concat(text::decimal_of(uid as u64).as_str());
    list.push(system);
    assert(text::texts(list@) =~= explicit + seq![system@]);
    match home {
        Some(home) => {
            let path = join(System::Unix, home.as_str(), ".local");
            let path = join(System::Unix, path.as_str(), "state");
            let path = join(System::Unix, path.as_str(), "hypeterm");
            let path = join(System::Unix, path.as_str(), "run");
            list.push(path);
            assert(text::texts(list@) =~= explicit + seq![system@] + seq![path@]);
        },
        None => {},
    }
    assert(text::texts(list@) =~= candidates(option_view(*xdg), uid, option_view(*home)));
    list
}

proof fn lemma_empty_bytes(text: Seq<char>)
    ensures
        encode_utf8(text).len() == 0 <==> text.len() == 0,
{
    if encode_utf8(text).len() == 0 {
        assert(encode_utf8(text) =~= encode_utf8(Seq::<char>::empty()));
        text::lemma_same_bytes(text, Seq::empty());
    }
}

/// What is to be done about a candidate directory.
#[derive(Debug, Clone, Copy, PartialEq, Eq, Structural)]
pub enum Consider {
    /// It is not there and not ours to create.
    Skip,
    /// Create it, private to the user, and look at it then.
    Create,
    /// It is there: look at it.
    Inspect,
}

/// A path ends with the components of [`OWN_DIRECTORY`].
pub open spec fn is_own(path: Seq<char>) -> bool {
    path == OWN_DIRECTORY@ || ends_with(path, "/"@ + OWN_DIRECTORY@)
}

/// `text` ends with `suffix`.
pub open spec fn ends_with(text: Seq<char>, suffix: Seq<char>) -> bool {
    suffix.len() <= text.len() && text.skip(text.len() - suffix.len()) == suffix
}

/// Whether to look at a candidate, create it or leave it. Only the program's own
/// directory is its to create; the others belong to the system, and their absence means
/// that this is not that kind of system.
pub fn consider(path: &str, exists: bool) -> (plan: Consider)
    ensures
        plan == (if exists {
            Consider::Inspect
        } else if is_own(path@) {
            Consider::Create
        } else {
            Consider::Skip
        }),
{
    if exists {
        return Consider::Inspect;
    }
    if text::same(path, OWN_DIRECTORY) {
        return Consider::Create;
    }
    let suffix = "/".to_owned().concat(OWN_DIRECTORY);
    let list = text::characters(path);
    let tail = text::characters(suffix.as_str());
    if list.len() < tail.len() {
        return Consider::Skip;
    }
    let end = text::string_of(&list, list.len() - tail.len(), list.len());
    assert(end@ =~= path@.skip(path@.len() - suffix@.len()));
    if text::same(end.as_str(), suffix.as_str()) {
        Consider::Create
    } else {
        Consider::Skip
    }
}

/// What is wrong with a directory that the socket may not live in, if anything is.
pub open spec fn directory_fault(
    path: Seq<char>,
    is_dir: bool,
    owner: u32,
    user: u32,
    mode: u32,
) -> Option<Seq<char>> {
    if !is_dir {
        Some(path + " is not a directory"@)
    } else if owner != user {
        Some(path + " is not owned by this user"@)
    } else if mode % 64 != 0 {
        Some(path + " is accessible to other users; fix with: chmod 700 "@ + path)
    } else {
        None
    }
}

/// Checks that a directory is this user's and nobody else's. `mode` is the permission
/// bits of the directory itself, not of whatever a link there points to: nobody but the
/// owner may have any.
pub fn private_directory(path: &str, is_dir: bool, owner: u32, user: u32, mode: u32) -> (result:
    Result<(), String>)
    ensures
        match result {
            Ok(()) => directory_fault(path@, is_dir, owner, user, mode) is None,
            Err(fault) => directory_fault(path@, is_dir, owner, user, mode) == Some(fault@),
        },
{
    if !is_dir {
        return Err(path.to_owned().concat(" is not a directory"));
    }
    if owner != user {
        return Err(path.to_owned().concat(" is not owned by this user"));
    }
    if mode % 64 != 0 {
        return Err(
            path.to_owned().concat(" is accessible to other users; fix with: chmod 700 ").concat(
                path,
            ),
        );
    }
    Ok(())
}

/// A private directory is one that no group and no other user has any permission on.
pub proof fn law_private_mode(mode: u32)
    ensures
        mode % 64 == 0 <==> mode & 0o077 == 0,
{
    assert(mode % 64 == 0 <==> mode & 0o077 == 0) by (bit_vector);
}

/// What to say when no candidate was usable; `last` is what was wrong with the last one
/// that was looked at.
pub fn no_runtime_dir(last: &Option<String>) -> (message: String)
    ensures
        message@ == "no private runtime directory is available: "@ + (match option_view(*last) {
            Some(last) => last,
            None => "no candidate directory"@,
        }),
{
    let message = "no private runtime directory is available: ".to_owned();
    match last {
        Some(last) => message.concat(last.as_str()),
        None => message.concat("no candidate directory"),
    }
}

} // verus!
