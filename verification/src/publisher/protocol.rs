//! The publisher side of the relay's WebSocket protocol.
//!
//! Frame layouts are asymmetric and easy to confuse: a publisher frame carries the
//! terminal's identifier, because one connection multiplexes many terminals, while a
//! mirror frame does not.

use crate::encoding;
use crate::encoding::{be64, be64_value, lemma_be64};
use crate::ids::{be128, be128_value, lemma_be128, Uuid};
use crate::text;
use crate::text::{hex, option_view};
use vstd::prelude::*;

verus! {

pub const SUBPROTOCOL_V2: &'static str = "terminal-relay.publisher.v2";

pub const FRAME_TYPE_OUTPUT: u8 = 0x01;

pub const FRAME_TYPE_INPUT: u8 = 0x02;

/// `0x01 | terminal (16) | expected start offset (u64 BE) | payload`.
pub const PUBLISHER_HEADER_LEN: usize = 25;

/// `0x02 | terminal (16) | relay sequence (u64 BE) | payload`.
pub const PUBLISHER_INPUT_HEADER_LEN: usize = 25;

/// A binary frame of the given type.
pub open spec fn frame_bytes(kind: u8, terminal: Uuid, number: u64, payload: Seq<u8>) -> Seq<u8> {
    seq![kind] + be128(terminal.value as nat) + be64(number as nat) + payload
}

/// The frame that carries `payload` from `expected_offset` on.
pub fn encode_output_frame(terminal_id: Uuid, expected_offset: u64, payload: &[u8]) -> (frame: Vec<
    u8,
>)
    ensures
        frame@ == frame_bytes(FRAME_TYPE_OUTPUT, terminal_id, expected_offset, payload@),
{
    let mut out: Vec<u8> = Vec::new();
    out.push(FRAME_TYPE_OUTPUT);
    encoding::put_bytes(&mut out, terminal_id.as_bytes().as_slice());
    encoding::put_u64(&mut out, expected_offset);
    encoding::put_bytes(&mut out, payload);
    assert(out@ =~= frame_bytes(FRAME_TYPE_OUTPUT, terminal_id, expected_offset, payload@));
    out
}

/// Keystrokes for one terminal.
#[derive(Debug, PartialEq, Eq)]
pub struct InputFrame<B = Vec<u8>> {
    pub terminal_id: Uuid,
    /// Per-terminal relay sequence. Lets a publisher notice loss across a reconnect; it
    /// is not durable and resets when the terminal is opened again.
    pub relay_sequence: u64,
    pub payload: B,
}

impl View for InputFrame {
    type V = InputFrame<Seq<u8>>;

    open spec fn view(&self) -> InputFrame<Seq<u8>> {
        InputFrame {
            terminal_id: self.terminal_id,
            relay_sequence: self.relay_sequence,
            payload: self.payload@,
        }
    }
}

/// Why a binary frame was not understood.
#[derive(Debug, Clone, Copy, PartialEq, Eq, Structural)]
pub enum FrameError {
    TooShort,
    UnknownType(u8),
}

impl FrameError {
    /// What went wrong, in words.
    pub open spec fn words(self) -> Seq<char> {
        match self {
            FrameError::TooShort => "binary frame is shorter than its header"@,
            FrameError::UnknownType(kind) => "unknown binary frame type 0x"@ + hex(seq![kind]),
        }
    }

    /// What went wrong, in words.
    pub fn to_text(&self) -> (text: String)
        ensures
            text@ == self.words(),
    {
        match self {
            FrameError::TooShort => "binary frame is shorter than its header".to_owned(),
            FrameError::UnknownType(kind) => {
                let one: [u8; 1] = [*kind];
                assert(one@ =~= seq![*kind]);
                "unknown binary frame type 0x".to_owned().concat(text::hex_of(&one).as_str())
            },
        }
    }
}

/// What decoding a frame of type `kind` comes to.
pub open spec fn decoded_frame(kind: u8, bytes: Seq<u8>) -> Result<
    InputFrame<Seq<u8>>,
    FrameError,
> {
    if bytes.len() < PUBLISHER_INPUT_HEADER_LEN {
        Err(FrameError::TooShort)
    } else if bytes[0] != kind {
        Err(FrameError::UnknownType(bytes[0]))
    } else {
        Ok(
            InputFrame {
                terminal_id: Uuid { value: be128_value(bytes.subrange(1, 17)) as u128 },
                relay_sequence: be64_value(bytes.subrange(17, 25)) as u64,
                payload: bytes.skip(25),
            },
        )
    }
}

pub fn decode_input_frame(bytes: &[u8]) -> (frame: Result<InputFrame, FrameError>)
    ensures
        match frame {
            Ok(frame) => decoded_frame(FRAME_TYPE_INPUT, bytes@) == Ok::<
                InputFrame<Seq<u8>>,
                FrameError,
            >(frame@),
            Err(error) => decoded_frame(FRAME_TYPE_INPUT, bytes@) == Err::<
                InputFrame<Seq<u8>>,
                FrameError,
            >(error),
        },
{
    if bytes.len() < PUBLISHER_INPUT_HEADER_LEN {
        return Err(FrameError::TooShort);
    }
    if bytes[0] != FRAME_TYPE_INPUT {
        return Err(FrameError::UnknownType(bytes[0]));
    }
    let payload = encoding::copy_of(bytes, PUBLISHER_INPUT_HEADER_LEN, bytes.len());
    assert(payload@ =~= bytes@.skip(25));
    Ok(
        InputFrame {
            terminal_id: Uuid::from_bytes_at(bytes, 1),
            relay_sequence: encoding::get_u64(bytes, 17),
            payload,
        },
    )
}

/// Decoding undoes encoding, for every terminal, number and payload, and a frame is
/// only ever read as the type it was written as.
pub proof fn law_frames_round_trip(kind: u8, other: u8, terminal: Uuid, number: u64, payload: Seq<u8>)
    ensures
        decoded_frame(kind, frame_bytes(kind, terminal, number, payload)) == Ok::<
            InputFrame<Seq<u8>>,
            FrameError,
        >(InputFrame { terminal_id: terminal, relay_sequence: number, payload }),
        other != kind ==> decoded_frame(other, frame_bytes(kind, terminal, number, payload))
            == Err::<InputFrame<Seq<u8>>, FrameError>(FrameError::UnknownType(kind)),
{
    let bytes = frame_bytes(kind, terminal, number, payload);
    lemma_be128(terminal.value, Seq::empty());
    lemma_be64(number as nat, Seq::empty());
    assert(bytes.subrange(1, 17) =~= be128(terminal.value as nat));
    assert(bytes.subrange(17, 25) =~= be64(number as nat));
    assert(bytes.skip(25) =~= payload);
}

/// What the relay allows on one connection.
#[derive(Debug, Clone, Copy, PartialEq, Eq, Structural)]
pub struct Limits {
    pub max_output_frame_bytes: u64,
    pub max_unacked_output_bytes: u64,
    /// Zero where the relay names no limit.
    pub max_active_terminals: u64,
    pub heartbeat_interval_seconds: u64,
    pub heartbeat_timeout_seconds: u64,
    pub max_input_frame_bytes: Option<u64>,
}

/// Messages the relay sends a publisher.
///
/// Unknown types are kept apart rather than rejected: the relay may add messages, and a
/// publisher that fell over on an unrecognised one would break on every upgrade.
#[derive(Debug)]
pub enum ServerMessage<S = String> {
    Ready { connection_id: S, limits: Limits },
    TerminalOpened {
        request_id: S,
        terminal_id: Uuid,
        next_offset: u64,
        durable_offset: u64,
        accepts_input: bool,
    },
    OutputAck { terminal_id: Uuid, durable_offset: u64, next_offset: u64 },
    /// A subscriber asked this machine to open a terminal. It carries no command,
    /// environment or working directory: the machine decides all of that.
    TerminalOpenRequest {
        request_id: S,
        label: Option<S>,
        cols: Option<u32>,
        rows: Option<u32>,
    },
    /// A subscriber asked for a size. The publisher owns the terminal and decides.
    TerminalResizeRequest { terminal_id: Uuid, cols: u32, rows: u32 },
    TerminalClosed { terminal_id: Uuid, reason: S },
    Notice { code: S, message: S },
    Error {
        code: S,
        message: S,
        terminal_id: Option<Uuid>,
        request_id: Option<S>,
        /// Present on `offset_mismatch`: the authority on where to resume.
        next_offset: Option<u64>,
        durable_offset: Option<u64>,
    },
    Ping { at_unix_ms: i64 },
    Unrecognised,
}

impl View for ServerMessage {
    type V = ServerMessage<Seq<char>>;

    open spec fn view(&self) -> ServerMessage<Seq<char>> {
        match self {
            ServerMessage::Ready { connection_id, limits } => ServerMessage::Ready {
                connection_id: connection_id@,
                limits: *limits,
            },
            ServerMessage::TerminalOpened {
                request_id,
                terminal_id,
                next_offset,
                durable_offset,
                accepts_input,
            } => ServerMessage::TerminalOpened {
                request_id: request_id@,
                terminal_id: *terminal_id,
                next_offset: *next_offset,
                durable_offset: *durable_offset,
                accepts_input: *accepts_input,
            },
            ServerMessage::OutputAck { terminal_id, durable_offset, next_offset } =>
                ServerMessage::OutputAck {
                terminal_id: *terminal_id,
                durable_offset: *durable_offset,
                next_offset: *next_offset,
            },
            ServerMessage::TerminalOpenRequest { request_id, label, cols, rows } =>
                ServerMessage::TerminalOpenRequest {
                request_id: request_id@,
                label: option_view(*label),
                cols: *cols,
                rows: *rows,
            },
            ServerMessage::TerminalResizeRequest { terminal_id, cols, rows } =>
                ServerMessage::TerminalResizeRequest {
                terminal_id: *terminal_id,
                cols: *cols,
                rows: *rows,
            },
            ServerMessage::TerminalClosed { terminal_id, reason } =>
                ServerMessage::TerminalClosed { terminal_id: *terminal_id, reason: reason@ },
            ServerMessage::Notice { code, message } => ServerMessage::Notice {
                code: code@,
                message: message@,
            },
            ServerMessage::Error {
                code,
                message,
                terminal_id,
                request_id,
                next_offset,
                durable_offset,
            } => ServerMessage::Error {
                code: code@,
                message: message@,
                terminal_id: *terminal_id,
                request_id: option_view(*request_id),
                next_offset: *next_offset,
                durable_offset: *durable_offset,
            },
            ServerMessage::Ping { at_unix_ms } => ServerMessage::Ping { at_unix_ms: *at_unix_ms },
            ServerMessage::Unrecognised => ServerMessage::Unrecognised,
        }
    }
}

} // verus!
