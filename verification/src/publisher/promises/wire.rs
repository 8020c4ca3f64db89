//! What can be counted on of what crosses a wire, and of where the local wire lies.

use crate::encoding::{be64, lemma_be64, sha256_digest};
use crate::ids::{be128, lemma_be128, Uuid};
use crate::paths::{joined, System};
use crate::publisher::ipc::{
    check_length, consider, encode_control, encode_input, encode_output, key, law_frames_read_back,
    private_directory, read_frame, runtime_candidates, Consider, Frame, IpcError, Paths,
};
use crate::publisher::protocol::{
    decode_input_frame, encode_output_frame, frame_bytes, law_frames_round_trip, FrameError,
    InputFrame,
};
use crate::text::{decimal, hex, texts, trimmed};
use vstd::prelude::*;
use vstd::utf8::encode_utf8;

verus! {

/// Output for the relay is the kind, the terminal's ID, the offset and the bytes, in that
/// order and without anything between them.
pub proof fn law_output_is_framed_for_its_terminal(
    terminal: Uuid,
    offset: u64,
    payload: &[u8],
    frame: Vec<u8>,
)
    requires
        call_ensures(encode_output_frame, (terminal, offset, payload), frame),
    ensures
        frame@.len() == 25 + payload@.len(),
        frame@[0] == 1,
        frame@.subrange(1, 17) == be128(terminal.value as nat),
        frame@.subrange(17, 25) == be64(offset as nat),
        frame@.skip(25) == payload@,
{
    lemma_be128(terminal.value, Seq::empty());
    lemma_be64(offset as nat, Seq::empty());
    assert(frame@.subrange(1, 17) =~= be128(terminal.value as nat));
    assert(frame@.subrange(17, 25) =~= be64(offset as nat));
    assert(frame@.skip(25) =~= payload@);
}

/// Input from the relay is read as what was sent: the terminal that it is for, its number
/// and the keystrokes. What is shorter than its header, or of another kind, is none.
pub proof fn law_input_is_read_for_its_terminal(
    terminal: Uuid,
    number: u64,
    payload: Seq<u8>,
    sent: &[u8],
    other: &[u8],
    frame: Result<InputFrame, FrameError>,
    refused: Result<InputFrame, FrameError>,
)
    requires
        sent@ == seq![2u8] + be128(terminal.value as nat) + be64(number as nat) + payload,
        call_ensures(decode_input_frame, (sent,), frame),
        call_ensures(decode_input_frame, (other,), refused),
    ensures
        frame matches Ok(read) && read.terminal_id == terminal && read.relay_sequence == number
            && read.payload@ == payload,
        refused is Ok <==> other@.len() >= 25 && other@[0] == 2,
        other@.len() < 25 ==> refused == Err::<InputFrame, FrameError>(FrameError::TooShort),
        other@.len() >= 25 && other@[0] != 2 ==> refused == Err::<InputFrame, FrameError>(
            FrameError::UnknownType(other@[0]),
        ),
{
    law_frames_round_trip(2, 1, terminal, number, payload);
    assert(sent@ == frame_bytes(2, terminal, number, payload));
    if let Ok(read) = frame {
        let shown = read@;
    }
}

/// What a terminal and the daemon say to each other is read as what was said, whatever
/// follows it.
pub proof fn law_local_frames_are_read_as_written(
    offset: u64,
    bytes: &[u8],
    output: Vec<u8>,
    input: Vec<u8>,
    control: Vec<u8>,
    rest: Seq<u8>,
    wire: &[u8],
    side: bool,
    result: Result<(Frame, usize), IpcError>,
)
    requires
        bytes@.len() + 8 <= 1_048_576,
        call_ensures(encode_output, (offset, bytes), output),
        call_ensures(encode_input, (bytes,), input),
        call_ensures(encode_control, (bytes,), control),
        call_ensures(read_frame, (wire, side), result),
    ensures
        output@[0] == 2 && input@[0] == 3 && control@[0] == 1,
        output@.len() == bytes@.len() + 13,
        input@.len() == bytes@.len() + 5,
        control@.len() == bytes@.len() + 5,
        wire@ == output@ + rest && side ==> (result matches Ok(
            (Frame::Output { start_offset, bytes: read }, taken),
        ) && start_offset == offset && read@ == bytes@ && taken == output@.len()),
        wire@ == input@ + rest && !side ==> (result matches Ok((Frame::Input(read), taken)) && read@
            == bytes@ && taken == input@.len()),
        wire@ == control@ + rest ==> (result matches Ok((Frame::Control(read), taken)) && read@
            == bytes@ && taken == control@.len()),
        wire@ == output@ + rest && !side ==> (result matches Err(IpcError::WrongDirection(2))),
        wire@ == input@ + rest && side ==> (result matches Err(IpcError::WrongDirection(3))),
        wire@.len() < 5 ==> (result matches Err(IpcError::UnexpectedEnd)),
{
    lemma_be64(offset as nat, Seq::empty());
    crate::encoding::lemma_be32(bytes@.len(), Seq::empty());
    crate::encoding::lemma_be32(bytes@.len() + 8, Seq::empty());
    law_frames_read_back(Frame::Output { start_offset: offset, bytes: bytes@ }, rest, side);
    law_frames_read_back(Frame::Input(bytes@), rest, side);
    law_frames_read_back(Frame::Control(bytes@), rest, side);
    if let Ok((frame, taken)) = result {
        let shown = frame@;
    }
    if let Err(error) = result {
        let shown = error@;
    }
}

/// A frame is refused for its size if and only if it is over a mebibyte.
pub proof fn law_frames_are_bounded(length: u32, result: Result<usize, IpcError>)
    requires
        call_ensures(check_length, (length,), result),
    ensures
        result is Ok <==> length <= 1_048_576,
        result is Ok ==> result->Ok_0 == length,
{
}

/// The daemon's files lie in one directory, under a name that stands for the relay and the
/// device, and the socket's path is short enough for a socket.
pub proof fn law_the_daemon_has_its_files(
    dir: &str,
    relay: &str,
    device: &str,
    name: String,
    paths: Result<Paths, String>,
)
    requires
        call_ensures(key, (relay, device), name),
        call_ensures(Paths::in_dir, (dir, relay, device), paths),
    ensures
        name@ == hex(
            sha256_digest(encode_utf8(relay@) + seq![0u8] + encode_utf8(device@)).take(8),
        ),
        paths is Ok <==> encode_utf8(joined(System::Unix, dir@, name@ + ".sock"@)).len() <= 100,
        (paths matches Ok(paths) ==> {
            &&& paths.socket@ == joined(System::Unix, dir@, name@ + ".sock"@)
            &&& paths.lock@ == joined(System::Unix, dir@, name@ + ".lock"@)
            &&& paths.log@ == joined(System::Unix, dir@, name@ + ".log"@)
        }),
{
}

/// The daemon's directory is looked for where the session says, where the system keeps such
/// things, and at home, in that order.
pub proof fn law_directories_are_tried_in_turn(
    xdg: Option<String>,
    uid: u32,
    home: Option<String>,
    list: Vec<String>,
)
    requires
        call_ensures(runtime_candidates, (&xdg, uid, &home), list),
    ensures
        ({
            let explicit: int = if xdg is Some && trimmed((xdg->0)@).len() > 0 {
                1
            } else {
                0
            };
            let own: int = if home is Some {
                1
            } else {
                0
            };
            &&& list@.len() == explicit + 1 + own
            &&& explicit == 1 ==> list@[0]@ == (xdg->0)@
            &&& list@[explicit]@ == "/run/user/"@ + decimal(uid as nat)
            &&& own == 1 ==> list@[explicit + 1]@ == joined(
                System::Unix,
                joined(
                    System::Unix,
                    joined(
                        System::Unix,
                        joined(System::Unix, (home->0)@, ".local"@),
                        "state"@,
                    ),
                    "hypeterm"@,
                ),
                "run"@,
            )
        }),
{
    let all = texts(list@);
    assert(all.len() == list@.len());
    assert forall|i: int| 0 <= i < list@.len() implies all[i] == (#[trigger] list@[i])@ by {}
}

/// A directory that is there is looked at, and one that is not is made only if it is the
/// program's own.
pub proof fn law_only_own_directories_are_made(path: &str, exists: bool, plan: Consider)
    requires
        call_ensures(consider, (path, exists), plan),
    ensures
        exists <==> plan == Consider::Inspect,
        !exists && path@ == "hypeterm/run"@ ==> plan == Consider::Create,
        plan == Consider::Create ==> path@.len() >= "hypeterm/run"@.len() && path@.skip(
            path@.len() - "hypeterm/run"@.len(),
        ) == "hypeterm/run"@,
{
    reveal_strlit("/");
    let own = "hypeterm/run"@;
    if plan == Consider::Create && path@ != own {
        let suffix = "/"@ + own;
        let back = path@.skip(path@.len() - suffix.len());
        assert(path@.skip(path@.len() - own.len()) =~= back.skip(1));
        assert(suffix.skip(1) =~= own);
    } else if plan == Consider::Create {
        assert(path@.skip(0) =~= path@);
    }
}

/// A directory is used if and only if it is one, is this user's, and is closed to everyone
/// else.
pub proof fn law_directories_are_private(
    path: &str,
    is_dir: bool,
    owner: u32,
    user: u32,
    mode: u32,
    result: Result<(), String>,
)
    requires
        call_ensures(private_directory, (path, is_dir, owner, user, mode), result),
    ensures
        result is Ok <==> is_dir && owner == user && mode & 0o077 == 0,
{
    crate::publisher::ipc::law_private_mode(mode);
}

} // verus!
