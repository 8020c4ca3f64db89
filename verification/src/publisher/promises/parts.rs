//! What can be counted on of the smaller steps of publishing.

use crate::ed25519::{ed25519_accepts, ed25519_public_key, ed25519_signature};
use crate::encoding::base64url;
use crate::ids::Uuid;
use crate::publisher::api::{check_fields, ApiError};
use crate::paths::{joined, System};
use crate::publisher::cli::{padded_left, padded_right, pair_failure, size_text};
use crate::publisher::crypto::{KeyPair, VerifyingKey};
use crate::publisher::daemon::{log_path, quoted_list};
use crate::publisher::ipc::{decode_frame, no_runtime_dir, Frame, IpcError, Paths};
use crate::publisher::protocol::FrameError;
use crate::publisher::session::routing::{is_known_as, is_unknown};
use crate::publisher::session::{
    actions_view, index_of_id, lemma_index_of_id, websocket_url, Action, Event, Multiplexer,
};
use crate::publisher::state::default_path;
use crate::publisher::stream::Retained;
use crate::text::{decimal, hex, quoted_text, spaced, texts};
use vstd::prelude::*;

verus! {

/// A key pair is its seed: it reads back from it, and its public key, its signatures and
/// what it accepts follow from it.
pub proof fn law_key_pairs_are_their_seed(
    seed: &[u8],
    pair: Option<KeyPair>,
    message: &[u8],
    signature: &[u8],
    raw: [u8; 32],
    public: String,
    signed: String,
    key: VerifyingKey,
    accepted: bool,
)
    requires
        call_ensures(KeyPair::from_seed, (seed,), pair),
        pair is Some ==> {
            &&& call_ensures(KeyPair::seed, (&pair->0,), raw)
            &&& call_ensures(KeyPair::public_key_base64, (&pair->0,), public)
            &&& call_ensures(KeyPair::sign, (&pair->0, message), signed)
            &&& call_ensures(KeyPair::verifying_key, (&pair->0,), key)
            &&& call_ensures(VerifyingKey::verify_strict, (&key, message, signature), accepted)
        },
    ensures
        pair is Some <==> seed@.len() == 32,
        pair is Some ==> {
            &&& raw@ == seed@
            &&& public@ == base64url(ed25519_public_key(seed@))
            &&& signed@ == base64url(ed25519_signature(seed@, message@))
            &&& accepted <==> signature@.len() == 64 && ed25519_accepts(
                ed25519_public_key(seed@),
                message@,
                signature@,
            )
        },
{
}

/// The fields of a challenge are good if and only if they are those of this protocol, for
/// this operation, this key and this owner.
pub proof fn law_fields_are_checked(
    fields: Vec<String>,
    fingerprint: &str,
    operation: &str,
    owner: Option<String>,
    result: Result<(), ApiError>,
)
    requires
        call_ensures(check_fields, (&fields, fingerprint, operation, &owner), result),
    ensures
        result is Ok <==> {
            &&& fields@.len() == 9
            &&& fields@[0]@ == "terminal-relay-challenge-v1"@
            &&& fields@[4]@ == operation@
            &&& fields@[5]@ == fingerprint@
            &&& owner is Some ==> fields@[6]@ == (owner->0)@
        },
{
    let list = texts(fields@);
    assert(list.len() == fields@.len());
    if fields@.len() == 9 {
        assert(list[0] == fields@[0]@);
        assert(list[4] == fields@[4]@);
        assert(list[5] == fields@[5]@);
        assert(list[6] == fields@[6]@);
    }
}

/// Each kind of frame is understood as what it is where it may come, and refused where it
/// may not.
pub proof fn law_frames_are_understood_by_kind(
    kind: u8,
    payload: Vec<u8>,
    output: bool,
    result: Result<Frame, IpcError>,
)
    requires
        call_ensures(decode_frame, (kind, payload, output), result),
    ensures
        kind == 1 ==> (result matches Ok(Frame::Control(bytes)) && bytes@ == payload@),
        kind == 3 && !output ==> (result matches Ok(Frame::Input(bytes)) && bytes@ == payload@),
        kind == 3 && output ==> (result matches Err(IpcError::WrongDirection(3))),
        kind == 2 && !output ==> (result matches Err(IpcError::WrongDirection(2))),
        kind == 2 && output && payload@.len() < 8 ==> (result matches Err(IpcError::Malformed(_))),
        kind == 2 && output && payload@.len() >= 8 ==> (result matches Ok(
            Frame::Output { start_offset, bytes },
        ) && bytes@ == payload@.skip(8)),
        kind != 1 && kind != 2 && kind != 3 ==> (result matches Err(IpcError::UnknownFrame(told))
            && told == kind),
{
    if let Ok(frame) = result {
        let shown = frame@;
    }
    if let Err(error) = result {
        let shown = error@;
    }
}

/// What is wrong with a frame is told with what is known of it.
pub proof fn law_frame_errors_are_told(
    local: IpcError,
    words: String,
    remote: FrameError,
    told: String,
)
    requires
        call_ensures(IpcError::to_text, (&local,), words),
        call_ensures(FrameError::to_text, (&remote,), told),
    ensures
        (local matches IpcError::TooLarge(length) ==> words@ == "the peer sent a frame of "@
            + decimal(length as nat) + " bytes, beyond the 1048576 limit"@),
        (local matches IpcError::UnknownFrame(kind) ==> words@
            == "the peer sent an unknown frame type 0x"@ + hex(seq![kind])),
        (local matches IpcError::WrongDirection(kind) ==> words@
            == "the peer sent a frame in the wrong direction: 0x"@ + hex(seq![kind])),
        (local matches IpcError::Malformed(detail) ==> words@
            == "the peer sent a control message that is not a JSON object: "@ + detail@),
        local is UnexpectedEnd ==> words@ == "early eof"@,
        remote == FrameError::TooShort ==> told@ == "binary frame is shorter than its header"@,
        (remote matches FrameError::UnknownType(kind) ==> told@
            == "unknown binary frame type 0x"@ + hex(seq![kind])),
{
    let shown = local@;
}

/// The relay's socket is found under its address and the device, and is as secure as the
/// address.
pub proof fn law_the_socket_is_found(host: Seq<char>, base: &str, device: &str, url: String)
    requires
        host.len() > 0,
        host.last() != '/',
        call_ensures(websocket_url, (base, device), url),
    ensures
        base@ == "https://"@ + host ==> url@ == "wss://"@ + host + "/v1/devices/"@ + device@
            + "/relay"@,
        base@ == "http://"@ + host ==> url@ == "ws://"@ + host + "/v1/devices/"@ + device@
            + "/relay"@,
{
    reveal_strlit("https://");
    reveal_strlit("http://");
    let secure = "https://"@ + host;
    let plain = "http://"@ + host;
    assert(secure.last() == host.last());
    assert(plain.last() == host.last());
    assert(secure.take("https://"@.len() as int) =~= "https://"@);
    assert(secure.skip("https://"@.len() as int) =~= host);
    assert(plain.take("http://"@.len() as int) =~= "http://"@);
    assert(plain.skip("http://"@.len() as int) =~= host);
    if base@ == plain && plain.len() >= 8 {
        assert(plain[4] == ':');
        assert(plain.take("https://"@.len() as int)[4] == ':');
        assert("https://"@[4] == 's');
    }
}

/// What is for a terminal goes to its owner, and to nobody where there is none.
pub proof fn law_events_go_to_their_owner(
    mux: Multiplexer,
    i: int,
    terminal_id: Uuid,
    event: Event,
    actions: Vec<Action>,
)
    requires
        call_ensures(Multiplexer::deliver_to, (&mux, terminal_id, event), actions),
    ensures
        is_known_as(mux@, i, terminal_id) ==> actions@.len() == 1 && (
        actions@[0] matches Action::Deliver { local_ref, event: sent } && local_ref@
            == mux@.terminals[i].local_ref && sent@ == event@),
        is_unknown(mux@, terminal_id) ==> actions@.len() == 0,
{
    lemma_index_of_id(mux@.terminals, terminal_id);
    let list = actions_view(actions@);
    assert(list.len() == actions@.len());
    if is_known_as(mux@, i, terminal_id) {
        assert(mux@.terminals[i].terminal_id == Some(terminal_id));
        assert(index_of_id(mux@.terminals, terminal_id) == Some(i));
        assert(list[0] == actions@[0]@);
    }
}

/// What is retained grows at its end, is released from its beginning, and is read from
/// wherever it reaches.
pub proof fn law_retained_bytes_stay_in_place(
    chunk: &[u8],
    durable: u64,
    offset: u64,
    kept: Retained,
    start: u64,
    end: u64,
    suffix: Option<Vec<u8>>,
)
    requires
        kept.wf(),
        call_ensures(Retained::start, (&kept,), start),
        call_ensures(Retained::end, (&kept,), end),
        call_ensures(Retained::from, (&kept, offset), suffix),
    ensures
        end - start == kept@.bytes.len(),
        suffix is Some <==> start <= offset <= end,
        suffix is Some ==> (suffix->0)@ == kept@.bytes.skip(offset - start),
        forall|r: &mut Retained| #[trigger]
            call_ensures(Retained::append, (r, chunk), ()) && r.wf() && r@.start + r@.bytes.len()
                + chunk@.len() <= u64::MAX ==> final(r)@.start == r@.start && final(r)@.bytes
                == r@.bytes + chunk@,
        forall|r: &mut Retained| #[trigger]
            call_ensures(Retained::release_through, (r, durable), ()) && r.wf() ==> {
                &&& final(r)@.start + final(r)@.bytes.len() == r@.start + r@.bytes.len()
                &&& durable <= r@.start ==> final(r)@ == r@
                &&& r@.start <= durable <= r@.start + r@.bytes.len() ==> final(r)@.start == durable
                &&& durable > r@.start + r@.bytes.len() ==> final(r)@.bytes.len() == 0
            },
        forall|r: &mut Retained| #[trigger]
            call_ensures(Retained::restart_at, (r, offset), ()) ==> final(r)@.start == offset
                && final(r)@.bytes.len() == 0,
{
    if suffix is Some {
        assert((suffix->0)@ =~= kept@.bytes.skip(offset - start));
    }
}

/// A phone that has to sign for itself is told so; any other failure is told as it is.
pub proof fn law_failed_pairing_is_told(error: ApiError, told: String, words: String)
    requires
        call_ensures(ApiError::to_text, (&error,), told),
        call_ensures(pair_failure, (&error,), words),
    ensures
        !(error is Malformed) ==> words@ == "registering the device: "@ + told@,
        (error matches ApiError::Malformed(detail) ==> {
            let asked = exists|i: int|
                0 <= i && i + 11 <= detail@.len() && #[trigger] detail@.subrange(i, i + 11)
                    == "private key"@;
            &&& !asked ==> words@ == "registering the device: "@ + told@
            &&& asked ==> words@ == crate::publisher::cli::NEEDS_OWN_SIGNATURE@
        }),
{
    reveal_strlit("private key");
    assert("private key"@.len() == 11);
    let shown = error@;
    if let ApiError::Malformed(detail) = error {
        if exists|i: int|
            0 <= i && i + 11 <= detail@.len() && #[trigger] detail@.subrange(i, i + 11)
                == "private key"@ {
            let i = choose|i: int|
                0 <= i && i + 11 <= detail@.len() && #[trigger] detail@.subrange(i, i + 11)
                    == "private key"@;
            assert(detail@.subrange(i, i + "private key"@.len() as int) == "private key"@);
            assert(crate::publisher::cli::has_part(detail@, "private key"@));
        }
    }
}

/// Without a directory of its own the daemon says why, and its log is where its files are.
pub proof fn law_missing_directories_are_told(
    last: Option<String>,
    message: String,
    paths: Paths,
    log: String,
)
    requires
        call_ensures(no_runtime_dir, (&last,), message),
        call_ensures(log_path, (&paths,), log),
    ensures
        last is Some ==> message@ == "no private runtime directory is available: "@ + (last->0)@,
        last is None ==> message@ == "no private runtime directory is available: "@
            + "no candidate directory"@,
        log@ == paths.log@,
{
}

/// A column is filled up with spaces where its text is shorter, and is its text where that
/// is longer; a missing size is shown as nothing.
pub proof fn law_columns_are_filled_up(text: Seq<char>, width: nat, i: int)
    ensures
        text.len() >= width ==> padded_right(text, width) == text && padded_left(text, width)
            == text,
        text.len() < width ==> {
            &&& padded_right(text, width).len() == width
            &&& padded_left(text, width).len() == width
            &&& padded_right(text, width).take(text.len() as int) == text
            &&& padded_left(text, width).skip(width - text.len()) == text
            &&& text.len() <= i < width ==> padded_right(text, width)[i] == ' '
            &&& 0 <= i < width - text.len() ==> padded_left(text, width)[i] == ' '
        },
        size_text(None) == "0"@,
{
    if text.len() < width {
        assert(padded_right(text, width).take(text.len() as int) =~= text);
        assert(padded_left(text, width).skip(width - text.len()) =~= text);
    }
    reveal_strlit("0");
    assert(decimal(0) =~= "0"@);
}

/// Arguments are listed in their quotation marks, with commas between them; words with
/// spaces between them.
pub proof fn law_lists_are_punctuated(list: Seq<Seq<char>>, item: Seq<char>)
    ensures
        quoted_list(seq![item]) == quoted_text(item),
        list.len() > 0 ==> quoted_list(list.push(item)) == quoted_list(list) + ", "@
            + quoted_text(item),
        spaced(seq![item]) == item,
        list.len() > 0 ==> spaced(list.push(item)) == spaced(list) + " "@ + item,
{
    if list.len() > 0 {
        assert(list.push(item).drop_last() =~= list);
    }
}

/// The state of a machine without a home is kept where it is run.
pub proof fn law_state_without_a_home_is_kept_here(
    config: Option<String>,
    unix: String,
    windows: String,
)
    requires
        call_ensures(default_path, (System::Unix, &None::<String>, &None::<String>, &None::<String>), unix),
        call_ensures(default_path, (System::Windows, &None::<String>, &None::<String>, &config), windows),
    ensures
        unix@ == joined(System::Unix, joined(System::Unix, "."@, "hypeterm"@), "publisher.json"@),
        windows@ == joined(
            System::Windows,
            joined(System::Windows, "."@, "hypeterm"@),
            "publisher.json"@,
        ),
{
}

} // verus!
