use hypeterm::paths::System;
use hypeterm::encoding::{b64_decode, b64_encode, sha256};
use hypeterm::ids::Uuid;
use hypeterm::publisher::api;
use hypeterm::publisher::api::{ApiError, Challenge, Client, Terminal};
use hypeterm::publisher::cli;
use hypeterm::publisher::cli::{Pump, PumpAction, PumpInput, Session, WindowPolicy};
use hypeterm::publisher::crypto::{
    fingerprint, fingerprint_under, parse_length_prefixed, KeyPair, LengthPrefixed, ALGORITHM_ED25519,
};
use hypeterm::publisher::daemon;
use hypeterm::publisher::daemon::{
    acceptable_label, host_for_request, hosted_arguments, Claims, Hosting, Incoming, Received,
    Refusal, Relayed, Talk, ToDaemon,
};
use hypeterm::publisher::ipc;
use hypeterm::publisher::ipc::{
    encode_control, encode_input, encode_output, key, read_frame, Consider, Frame, FromClient,
    FromDaemon, IpcError, Paths, FRAME_CONTROL, FRAME_INPUT, FRAME_OUTPUT, IPC_VERSION,
};
use hypeterm::publisher::pairing::{encode, PairingCode};
use hypeterm::publisher::protocol::{
    decode_input_frame, encode_output_frame, FrameError, FRAME_TYPE_INPUT, FRAME_TYPE_OUTPUT,
};
use hypeterm::publisher::pty;
use hypeterm::publisher::report;
use hypeterm::publisher::publish::{Notice, Request};
use hypeterm::publisher::session::{Event, Limits, OpenRequest, TerminalSpec};
use hypeterm::publisher::state;
use hypeterm::publisher::state::{RemoteOpenConfig, State, StateError};
use hypeterm::relay::crypto::{Operation, SigningInput};

// ------------------------------------------------------------------------------ crypto

#[test]
fn length_prefixed_round_trips() {
    let encoded = LengthPrefixed::new()
        .field_str("alpha")
        .field(&[])
        .field_u64(7)
        .finish();
    let fields = parse_length_prefixed(&encoded).expect("parses");
    assert_eq!(fields.len(), 3);
    assert_eq!(fields[0], b"alpha");
    assert!(fields[1].is_empty(), "an empty field is still a field");
    assert_eq!(fields[2], 7u64.to_be_bytes());
}

#[test]
fn a_truncated_field_is_rejected_rather_than_guessed() {
    let mut encoded = LengthPrefixed::new().field_str("alpha").finish();
    encoded.pop();
    assert!(parse_length_prefixed(&encoded).is_none());
}

#[test]
fn a_field_is_a_length_and_its_bytes() {
    let encoded = LengthPrefixed::new().field_str("ab").finish();
    assert_eq!(encoded, [0, 0, 0, 2, b'a', b'b']);
    assert_eq!(parse_length_prefixed(&[]), Some(vec![]));
    let many = vec![0u8; 4 * 65];
    assert!(parse_length_prefixed(&many).is_none());
}

#[test]
fn fields_cannot_run_into_each_other() {
    let joined = |a: &str, b: &str| LengthPrefixed::new().field_str(a).field_str(b).finish();
    assert_ne!(joined("ab", "c"), joined("a", "bc"));
    assert_ne!(joined("abc", ""), LengthPrefixed::new().field_str("abc").finish());
    assert_ne!(fingerprint_under("ed25519", b"key"), fingerprint_under("ed2551", b"9key"));
    let pair = KeyPair::generate();
    assert_ne!(
        challenge(&pair, Operation::RegisterDevice, "me").signing_input,
        challenge(&pair, Operation::AuthenticateDevice, "me").signing_input
    );
    assert_ne!(
        challenge(&pair, Operation::RegisterDevice, "me").signing_input,
        challenge(&pair, Operation::RegisterDevice, "you").signing_input
    );
}

#[test]
fn a_signature_verifies_under_the_matching_public_key() {
    let pair = KeyPair::generate();
    let signature = pair.sign(b"message");
    let bytes = b64_decode(&signature).unwrap();
    assert!(pair.verifying_key().verify_strict(b"message", &bytes));
    assert!(!pair.verifying_key().verify_strict(b"massage", &bytes));
    assert!(!pair.verifying_key().verify_strict(b"message", &bytes[1..]));
}

#[test]
fn a_seed_round_trips_to_the_same_key() {
    let pair = KeyPair::generate();
    let restored = KeyPair::from_seed(&pair.seed()).expect("32 bytes");
    assert_eq!(restored.public_key_bytes(), pair.public_key_bytes());
    assert_eq!(restored.fingerprint(), pair.fingerprint());
    assert!(KeyPair::from_seed(b"short").is_none());
}

#[test]
fn a_known_seed_gives_the_known_key() {
    // The first test vector of RFC 8032.
    let seed = b64_decode("nWGxne_9WmC6hEr0kuwsxERJxWl7MmkZcDusAxyuf2A").unwrap();
    let pair = KeyPair::from_seed(&seed).unwrap();
    assert_eq!(
        pair.public_key_base64(),
        "11qYAYKxCrfVS_7TyWQHOg7hcvPapiMlrwIaaPcHURo"
    );
    assert_eq!(
        pair.sign(b""),
        "5VZDAMNgrHKQhuLMgG6CioSHfx645dl02HPgZSJJAVVfuIIVkKM7rMYeOXAc-bRr0lv18FlbviRlUUFDjnoQCw"
    );
}

#[test]
fn a_fingerprint_is_the_hash_of_three_fields() {
    let input = LengthPrefixed::new()
        .field_str("terminal-relay-identity-v1")
        .field_str("ed25519")
        .field(&[1, 2, 3])
        .finish();
    assert_eq!(fingerprint(&[1, 2, 3]), b64_encode(&sha256(&input)));
}

#[test]
fn base64_is_url_safe_and_padding_is_optional_when_read() {
    assert_eq!(b64_encode(&[0xfb, 0xff]), "-_8");
    assert_eq!(b64_decode("-_8"), Some(vec![0xfb, 0xff]));
    assert_eq!(b64_decode("-_8="), Some(vec![0xfb, 0xff]));
    assert_eq!(b64_decode("+/8"), None);
    assert_eq!(b64_encode(&sha256(b"abc")), "ungWv48Bz-pBQUDeXa4iI7ADYaOWF3qctBD_YfIAFa0");
}

// ----------------------------------------------------------------------------- pairing

#[test]
fn the_code_is_a_prefixed_base64url_document() {
    let code = encode(&PairingCode {
        server_url: "https://relay.example".into(),
        identity_id: "identity".into(),
        identity_token: "v1.a.b".into(),
    });
    let body = code.strip_prefix("HT1.").expect("carries the prefix");
    let decoded = b64_decode(body).expect("base64url");
    let text = String::from_utf8(decoded).expect("utf-8");
    // The client parses these three keys and nothing else.
    assert!(text.contains("\"u\":\"https://relay.example\""));
    assert!(text.contains("\"i\":\"identity\""));
    assert!(text.contains("\"t\":\"v1.a.b\""));
}

#[test]
fn the_code_carries_no_padding_that_a_paste_could_lose() {
    let code = encode(&PairingCode {
        server_url: "https://relay.example/".into(),
        identity_id: "x".repeat(43),
        identity_token: "y".repeat(200),
    });
    assert!(!code.contains('='), "padding invites truncation on paste");
    assert!(
        !code.contains('+') && !code.contains('/'),
        "must be url-safe"
    );
}

/// The exact string that a client must accept.
const VECTOR: &str = "HT1.eyJ1IjoiaHR0cHM6Ly9yZWxheS5leGFtcGxlIiwiaSI6ImlkZW50aXR5LWZpbmdlcnByaW50IiwidCI6InYxLnBheWxvYWQudGFnIn0";

#[test]
fn the_encoding_matches_the_client() {
    let encoded = encode(&PairingCode {
        server_url: "https://relay.example".into(),
        identity_id: "identity-fingerprint".into(),
        identity_token: "v1.payload.tag".into(),
    });
    assert_eq!(encoded, VECTOR);
}

// ---------------------------------------------------------------------------- protocol

#[test]
fn an_output_frame_has_the_publisher_header() {
    let id = Uuid::from_u128(0x0123_4567_89ab_cdef_0123_4567_89ab_cdef);
    let frame = encode_output_frame(id, 1234, b"hi");
    assert_eq!(frame[0], FRAME_TYPE_OUTPUT);
    assert_eq!(&frame[1..17], id.as_bytes());
    assert_eq!(u64::from_be_bytes(frame[17..25].try_into().unwrap()), 1234);
    assert_eq!(&frame[25..], b"hi");
}

#[test]
fn an_input_frame_round_trips() {
    let id = Uuid::from_u128(9);
    let mut bytes = vec![FRAME_TYPE_INPUT];
    bytes.extend_from_slice(&id.as_bytes());
    bytes.extend_from_slice(&7u64.to_be_bytes());
    bytes.extend_from_slice(b"ls\r");
    let frame = decode_input_frame(&bytes).expect("decodes");
    assert_eq!(frame.terminal_id, id);
    assert_eq!(frame.relay_sequence, 7);
    assert_eq!(frame.payload, b"ls\r");
}

#[test]
fn a_mirror_shaped_input_frame_is_refused() {
    // The mirror header is 9 bytes, the publisher's is 25. Accepting the shorter
    // one would read the payload as a UUID and mis-route every keystroke.
    let mut bytes = vec![FRAME_TYPE_INPUT];
    bytes.extend_from_slice(&1u64.to_be_bytes());
    bytes.extend_from_slice(b"x");
    assert_eq!(decode_input_frame(&bytes), Err(FrameError::TooShort));
}

#[test]
fn an_output_frame_is_not_mistaken_for_input() {
    let mut bytes = vec![FRAME_TYPE_OUTPUT];
    bytes.extend_from_slice(&[0u8; 24]);
    assert_eq!(
        decode_input_frame(&bytes),
        Err(FrameError::UnknownType(FRAME_TYPE_OUTPUT))
    );
}

#[test]
fn identifiers_are_written_and_read_in_their_usual_form() {
    let id = Uuid::from_u128(0x0123_4567_89ab_cdef_0123_4567_89ab_cdef);
    assert_eq!(id.to_text(), "01234567-89ab-cdef-0123-456789abcdef");
    assert_eq!(Uuid::parse_str("01234567-89AB-cdef-0123-456789abcdef"), Some(id));
    assert_eq!(Uuid::parse_str("nothing"), None);
    assert_ne!(Uuid::new_v4(), Uuid::new_v4());
}

// --------------------------------------------------------------------------------- ipc

#[test]
fn a_control_frame_round_trips() {
    let message = b"{\"type\":\"hello\",\"ipc_version\":2,\"build\":\"0.1.0\",\"pid\":42}";
    let encoded = encode_control(message);
    assert_eq!(encoded[0], FRAME_CONTROL);
    let length = u32::from_be_bytes(encoded[1..5].try_into().unwrap()) as usize;
    assert_eq!(length, encoded.len() - 5);
    assert_eq!(&encoded[5..], message);
}

#[test]
fn an_output_frame_carries_its_offset() {
    let encoded = encode_output(4096, b"hi");
    assert_eq!(encoded[0], FRAME_OUTPUT);
    assert_eq!(u64::from_be_bytes(encoded[5..13].try_into().unwrap()), 4096);
    assert_eq!(&encoded[13..], b"hi");
}

#[test]
fn frames_are_read_back_exactly_as_written() {
    let resize = b"{\"type\":\"resize\",\"cols\":80,\"rows\":24}";
    let mut buffer: Vec<u8> = Vec::new();
    buffer.extend(encode_control(resize));
    buffer.extend(encode_output(7, b"abc"));

    let (first, used) = read_frame(&buffer, true).unwrap();
    assert_eq!(first, Frame::Control(resize.to_vec()));
    let (second, rest) = read_frame(&buffer[used..], true).unwrap();
    assert_eq!(
        second,
        Frame::Output {
            start_offset: 7,
            bytes: b"abc".to_vec()
        }
    );
    assert_eq!(used + rest, buffer.len());
}

#[test]
fn a_frame_travelling_the_wrong_way_is_refused() {
    // Feeding keystrokes into an output stream, or output into a keyboard, is
    // worse than closing the connection.
    assert!(matches!(
        read_frame(&encode_input(b"ls"), true),
        Err(IpcError::WrongDirection(FRAME_INPUT))
    ));
    assert!(matches!(
        read_frame(&encode_output(0, b"x"), false),
        Err(IpcError::WrongDirection(FRAME_OUTPUT))
    ));
}

#[test]
fn an_absurd_length_is_refused_before_it_is_allocated() {
    let mut frame = vec![FRAME_CONTROL];
    frame.extend_from_slice(&u32::MAX.to_be_bytes());
    assert!(matches!(
        read_frame(&frame, true),
        Err(IpcError::TooLarge(_))
    ));
}

#[test]
fn other_unreadable_frames_are_told_apart() {
    assert!(matches!(
        read_frame(&[0x09, 0, 0, 0, 0], true),
        Err(IpcError::UnknownFrame(9))
    ));
    assert!(matches!(
        read_frame(&[FRAME_CONTROL, 0, 0], true),
        Err(IpcError::UnexpectedEnd)
    ));
    assert!(matches!(
        read_frame(&[FRAME_OUTPUT, 0, 0, 0, 1, 5], true),
        Err(IpcError::Malformed(_))
    ));
    let error: IpcError = IpcError::UnexpectedEnd;
    assert_eq!(error.to_text(), "early eof");
}

#[test]
fn the_key_separates_devices_and_relays() {
    let a = key("https://relay.example", "device-a");
    let b = key("https://relay.example", "device-b");
    let c = key("https://other.example", "device-a");
    assert_ne!(a, b);
    assert_ne!(a, c);
    assert_eq!(a, key("https://relay.example", "device-a"));
    assert_eq!(a.len(), 16);
    // The separator is what stops ("ab", "c") and ("a", "bc") colliding.
    assert_ne!(key("ab", "c"), key("a", "bc"));
}

#[test]
fn a_daemons_files_lie_side_by_side() {
    let paths = Paths::in_dir("/run/user/1000", "https://relay.example", "device").unwrap();
    let name = key("https://relay.example", "device");
    assert_eq!(paths.socket, format!("/run/user/1000/{name}.sock"));
    assert_eq!(paths.lock, format!("/run/user/1000/{name}.lock"));
    assert_eq!(paths.log, format!("/run/user/1000/{name}.log"));
    assert!(Paths::in_dir(&"d".repeat(90), "https://relay.example", "device").is_err());
}

#[test]
fn a_runtime_directory_must_be_private() {
    assert!(ipc::private_directory("/run", true, 1000, 1000, 0o700).is_ok());
    assert!(ipc::private_directory("/run", true, 1000, 1000, 0o755).is_err());
    assert!(ipc::private_directory("/run", true, 0, 1000, 0o700).is_err());
    assert!(ipc::private_directory("/run", false, 1000, 1000, 0o700).is_err());
    assert_eq!(ipc::consider("/anything", true), Consider::Inspect);
    assert_eq!(
        ipc::runtime_candidates(&Some("/x".into()), 1000, &Some("/home/me".into())).len(),
        3
    );
}

// -------------------------------------------------------------------------------- state

#[test]
fn keys_survive_a_save_and_load() {
    let identity = KeyPair::generate();
    let device = KeyPair::generate();
    let mut state = State::default();
    state.relay_url = "https://relay.example".into();
    state.set_identity_key(&identity);
    state.set_device_key(&device);

    assert_eq!(state.relay_url, "https://relay.example");
    assert_eq!(
        state.identity_key().unwrap().public_key_bytes(),
        identity.public_key_bytes()
    );
    assert_eq!(
        state.device_key().unwrap().public_key_bytes(),
        device.public_key_bytes()
    );
    assert_eq!(state.identity_id, identity.fingerprint());
}

#[test]
fn a_new_state_holds_no_key_and_opens_nothing() {
    let state = State::default();
    assert!(state.identity_seed.is_empty());
    assert!(state.identity_key().is_none());
    assert!(!state.remote_open.enabled);
    assert!(state.remote_open.shell.is_empty());
    assert_eq!(state.remote_open.max_terminals, 4);
}

#[test]
fn a_world_readable_state_file_is_refused() {
    // It holds two private keys; refusing is the only safe answer.
    assert!(matches!(
        state::check_permissions("publisher.json", 0o100644),
        Err(StateError::Permissions(_))
    ));
    assert!(state::check_permissions("publisher.json", 0o100600).is_ok());
}

#[test]
fn the_state_file_is_found_in_the_usual_places() {
    assert_eq!(state::default_path(System::Unix, &Some("/x.json".into()), &None, &None), "/x.json");
    assert_eq!(
        state::default_path(
            System::Unix,
            &None,
            &Some("/config".into()),
            &Some("/home/me".into())
        ),
        "/config/hypeterm/publisher.json"
    );
    assert_eq!(
        state::default_path(System::Unix, &None, &Some("".into()), &Some("/home/me".into())),
        "/home/me/.config/hypeterm/publisher.json"
    );
    assert_eq!(
        state::default_path(System::Windows, &None, &Some("C:\\d".into()), &None),
        "C:\\d\\hypeterm\\publisher.json"
    );
    assert_eq!(
        state::default_path(System::Windows, &None, &Some("".into()), &Some("h".into())),
        "hypeterm\\publisher.json"
    );
    assert_eq!(
        state::default_path(System::Windows, &None, &None, &Some("h".into())),
        ".\\hypeterm\\publisher.json"
    );
}

// ------------------------------------------------------------------------------- daemon

#[test]
fn a_label_with_control_characters_is_refused_not_sanitised() {
    // It reaches argv and is printed into a real terminal on this machine. Every
    // one of these is a way to make the phone's view and this machine's disagree.
    assert!(!acceptable_label("build\u{1b}]0;pwned\u{7}"));
    assert!(!acceptable_label("two\nlines"));
    assert!(!acceptable_label("bell\u{7}"));
    assert!(!acceptable_label("\u{85}next-line"));
    assert!(!acceptable_label(""));
    assert!(!acceptable_label("   "));
    assert!(!acceptable_label(&"x".repeat(201)));
}

#[test]
fn an_ordinary_label_is_accepted_unchanged() {
    assert!(acceptable_label("phone"));
    assert!(acceptable_label("build shell"));
    // Not ASCII-only: a name in somebody's own language is not an attack.
    assert!(acceptable_label("студия"));
    assert!(acceptable_label("ビルド"));
}

fn remote() -> RemoteOpenConfig {
    let mut config = RemoteOpenConfig::default();
    config.enabled = true;
    config.shell = vec!["/bin/zsh".into(), "-l".into()];
    config
}

#[test]
fn the_hosted_command_is_argv_and_never_a_shell_string() {
    // Every value off the network is one argument of its own. If the arguments ever hold
    // a shell invocation or a formatted command string, a phone-supplied value becomes a
    // way to run something — the one thing this design must not allow.
    let label = "x; rm -rf $HOME";
    let arguments = hosted_arguments("/state.json", &remote(), label, "request", 80, 24);
    assert_eq!(
        arguments,
        [
            "--state-file",
            "/state.json",
            "run",
            "--label",
            label,
            "--in-reply-to",
            "request",
            "--cols",
            "80",
            "--rows",
            "24",
            "--",
            "/bin/zsh",
            "-l"
        ]
    );
    for needle in [
        format!("{}{}", "sh -", "c"),
        format!("{}{}", ".arg(\"-", "c\")"),
        format!("{}{}", "Command::new(\"", "sh\")"),
    ] {
        assert!(
            !arguments.iter().any(|argument| argument.contains(&needle)),
            "the spawn path must never construct a shell command: found {needle}"
        );
    }
}

fn asked(label: Option<&str>) -> OpenRequest {
    OpenRequest {
        request_id: "request".into(),
        label: label.map(str::to_string),
        cols: None,
        rows: Some(40),
    }
}

#[test]
fn opening_for_a_subscriber_is_decided_here() {
    let off = RemoteOpenConfig::default();
    let mut spawns = Vec::new();
    assert!(matches!(
        host_for_request(&off, &mut spawns, 0, 0, 0, &asked(None)),
        Hosting::Decline(Refusal::NotPermitted)
    ));
    assert!(spawns.is_empty());

    let on = remote();
    assert!(matches!(
        host_for_request(&on, &mut spawns, 0, 0, 0, &asked(None)),
        Hosting::Host { label, cols: 80, rows: 40 } if label == "phone"
    ));
    assert!(matches!(
        host_for_request(&on, &mut spawns, 1, 0, 0, &asked(Some("bad\nname"))),
        Hosting::Decline(Refusal::NotPermitted)
    ));
    assert!(matches!(
        host_for_request(&on, &mut spawns, 2, 3, 1, &asked(None)),
        Hosting::Decline(Refusal::LimitReached)
    ));
    // Three were tried within a minute; the fourth is too many, and a minute on it is not.
    assert!(matches!(
        host_for_request(&on, &mut spawns, 3, 0, 0, &asked(None)),
        Hosting::Decline(Refusal::Busy)
    ));
    assert!(matches!(
        host_for_request(&on, &mut spawns, 60_003, 0, 0, &asked(None)),
        Hosting::Host { .. }
    ));
    assert_eq!(Refusal::Busy.as_str(), "busy");
}

#[test]
fn an_opening_leaves_a_line_with_its_label_escaped() {
    assert_eq!(
        daemon::remote_open_record(7, "r", "a\"b", &remote(), 80, 24),
        "unix=7 request=r label=\"a\\\"b\" argv=[\"/bin/zsh\", \"-l\"] cwd=\"\" cols=80 rows=24\n"
    );
    assert_eq!(
        daemon::hosted_directory(&remote(), &Some("/home/me".into())),
        Some("/home/me".to_string())
    );
}

#[test]
fn a_reference_is_claimed_once() {
    let mut claims = Claims::new();
    assert!(claims.claim("one"));
    assert!(!claims.claim("one"));
    assert!(claims.claim("two"));
    assert_eq!(claims.len(), 2);
    claims.release("one");
    assert!(!claims.contains("one"));
    assert!(claims.claim("one"));
}

#[test]
fn a_conversation_starts_with_a_hello_and_an_open() {
    let hello = Received::Control(daemon::hello("0.1.0", 42));
    assert!(matches!(
        daemon::on_hello(hello, 3, "0.1.0", 7),
        Talk::Answer(FromDaemon::HelloOk { ipc_version: IPC_VERSION, pid: 7, clients: 2, .. })
    ));
    assert!(matches!(
        daemon::on_hello(Received::Control(FromClient::Retire), 0, "0.1.0", 7),
        Talk::Refuse { .. } | Talk::Fail(_)
    ));

    let spec = TerminalSpec {
        local_ref: "one".into(),
        label: "l".into(),
        cols: 80,
        rows: 24,
        term: "xterm".into(),
        in_reply_to: None,
    };
    let asked = TerminalSpec { in_reply_to: Some("r".into()), ..spec.clone() };
    assert!(matches!(
        daemon::open(&asked, false),
        FromClient::Open { in_reply_to: Some(request), .. } if request == "r"
    ));
    assert!(matches!(
        daemon::open(&asked, true),
        FromClient::Open { in_reply_to: None, .. }
    ));
    let mut claims = Claims::new();
    assert!(matches!(
        daemon::on_open(Received::Control(daemon::open(&spec, false)), 0, &mut claims),
        Talk::Open(opened) if opened.local_ref == "one"
    ));
    assert!(matches!(
        daemon::on_open(Received::Control(daemon::open(&spec, false)), 1, &mut claims),
        Talk::Refuse { .. }
    ));
    assert!(matches!(
        daemon::on_open(Received::Control(FromClient::Retire), 0, &mut claims),
        Talk::Refuse { .. }
    ));
    assert!(matches!(
        daemon::on_open(Received::Control(FromClient::Retire), 0, &mut Claims::new()),
        Talk::StandDown(_)
    ));
    assert!(matches!(
        daemon::on_client_frame(Received::Output { start_offset: 4, bytes: vec![1] }),
        Talk::Publish { start_offset: 4, .. }
    ));
}

#[test]
fn events_cross_the_socket_and_come_out_alike() {
    let attached = Event::Attached {
        terminal_id: Uuid::from_u128(5),
        next_offset: 9,
        limits: Limits { max_output_frame_bytes: 2048, max_unacked_output_bytes: 70_000 },
    };
    let message = match daemon::relay_event(attached) {
        Relayed::Message(message) => message,
        other => panic!("expected a message, got {other:?}"),
    };
    assert!(matches!(
        daemon::on_daemon_message(message),
        Incoming::Event(Event::Attached { terminal_id, next_offset: 9, limits })
            if terminal_id == Uuid::from_u128(5) && limits.max_output_frame_bytes == 2048
    ));
    assert!(matches!(
        daemon::relay_event(Event::Ended("done".into())),
        Relayed::Last(FromDaemon::Ended { reason }) if reason == "done"
    ));
    assert!(matches!(
        daemon::relay_event(Event::Input(b"x".to_vec())),
        Relayed::Input(bytes) if bytes == b"x"
    ));
    let output = Request::Output { start_offset: 3, bytes: b"abc".to_vec() };
    assert!(matches!(
        daemon::forward_request(output),
        ToDaemon::Frame(bytes) if bytes == encode_output(3, b"abc")
    ));
    let close = Request::Close { reason: "process_exited".into() };
    assert!(matches!(
        daemon::forward_request(close),
        ToDaemon::Control { message: FromClient::Close { .. }, last: true }
    ));
}

#[test]
fn an_idle_daemon_stays_for_a_machine_that_can_be_asked() {
    assert!(daemon::is_idle(0, 0, false));
    assert!(!daemon::is_idle(1, 0, false));
    assert!(!daemon::is_idle(0, 1, false));
    assert!(!daemon::is_idle(0, 0, true));
}

// ---------------------------------------------------------------------------------- cli

#[test]
fn losing_the_mirror_does_not_end_the_session() {
    let mut pump = Pump::new(true, true, 80, 24);
    let (actions, session) = pump.on_input(PumpInput::Notice(Some(Notice::Ended("gone".into()))));
    assert!(matches!(session, Session::GoesOn));
    assert!(matches!(
        &actions[..],
        [PumpAction::Tell(words)] if words == "gone; this terminal still works"
    ));
    let (actions, _) = pump.on_input(PumpInput::Output(Some(b"x".to_vec())));
    assert!(matches!(&actions[..], [PumpAction::Show(bytes)] if bytes == b"x"));
    let (_, session) = pump.on_input(PumpInput::Output(None));
    assert!(matches!(session, Session::Over));
}

#[test]
fn a_mirrored_shell_that_exits_is_closed_before_leaving() {
    let mut pump = Pump::new(false, true, 80, 24);
    let (actions, session) = pump.on_input(PumpInput::Output(None));
    assert!(matches!(&actions[..], [PumpAction::BeginShutdown]));
    assert!(matches!(session, Session::GoesOn));
    let (_, session) = pump.on_input(PumpInput::Notice(None));
    assert!(matches!(session, Session::Over));
}

#[test]
fn a_window_of_its_own_decides_the_size() {
    let mut own = Pump::new(true, true, 80, 24);
    let (actions, _) =
        own.on_input(PumpInput::Notice(Some(Notice::Resize { cols: 10, rows: 10 })));
    assert!(actions.is_empty());
    let (actions, _) = own.on_input(PumpInput::Window { cols: 100, rows: 24 });
    assert!(matches!(
        &actions[..],
        [PumpAction::ResizeTerminal { cols: 100, .. }, PumpAction::ResizeMirror { .. }]
    ));
    let mut none = Pump::new(false, true, 80, 24);
    let (actions, _) =
        none.on_input(PumpInput::Notice(Some(Notice::Resize { cols: 10, rows: 10 })));
    assert_eq!(actions.len(), 2);
    assert!(matches!(
        none.on_input(PumpInput::KeyboardFailed("io".into())).1,
        Session::Failed(words) if words == "reading the keyboard: io"
    ));
}

#[test]
fn commands_are_read_and_described() {
    assert!(matches!(cli::window_policy(vec!["auto".into()]), Ok(WindowPolicy::Auto)));
    assert!(matches!(cli::window_policy(vec!["never".into()]), Ok(WindowPolicy::Never)));
    assert!(cli::window_policy(vec![]).is_err());
    assert_eq!(cli::minutes_left(125), 2);
    assert_eq!(cli::terminal_size(None), (80, 24));
    let terminal = Terminal {
        terminal_id: "id".into(),
        label: "laptop".into(),
        state: "open".into(),
        cols: Some(80),
        rows: Some(24),
        accepts_input: true,
    };
    assert!(cli::terminal_line(&terminal).contains("laptop"));
    let mut config = RemoteOpenConfig::default();
    cli::enable_remote_open(&mut config, None, None, None, Some("/bin/sh".into()), None).unwrap();
    assert!(config.enabled);
    cli::disable_remote_open(&mut config);
    assert!(!config.enabled);
    assert!(cli::require_enrolled(&State::default()).is_err());
}

#[test]
fn a_shell_that_takes_no_keys_is_gone() {
    let mut pump = Pump::new(true, true, 80, 24);
    let (actions, _) = pump.on_input(PumpInput::Keys(b"ls".to_vec()));
    assert!(matches!(&actions[..], [PumpAction::Write(bytes)] if bytes == b"ls"));
    assert!(matches!(pump.on_input(PumpInput::WriteFailed).1, Session::Over));
}

#[test]
fn reports_say_what_there_is_to_say() {
    let mut state = State::default();
    assert_eq!(
        report::status(&state, "/s.json", &None),
        ["not enrolled (/s.json)", "run: hypeterm-publish enroll --relay <url>"]
    );
    state.relay_url = "https://relay.example".into();
    state.device_id = "d".into();
    state.device_name = "laptop".into();
    let paths = Paths::in_dir("/run", "https://relay.example", "d").unwrap();
    let lines = report::status(&state, "/s.json", &Some((true, paths.clone())));
    assert_eq!(lines.len(), 9);
    assert_eq!(lines[2], "device     d (laptop)");
    assert_eq!(lines[5], "remote open off");
    assert_eq!(lines[6], "daemon     running");
    assert_eq!(report::enrolled(&state, "/s.json")[0], "enrolled with https://relay.example");
    let lines = report::remote_open_enabled(&remote(), "never");
    assert_eq!(lines[1], "  shell     [\"/bin/zsh\", \"-l\"]");
    assert_eq!(lines[2], "  directory $HOME");
    assert_eq!(lines[3], "  at most   4 terminals");
    assert_eq!(lines.len(), 10);
    assert_eq!(report::remote_open_disabled()[0], "remote open: off");
    assert_eq!(report::remote_open_status(&RemoteOpenConfig::default(), "").len(), 2);
    assert_eq!(report::pair_code("HT1.x", "u", 600)[3], "Paste that into the phone's pairing screen. It expires in 10 minutes, and it ");
    assert_eq!(report::paired("phone", "i", "d")[0], "paired phone");
    assert_eq!(
        report::daemon_status(&None, &paths)[0],
        "no daemon is running for this device"
    );
    let running = daemon::on_probe(Some(FromDaemon::HelloOk {
        ipc_version: IPC_VERSION,
        build: "0.1.0".into(),
        pid: 7,
        clients: 1,
    }));
    assert_eq!(
        report::daemon_status(&running, &paths)[0],
        format!("a daemon is running (pid 7, build 0.1.0) on {}", paths.socket)
    );
    assert_eq!(report::daemon_stopped(true), "the daemon is standing down");
    assert_eq!(daemon::log_path(&paths), paths.log);
}

#[test]
fn the_default_shell_is_a_login_shell() {
    assert_eq!(pty::default_shell(false, &None), ["/bin/sh", "-l"]);
    assert_eq!(pty::default_shell(false, &Some("/bin/zsh".into())), ["/bin/zsh", "-l"]);
    assert_eq!(pty::default_shell(true, &None), ["cmd.exe"]);
}

// ---------------------------------------------------------------------------------- api

fn challenge(key: &KeyPair, operation: Operation, owner: &str) -> Challenge {
    let fingerprint = key.fingerprint();
    let bytes = SigningInput {
        origin: "https://relay.example",
        challenge_id: "c",
        challenge: b"random",
        operation,
        key_fingerprint: &fingerprint,
        owner_identity_id: owner,
        device_key_fingerprint: "",
        expires_at_unix_ms: 5,
    }
    .encode();
    Challenge {
        challenge_id: "c".into(),
        signing_input: b64_encode(&bytes),
        key_fingerprint: fingerprint,
    }
}

#[test]
fn a_challenge_is_signed_only_for_what_was_asked() {
    let key = KeyPair::generate();
    let offered = challenge(&key, Operation::AuthenticateDevice, "");
    let signature =
        api::sign_challenge(&offered, &key, "authenticate_device", &None).expect("signs");
    let bytes = b64_decode(&offered.signing_input).unwrap();
    assert!(key
        .verifying_key()
        .verify_strict(&bytes, &b64_decode(&signature).unwrap()));

    let refused = api::sign_challenge(&offered, &key, "register_device", &None).unwrap_err();
    assert_eq!(
        refused.to_text(),
        "the relay's response was not what this client expects: the relay offered a \"authenticate_device\" challenge when \"register_device\" was asked for"
    );
    let other = KeyPair::generate();
    assert!(api::sign_challenge(&offered, &other, "authenticate_device", &None).is_err());
    let owned = challenge(&key, Operation::RegisterDevice, "somebody");
    assert!(api::sign_registration(&owned, &Some(key), "somebody else").is_err());
    assert!(api::sign_registration(&owned, &None, "somebody").is_err());
}

#[test]
fn requests_are_written_as_the_relay_reads_them() {
    let client = Client::new("https://relay.example//");
    assert_eq!(client.base_url(), "https://relay.example");
    assert_eq!(client.url("/v1/identities"), "https://relay.example/v1/identities");
    assert_eq!(
        hypeterm::publisher::api::listing_refusal(502, "bad gateway").to_text(),
        "502: request_failed: bad gateway"
    );
    assert_eq!(
        client.terminals_url(&Some("d".into())),
        "https://relay.example/v1/terminals?state=open&limit=100&device_id=d"
    );
    assert_eq!(ALGORITHM_ED25519, "ed25519");
    assert_eq!(
        api::challenge_body("register_device", "k", &Some("me".into())),
        "{\"key\":{\"algorithm\":\"ed25519\",\"public_key\":\"k\"},\"operation\":\"register_device\",\"owner_identity_id\":\"me\"}"
    );
    assert_eq!(
        api::proof_body("c", "s"),
        "{\"challenge_id\":\"c\",\"signature\":\"s\"}"
    );
    assert_eq!(
        api::device_body("n", "k", "c", "s", "client"),
        "{\"challenge_id\":\"c\",\"device_signature\":\"s\",\"key\":{\"algorithm\":\"ed25519\",\"public_key\":\"k\"},\"name\":\"n\",\"role\":\"client\"}"
    );
    assert!(matches!(
        api::refusal(500, "boom", None, Some("m".into())),
        ApiError::Relay { status: 500, code, message } if code == "unknown" && message == "boom"
    ));
    let read = |body: &str| api::read_refusal(409, body).to_text();
    assert_eq!(
        read("{\"error\": {\"message\": \"no \\\"way\\\"\", \"code\": \"conflict\"}}"),
        "409: conflict: no \"way\""
    );
    for body in [
        "<html>",
        "{}",
        "[{\"error\":1}]",
        "{\"error\":\"no\"}",
        "{\"error\":{\"code\":\"c\"}}",
        "{\"error\":{\"code\":7,\"message\":\"m\"}}",
    ] {
        assert_eq!(read(body), format!("409: unknown: {body}"));
    }
}

#[test]
fn texts_are_encoded_character_by_character() {
    assert_eq!(hypeterm::encoding::b64_encode(&[]), "");
    assert_eq!(hypeterm::encoding::b64_encode(&[0xfb]), "-w");
    assert_eq!(hypeterm::encoding::b64_encode(&[0xfb, 0xff]), "-_8");
    assert_eq!(hypeterm::encoding::b64_encode(&[0x00, 0x10, 0x83, 0x4d]), "ABCDTQ");
    for n in 0..20usize {
        assert_eq!(hypeterm::encoding::b64_encode(&vec![7; n]).len(), (4 * n + 2) / 3);
    }
    assert_eq!(hypeterm::publisher::crypto::fingerprint(&[1; 32]).len(), 43);
    assert_eq!(
        hypeterm::ids::Uuid::from_u128(0x0123_4567_89ab_cdef_0011_2233_4455_6677).to_text(),
        "01234567-89ab-cdef-0011-223344556677"
    );
    assert_eq!(
        hypeterm::relay::auth::identity_json("\"\\\u{8}\u{c}\n\r\t\u{1}\u{1f}\u{7f}é", ""),
        "{\"created_at\":\"\",\"identity_id\":\"\\\"\\\\\\b\\f\\n\\r\\t\\u0001\\u001f\u{7f}é\"}"
    );
}

#[test]
fn a_window_policy_says_what_it_does() {
    let auto = cli::window_policy(vec!["auto".to_string()]).unwrap();
    let found = Some(vec!["xterm".to_string(), "-e".to_string()]);
    assert_eq!(cli::describe_window(System::Unix, &auto, &found), "auto \u{2014} xterm -e");
    assert_eq!(
        cli::describe_window(System::Unix, &auto, &None),
        "auto \u{2014} no display or no terminal emulator here, so headless"
    );
    assert_eq!(cli::describe_window(System::Windows, &auto, &None), "auto");
    let never = cli::window_policy(vec!["never".to_string()]).unwrap();
    assert_eq!(
        cli::describe_window(System::Unix, &never, &found),
        "never \u{2014} hosted headlessly"
    );
}
