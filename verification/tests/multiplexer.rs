use hypeterm::ids::Uuid;
use hypeterm::publisher::protocol;
use hypeterm::publisher::protocol::ServerMessage;
use hypeterm::publisher::session::{
    apply_limits, busy, check_subprotocol, list_open, may_accept, on_greeting, retry_delay_ms,
    websocket_url, Action, Control, Event, Frame, Greeting, Handed, Limits, Multiplexer, Outbound,
    SessionError, TerminalSink, TerminalSpec,
};

const LIMITS: Limits = Limits {
    max_output_frame_bytes: 1024,
    max_unacked_output_bytes: 65536,
};

fn spec(local_ref: &str) -> TerminalSpec {
    TerminalSpec {
        local_ref: local_ref.to_string(),
        label: local_ref.to_string(),
        cols: 80,
        rows: 24,
        term: "xterm-256color".into(),
        in_reply_to: None,
    }
}

fn opened(local_ref: &str, id: u128) -> Frame {
    Frame::Text(Some(ServerMessage::TerminalOpened {
        request_id: local_ref.into(),
        terminal_id: Uuid::from_u128(id),
        next_offset: 0,
        durable_offset: 0,
        accepts_input: true,
    }))
}

/// A multiplexer that hosts these terminals, each opened by the relay.
fn hosting(terminals: &[(&str, u128)]) -> Multiplexer {
    let mut mux = Multiplexer::new(true);
    for (local_ref, id) in terminals {
        mux.on_control(Control::Open(spec(local_ref)), LIMITS, 64);
        mux.on_frame(opened(local_ref, *id), LIMITS, true);
    }
    mux
}

fn closes(actions: &[Action]) -> Vec<(Uuid, String)> {
    let mut out = Vec::new();
    for action in actions {
        if let Action::Send(Outbound::Close {
            terminal_id,
            reason,
        }) = action
        {
            out.push((*terminal_id, reason.clone()));
        }
    }
    out
}

#[test]
fn the_websocket_url_follows_the_scheme() {
    assert_eq!(
        websocket_url("https://relay.example", "abc"),
        "wss://relay.example/v1/devices/abc/relay"
    );
    assert_eq!(
        websocket_url("http://127.0.0.1:9080/", "abc"),
        "ws://127.0.0.1:9080/v1/devices/abc/relay"
    );
}

#[test]
fn a_message_reaches_only_the_terminal_it_names() {
    let mux = hosting(&[("one", 1), ("two", 2)]);

    let actions = mux.deliver_to(Uuid::from_u128(2), Event::Input(b"ls\r".to_vec()));

    // Routing by id is what keeps one shell's keystrokes out of another's, which
    // is the failure the whole multiplexer exists to prevent.
    assert_eq!(actions.len(), 1);
    assert!(matches!(
        &actions[0],
        Action::Deliver { local_ref, event: Event::Input(bytes) }
            if local_ref == "two" && bytes == b"ls\r"
    ));
}

#[test]
fn a_message_for_an_unknown_terminal_disturbs_nobody() {
    let mux = hosting(&[("one", 1)]);

    // A late frame from a previous connection must be ignored, not delivered to
    // whichever terminal happens to be around.
    let actions = mux.deliver_to(Uuid::from_u128(99), Event::Ack { durable_offset: 10 });
    assert!(actions.is_empty());
}

#[test]
fn an_error_naming_one_terminal_leaves_the_others_alone() {
    let mut mux = hosting(&[("one", 1), ("two", 2)]);

    let (actions, handled) = mux.on_terminal_error(
        "terminal_not_found",
        "gone",
        Some(Uuid::from_u128(1)),
        &None,
        None,
    );

    assert!(handled, "a per-terminal error must not end the connection");
    assert!(!mux.hosts("one"));
    assert!(mux.hosts("two"));
    assert!(actions.iter().any(|action| matches!(
        action,
        Action::Deliver { local_ref, event: Event::Ended(_) }
        | Action::Offer { local_ref, event: Event::Ended(_) } if local_ref == "one"
    )));
    assert!(!actions.iter().any(|action| matches!(
        action,
        Action::Deliver { local_ref, .. } | Action::Offer { local_ref, .. } if local_ref == "two"
    )));
}

#[test]
fn an_offset_mismatch_is_referred_to_the_terminal_that_holds_the_bytes() {
    let mut mux = hosting(&[("one", 1)]);

    let (actions, handled) = mux.on_terminal_error(
        "offset_mismatch",
        "no",
        Some(Uuid::from_u128(1)),
        &None,
        Some(4096),
    );

    assert!(handled);
    // Still hosted: a mismatch is resynchronised, not fatal, and above all it does
    // not reconnect a socket that N-1 other terminals are using.
    assert!(mux.hosts("one"));
    assert!(matches!(
        &actions[..],
        [Action::Offer { local_ref, event: Event::Mismatch { next_offset: 4096 } }]
            if local_ref == "one"
    ));
}

#[test]
fn an_error_about_the_connection_is_not_swallowed_as_a_terminal_error() {
    let mut mux = Multiplexer::new(true);
    let (_, handled) = mux.on_terminal_error("unauthorized", "no", None, &None, None);
    assert!(!handled);
}

#[test]
fn a_terminal_that_ends_before_the_relay_opens_it_is_still_closed() {
    let mut mux = Multiplexer::new(true);
    mux.on_control(Control::Open(spec("one")), LIMITS, 64);
    mux.on_control(
        Control::Close {
            local_ref: "one".into(),
            reason: "process_exited".into(),
        },
        LIMITS,
        64,
    );

    // Its `terminal.open` is already in flight, so forgetting it now would mean
    // the close is never sent and the relay is left with a terminal that has
    // nothing behind it.
    let actions = mux.close_finished();
    assert!(mux.hosts("one"), "kept until it has an id");
    assert!(closes(&actions).is_empty(), "nothing to close yet");

    let (mut actions, _) = mux.on_frame(opened("one", 5), LIMITS, true);
    actions.extend(mux.close_finished());
    assert!(!mux.hosts("one"));
    assert_eq!(
        closes(&actions),
        vec![(Uuid::from_u128(5), "process_exited".to_string())]
    );
    let text = actions
        .iter()
        .find_map(|action| match action {
            Action::Send(message @ Outbound::Close { .. }) => message.to_json(),
            _ => None,
        })
        .expect("a close");
    assert!(text.contains("terminal.close"), "{text}");
    assert!(text.contains(&Uuid::from_u128(5).to_text()), "{text}");
}

#[test]
fn the_orphan_sweep_spares_the_terminals_this_connection_opened() {
    let mine = Uuid::from_u128(7);
    let stale = Uuid::from_u128(8);
    let mux = hosting(&[("one", 7)]);

    let actions = mux.sweep_orphans(&[mine, stale]);

    // Exactly one close, for the terminal nothing is behind. Closing `mine` would
    // take down a tab that is mirroring perfectly well.
    assert_eq!(actions.len(), 1);
    assert_eq!(
        closes(&actions),
        vec![(stale, "publisher_replaced".to_string())]
    );
}

#[test]
fn a_request_that_was_answered_is_not_answered_again_after_a_reconnect() {
    let mut mux = Multiplexer::new(true);
    let mut asked = spec("one");
    asked.in_reply_to = Some("request".into());
    let actions = mux.on_control(Control::Open(asked), LIMITS, 64);
    assert!(actions.iter().any(|action| matches!(
        action,
        Action::Send(Outbound::Open { in_reply_to: Some(request), .. }) if request == "request"
    )));
    mux.disconnected();
    let actions = mux.reopen_all();
    assert!(actions.iter().any(|action| matches!(
        action,
        Action::Send(Outbound::Open { in_reply_to: None, local_ref, .. }) if local_ref == "one"
    )));
}

#[test]
fn output_is_framed_for_the_terminal_it_belongs_to() {
    let mut mux = hosting(&[("one", 1)]);
    let actions = mux.on_control(
        Control::Output {
            local_ref: "one".into(),
            start_offset: 9,
            bytes: b"hi".to_vec(),
        },
        LIMITS,
        64,
    );
    let expected = protocol::encode_output_frame(Uuid::from_u128(1), 9, b"hi");
    assert!(matches!(
        &actions[..],
        [Action::Send(Outbound::Frame(bytes))] if *bytes == expected
    ));

    mux.disconnected();
    let actions = mux.on_control(
        Control::Output {
            local_ref: "one".into(),
            start_offset: 9,
            bytes: b"hi".to_vec(),
        },
        LIMITS,
        64,
    );
    assert!(actions.is_empty());
}

#[test]
fn a_full_relay_takes_no_further_terminal() {
    let mut mux = hosting(&[("one", 1)]);
    let actions = mux.on_control(Control::Open(spec("two")), LIMITS, 1);
    assert!(!mux.hosts("two"));
    assert!(matches!(&actions[..], [Action::RefuseOpen(Event::Ended(_))]));
    assert_eq!(mux.count(), 1);
}

#[test]
fn keystrokes_reach_the_shell_they_were_typed_for() {
    let mut mux = hosting(&[("one", 1), ("two", 2)]);
    let mut bytes = vec![protocol::FRAME_TYPE_INPUT];
    bytes.extend_from_slice(&Uuid::from_u128(2).as_bytes());
    bytes.extend_from_slice(&7u64.to_be_bytes());
    bytes.extend_from_slice(b"ls\r");
    let (actions, verdict) = mux.on_frame(Frame::Binary(bytes), LIMITS, true);
    assert!(matches!(verdict, Ok(None)));
    assert!(matches!(
        &actions[..],
        [Action::Deliver { local_ref, event: Event::Input(typed) }]
            if local_ref == "two" && typed == b"ls\r"
    ));
}

#[test]
fn a_ping_is_answered_with_its_own_time() {
    let mut mux = Multiplexer::new(true);
    let (actions, _) = mux.on_frame(
        Frame::Text(Some(ServerMessage::Ping { at_unix_ms: -5 })),
        LIMITS,
        true,
    );
    let texts: Vec<Option<String>> = actions
        .iter()
        .map(|action| match action {
            Action::Send(message) => message.to_json(),
            other => panic!("expected a pong, got {other:?}"),
        })
        .collect();
    assert_eq!(
        texts,
        vec![Some("{\"at_unix_ms\":-5,\"type\":\"pong\"}".to_string())]
    );
}

#[test]
fn messages_are_written_with_their_texts_escaped() {
    let message: Outbound = Outbound::OpenDeclined {
        in_reply_to: "a\"b".into(),
        reason: "busy".into(),
    };
    assert_eq!(
        message.to_json().unwrap(),
        "{\"in_reply_to\":\"a\\\"b\",\"reason\":\"busy\",\"type\":\"terminal.open_declined\"}"
    );
    assert_eq!(Outbound::Frame(vec![1]).to_json(), None);
    assert!(matches!(
        busy("r"),
        Action::Send(Outbound::OpenDeclined { in_reply_to, reason })
            if in_reply_to == "r" && reason == "busy"
    ));
}

#[test]
fn a_greeting_decides_how_the_connection_starts() {
    assert!(check_subprotocol(protocol::SUBPROTOCOL_V2).is_none());
    assert!(matches!(
        check_subprotocol("something else"),
        Some(SessionError::Refused(_))
    ));
    assert!(matches!(
        on_greeting(&Some(ServerMessage::Unrecognised)),
        Greeting::Wait
    ));
    let limits = protocol::Limits {
        max_output_frame_bytes: 10,
        max_unacked_output_bytes: 10,
        max_active_terminals: 0,
        heartbeat_interval_seconds: 30,
        heartbeat_timeout_seconds: 60,
        max_input_frame_bytes: None,
    };
    let (applied, terminals) = apply_limits(limits);
    assert_eq!(applied.max_output_frame_bytes, 1024);
    assert_eq!(applied.max_unacked_output_bytes, 65536);
    assert_eq!(terminals, u64::MAX);
    assert!(matches!(
        on_greeting(&Some(ServerMessage::Ready { connection_id: "c".into(), limits })),
        Greeting::Ready(announced) if announced == limits
    ));
}

#[test]
fn retries_wait_longer_each_time_up_to_a_limit() {
    assert_eq!(retry_delay_ms(0), 500);
    assert_eq!(retry_delay_ms(1), 1000);
    assert_eq!(retry_delay_ms(5), 16_000);
    assert_eq!(retry_delay_ms(6), 30_000);
    assert_eq!(retry_delay_ms(u32::MAX), 30_000);
}

#[test]
fn nothing_follows_a_terminals_close() {
    let mut sink = TerminalSink::new("one".into());
    assert!(matches!(
        sink.publish(4, b"x".to_vec()),
        Handed::Send(Control::Output { local_ref, start_offset: 4, bytes })
            if local_ref == "one" && bytes == b"x"
    ));
    assert!(matches!(sink.publish(4, vec![]), Handed::Nothing));
    assert!(matches!(sink.resize(80, 24), Handed::Send(Control::Resize { .. })));
    assert!(matches!(
        sink.begin_shutdown(),
        Some(Control::Close { reason, .. }) if reason == "process_exited"
    ));
    assert!(sink.begin_shutdown().is_none());
    assert!(matches!(sink.publish(4, b"x".to_vec()), Handed::Refused));
    assert!(matches!(sink.resize(80, 24), Handed::Refused));
}

#[test]
fn a_connection_is_over_when_nobody_is_left() {
    let mux = Multiplexer::new(false);
    assert_eq!(mux.over(false), Some("the last terminal ended"));
    assert_eq!(mux.over(true), None);
    assert!(mux.idle());
    assert_eq!(
        hosting(&[("one", 1)]).local_ref_of(Uuid::from_u128(1)).as_deref(),
        Some("one")
    );
    assert_eq!(hosting(&[("one", 1)]).over(false), None);
    assert!(may_accept(true, 33) && !may_accept(true, 32) && !may_accept(false, 256));
    let id = Uuid::from_u128(3);
    assert_eq!(list_open(&vec!["nonsense".into(), id.to_text()]), vec![id]);
}

#[test]
fn a_request_for_a_terminal_is_forwarded_only_with_consent() {
    let ask = || {
        Frame::Text(Some(ServerMessage::TerminalOpenRequest {
            request_id: "r".into(),
            label: None,
            cols: Some(0),
            rows: Some(100_000),
        }))
    };
    let mut mux = Multiplexer::new(true);
    let (actions, _) = mux.on_frame(ask(), LIMITS, true);
    assert!(matches!(
        &actions[..],
        [Action::Forward(request)] if request.cols == Some(1) && request.rows == Some(65535)
    ));
    let (actions, _) = mux.on_frame(ask(), LIMITS, false);
    assert!(matches!(
        &actions[..],
        [Action::Send(Outbound::OpenDeclined { reason, .. })] if reason == "not_permitted"
    ));
    let (actions, _) = Multiplexer::new(false).on_frame(ask(), LIMITS, true);
    assert!(matches!(
        &actions[..],
        [Action::Send(Outbound::OpenDeclined { reason, .. })] if reason == "unsupported"
    ));
}

#[test]
fn another_publisher_taking_over_ends_the_connection() {
    let mut mux = hosting(&[("one", 1)]);
    let error = |code: &str| {
        Frame::Text(Some(ServerMessage::Error {
            code: code.into(),
            message: "m".into(),
            terminal_id: None,
            request_id: None,
            next_offset: None,
            durable_offset: None,
        }))
    };
    let (_, verdict) = mux.on_frame(error("superseded"), LIMITS, true);
    assert!(matches!(
        verdict,
        Ok(Some(reason)) if reason == "another publisher on this machine took over; only one may publish at a time"
    ));
    let (_, verdict) = mux.on_frame(error("unauthorized"), LIMITS, true);
    assert!(matches!(verdict, Err(SessionError::Refused(words)) if words == "unauthorized: m"));
    let (_, verdict) = mux.on_frame(Frame::Close, LIMITS, true);
    assert!(matches!(verdict, Err(SessionError::Closed(_))));
}
