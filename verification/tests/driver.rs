use hypeterm::ids::Uuid;
use hypeterm::publisher::publish::{send_output, Driver, FromOwner, Notice, Request, Step};
use hypeterm::publisher::session::{Event, Limits};

fn limits() -> Limits {
    Limits {
        // The relay's schema floor for a frame is 1024 bytes, and the driver holds
        // to it, so a test that asks for less is testing nothing real.
        max_output_frame_bytes: 1024,
        max_unacked_output_bytes: 64 * 1024,
    }
}

fn attach(next_offset: u64) -> Option<Event> {
    Some(Event::Attached {
        terminal_id: Uuid::from_u128(1),
        next_offset,
        limits: limits(),
    })
}

fn publish(driver: &mut Driver, bytes: &[u8]) -> Step {
    driver.on_owner(Some(FromOwner::Output(bytes.to_vec())))
}

/// One turn of the driver's loop: what the input came to, then what was waiting.
fn turn(driver: &mut Driver, step: Step) -> Vec<Request> {
    let mut requests = step.requests;
    requests.extend(driver.settle().requests);
    requests
}

fn output(request: &Request) -> (u64, &[u8]) {
    match request {
        Request::Output {
            start_offset,
            bytes,
        } => (*start_offset, bytes),
        other => panic!("expected output, got {other:?}"),
    }
}

#[test]
fn output_waits_for_the_relay_to_say_where_the_stream_is() {
    let mut driver = Driver::new();

    // Published before the relay has attached anything: nothing may be framed yet,
    // because a guessed start offset is refused rather than merged.
    let step = publish(&mut driver, b"early");
    assert!(turn(&mut driver, step).is_empty());
    assert!(!driver.wants_owner());
    assert_eq!(driver.waiting_len(), 5);

    let step = driver.on_event(attach(0));
    let requests = turn(&mut driver, step);

    // It waited rather than being dropped: the shell wrote it, so the mirror owes
    // it to every subscriber, and it belongs at the front of the stream.
    assert_eq!(requests.len(), 1);
    assert_eq!(output(&requests[0]), (0, &b"early"[..]));

    let step = publish(&mut driver, b"later");
    let requests = turn(&mut driver, step);
    assert_eq!(requests.len(), 1);
    assert_eq!(output(&requests[0]), (5, &b"later"[..]));
}

#[test]
fn frames_are_split_to_the_relays_limit() {
    let mut driver = Driver::new();
    let step = driver.on_event(attach(0));
    assert!(turn(&mut driver, step).is_empty());

    let payload: Vec<u8> = (0..1500u32).map(|i| (i % 251) as u8).collect();
    let step = publish(&mut driver, &payload);
    let requests = turn(&mut driver, step);

    // Offsets must stay contiguous across the split, or every frame after the
    // first is refused for a mismatch.
    assert_eq!(requests.len(), 2);
    assert_eq!(output(&requests[0]), (0, &payload[..1024]));
    assert_eq!(output(&requests[1]), (1024, &payload[1024..]));
}

#[test]
fn a_reconnect_resends_what_was_never_committed() {
    let mut driver = Driver::new();
    driver.on_event(attach(0));
    let step = publish(&mut driver, b"hello world");
    assert!(matches!(turn(&mut driver, step)[0], Request::Output { .. }));

    driver.on_event(Some(Event::Ack { durable_offset: 6 }));
    driver.on_event(Some(Event::Detached));
    // The relay restarted and fell back to what it had committed. The bytes are
    // here, in the process that owns the shell, which is the point of holding them
    // here rather than wherever the connection happens to live.
    let step = driver.on_event(attach(6));
    let requests = turn(&mut driver, step);
    assert_eq!(requests.len(), 1);
    assert_eq!(output(&requests[0]), (6, &b"world"[..]));
}

#[test]
fn input_reaches_the_owner() {
    let mut driver = Driver::new();
    let step = driver.on_event(Some(Event::Input(b"ls\r".to_vec())));
    assert_eq!(step.notices.len(), 1);
    assert!(matches!(&step.notices[0], Notice::Input(bytes) if bytes == b"ls\r"));
    assert!(!step.finished);
}

#[test]
fn a_terminal_that_ends_is_closed_once_and_only_once() {
    let mut driver = Driver::new();
    driver.on_event(attach(0));
    let step = publish(&mut driver, b"bye");
    assert!(matches!(turn(&mut driver, step)[0], Request::Output { .. }));
    let step = driver.on_event(Some(Event::Ack { durable_offset: 3 }));
    assert!(turn(&mut driver, step).is_empty());

    // The shell is gone.
    let step = driver.on_owner(None);
    let requests = turn(&mut driver, step);
    assert_eq!(requests.len(), 1);
    match &requests[0] {
        Request::Close { reason } => assert_eq!(reason, "process_exited"),
        other => panic!("expected a close, got {other:?}"),
    }

    // Exactly one. A closed channel answers `None` the instant it is polled, so a
    // driver that did not latch this would sit in a tight loop sending closes.
    assert!(!driver.wants_owner());
    assert!(driver.settle().requests.is_empty());
    assert!(
        driver.settle().requests.is_empty(),
        "the close was sent more than once"
    );
}

#[test]
fn a_close_waits_for_the_last_output_to_be_committed() {
    let mut driver = Driver::new();
    driver.on_event(attach(0));
    publish(&mut driver, b"bye");
    driver.on_owner(None);
    assert!(driver.settle().requests.is_empty());
    driver.on_event(Some(Event::Ack { durable_offset: 3 }));
    let requests = driver.settle().requests;
    assert!(matches!(&requests[..], [Request::Close { reason }] if reason == "process_exited"));
}

#[test]
fn losing_the_place_in_the_stream_closes_the_terminal_rather_than_splicing() {
    let mut driver = Driver::new();
    driver.on_event(attach(0));
    let step = publish(&mut driver, b"0123456789");
    assert!(matches!(turn(&mut driver, step)[0], Request::Output { .. }));
    driver.on_event(Some(Event::Ack { durable_offset: 9 }));

    // The relay asks to resume from before what has been released. A gap here
    // would be invisible to every subscriber for ever, so the terminal ends.
    let step = driver.on_event(Some(Event::Mismatch { next_offset: 2 }));
    match &step.requests[0] {
        Request::Close { reason } => assert_eq!(reason, "publisher_desynchronised"),
        other => panic!("expected a close, got {other:?}"),
    }
    assert!(matches!(
        &step.notices[0],
        Notice::Ended(words) if words == "the mirror lost its place in this terminal's output and stopped rather than show a gap"
    ));
    assert!(step.finished);
}

#[test]
fn the_owner_is_not_read_while_the_window_is_full() {
    let mut driver = Driver::new();
    driver.on_event(attach(0));
    let step = publish(&mut driver, &[7u8; 70_000]);
    assert_eq!(step.requests.len(), 69);
    let step = publish(&mut driver, b"more");
    assert!(turn(&mut driver, step).is_empty());
    assert!(!driver.wants_owner());

    let step = driver.on_event(Some(Event::Ack {
        durable_offset: 70_000,
    }));
    let requests = turn(&mut driver, step);
    assert_eq!(output(&requests[0]), (70_000, &b"more"[..]));
    assert!(driver.wants_owner());
    assert!(driver.has_room_for(1));
}

#[test]
fn a_transport_that_ends_is_reported() {
    let mut driver = Driver::new();
    let step = driver.on_event(None);
    assert!(matches!(&step.notices[0], Notice::Ended(words) if words == "mirroring stopped"));
    assert!(step.finished);

    let step = driver.on_event(Some(Event::ResizeRequest { cols: 90, rows: 30 }));
    assert!(matches!(
        &step.notices[0],
        Notice::Resize { cols: 90, rows: 30 }
    ));
    let step = driver.on_owner(Some(FromOwner::Resize { cols: 80, rows: 25 }));
    assert!(matches!(
        &step.requests[0],
        Request::Resize { cols: 80, rows: 25 }
    ));
}

#[test]
fn an_empty_chunk_needs_no_frame() {
    assert!(send_output(10, b"", 1024).is_empty());
    assert_eq!(send_output(10, b"abcde", 2).len(), 3);
}

#[test]
fn the_relay_has_what_the_shell_wrote() {
    // A relay that appends a frame only where its copy ends, loses its connection and
    // falls back to what it had committed.
    fn arrive(copy: &mut Vec<u8>, requests: &[Request], base: u64) {
        for request in requests {
            if let Request::Output {
                start_offset,
                bytes,
            } = request
            {
                if *start_offset == base + copy.len() as u64 {
                    copy.extend_from_slice(bytes);
                }
            }
        }
    }
    let base = 100;
    let mut driver = Driver::new();
    let mut copy = Vec::new();
    let mut written = Vec::new();
    let step = driver.on_event(attach(base));
    arrive(&mut copy, &step.requests, base);
    for round in 0..5u8 {
        let chunk = vec![round; 1500];
        written.extend_from_slice(&chunk);
        let step = publish(&mut driver, &chunk);
        let requests = turn(&mut driver, step);
        if round == 2 {
            // These frames are lost with the connection, and so is what was not
            // committed.
            copy.truncate(2000);
            driver.on_event(Some(Event::Detached));
            let step = driver.on_event(attach(base + 2000));
            let requests = turn(&mut driver, step);
            arrive(&mut copy, &requests, base);
            // The old frames arrive late, after all.
            arrive(&mut copy, &requests, base);
        } else {
            arrive(&mut copy, &requests, base);
        }
        assert!(written.starts_with(&copy));
    }
    assert_eq!(copy, written);
}
