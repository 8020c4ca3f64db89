use hypeterm::publisher::stream::{Outgoing, Resync, Retained};

#[test]
fn acknowledged_bytes_are_released_and_the_rest_kept() {
    let mut retained = Retained::new();
    retained.append(b"abcdefgh");
    assert_eq!(retained.end(), 8);

    retained.release_through(3);
    assert_eq!(retained.start(), 3);
    assert_eq!(retained.from(3).unwrap(), b"defgh");
    // Everything from the acknowledged point on must still be retransmittable.
    assert_eq!(retained.from(5).unwrap(), b"fgh");
}

#[test]
fn an_offset_below_what_was_released_cannot_be_reconstructed() {
    let mut retained = Retained::new();
    retained.append(b"abcdefgh");
    retained.release_through(4);
    assert!(retained.from(2).is_none());
}

#[test]
fn an_offset_past_the_end_is_refused() {
    let mut retained = Retained::new();
    retained.append(b"abc");
    assert!(retained.from(99).is_none());
    assert_eq!(retained.from(3).unwrap(), b"");
}

#[test]
fn releasing_beyond_what_is_held_does_not_run_past_the_buffer() {
    let mut retained = Retained::new();
    retained.append(b"abc");
    retained.release_through(1000);
    assert_eq!(retained.start(), 3);
    assert!(retained.is_empty());
}

#[test]
fn restarting_forgets_what_was_held() {
    let mut retained = Retained::new();
    retained.append(b"abc");
    retained.restart_at(70);
    assert_eq!(retained.start(), 70);
    assert_eq!(retained.end(), 70);
    assert!(retained.is_empty());
}

#[test]
fn nothing_is_framed_before_the_relay_says_where_the_stream_is() {
    let mut stream = Outgoing::new();
    assert!(!stream.may_send());
    // Framing against a guess would be refused by the relay, not merged.
    assert_eq!(stream.send(b"hello"), None);
}

#[test]
fn a_reconnect_resends_exactly_what_was_not_committed() {
    let mut stream = Outgoing::new();
    stream.attached(0);
    stream.send(b"hello ");
    stream.send(b"world");
    stream.acknowledge(6);
    assert_eq!(stream.unacked(), 5);

    stream.detached();
    // The relay restarted and fell back to what it had committed.
    assert_eq!(
        stream.attached(6),
        Resync::Retransmit {
            start: 6,
            bytes: b"world".to_vec()
        }
    );
    assert_eq!(stream.next_offset(), 11);
}

#[test]
fn a_relay_that_has_gone_backwards_past_the_window_is_not_spliced_over() {
    let mut stream = Outgoing::new();
    stream.attached(0);
    stream.send(b"0123456789");
    stream.acknowledge(8);
    stream.detached();
    // The relay has lost output it already called durable. Continuing from 4 would
    // put different bytes at offsets 4..8 than the ones subscribers already hold,
    // and nothing downstream could ever tell.
    assert_eq!(stream.attached(4), Resync::Unrecoverable);
}

#[test]
fn a_relay_that_is_ahead_of_everything_retained_simply_continues() {
    let mut stream = Outgoing::new();
    // A previous process published under this local_ref and got to 4096.
    assert_eq!(stream.attached(4096), Resync::Nothing);
    assert_eq!(stream.next_offset(), 4096);
    assert_eq!(stream.send(b"more"), Some(4096));
}

#[test]
fn repeated_mismatches_for_one_refusal_are_answered_once() {
    let mut stream = Outgoing::new();
    stream.attached(0);
    stream.send(b"0123456789");

    // Three frames were in flight; the relay refuses each and reports the same
    // authoritative offset every time. Answering more than once would have the two
    // sides trading retransmissions for as long as output kept flowing.
    assert_eq!(
        stream.mismatch(4),
        Resync::Retransmit {
            start: 4,
            bytes: b"456789".to_vec()
        }
    );
    assert_eq!(stream.mismatch(4), Resync::Nothing);
    assert_eq!(stream.mismatch(4), Resync::Nothing);
}

#[test]
fn a_mismatch_below_what_was_released_is_unrecoverable_not_spliced() {
    let mut stream = Outgoing::new();
    stream.attached(0);
    stream.send(b"0123456789");
    stream.acknowledge(8);
    // Resuming from 2 would need bytes that are gone. Splicing the stream is worse
    // than closing the terminal, because nothing downstream could ever detect it.
    assert_eq!(stream.mismatch(2), Resync::Unrecoverable);
}

#[test]
fn the_unacknowledged_window_gates_sending() {
    let mut stream = Outgoing::new();
    stream.set_window(128 * 1024);
    stream.attached(0);
    assert!(stream.may_send());
    stream.send(&[0u8; 200 * 1024]);
    // Over the relay's window: continuing would have the connection closed for
    // every terminal on it, not just this one.
    assert!(!stream.may_send());
    stream.acknowledge(200 * 1024);
    assert!(stream.may_send());
}

#[test]
fn the_window_never_drops_below_the_schema_minimum() {
    let mut stream = Outgoing::new();
    stream.set_window(1);
    stream.attached(0);
    stream.send(&[0u8; 1024]);
    assert!(stream.may_send());
}

#[test]
fn a_detached_stream_takes_nothing_until_it_is_attached_again() {
    let mut stream = Outgoing::new();
    stream.attached(0);
    assert!(stream.positioned());
    assert_eq!(stream.send(b"abc"), Some(0));
    stream.detached();
    assert!(!stream.positioned());
    assert_eq!(stream.send(b"def"), None);
    assert_eq!(
        stream.attached(0),
        Resync::Retransmit {
            start: 0,
            bytes: b"abc".to_vec()
        }
    );
}
