use notes_sync::frame::WsMessage;
use notes_sync::relay::{PollReply, Relay};

const NOTE_A: u128 = 0x1111;
const NOTE_B: u128 = 0x2222;

fn msg_content(r: PollReply) -> Option<(u128, Vec<u8>)> {
    match r {
        PollReply::Message(WsMessage::Sync { note_id, content }) => Some((note_id, content)),
        _ => None,
    }
}

#[test]
fn fanout_reaches_every_subscriber_including_sender() {
    let mut relay = Relay::new(16);
    let s1 = relay.subscribe(NOTE_A).unwrap();
    let s2 = relay.subscribe(NOTE_A).unwrap();
    let s3 = relay.subscribe(NOTE_A).unwrap();
    relay.publish(NOTE_A, b"hello");
    for sid in [s1, s2, s3] {
        let (note, content) = msg_content(relay.poll_message(sid)).unwrap();
        assert_eq!(note, NOTE_A);
        assert_eq!(content, b"hello".to_vec());
        assert!(matches!(relay.poll_message(sid), PollReply::Empty));
    }
}

#[test]
fn topic_isolation_between_notes() {
    let mut relay = Relay::new(16);
    let sa = relay.subscribe(NOTE_A).unwrap();
    let sb = relay.subscribe(NOTE_B).unwrap();
    relay.publish(NOTE_A, b"for a");
    relay.publish(NOTE_B, b"for b");
    relay.publish(NOTE_A, b"again a");
    let (note, content) = msg_content(relay.poll_message(sb)).unwrap();
    assert_eq!(note, NOTE_B);
    assert_eq!(content, b"for b".to_vec());
    assert!(matches!(relay.poll_message(sb), PollReply::Empty));
    let (note, content) = msg_content(relay.poll_message(sa)).unwrap();
    assert_eq!(note, NOTE_A);
    assert_eq!(content, b"for a".to_vec());
    let (_, content) = msg_content(relay.poll_message(sa)).unwrap();
    assert_eq!(content, b"again a".to_vec());
}

#[test]
fn delivery_keeps_publish_order_per_subscriber() {
    let mut relay = Relay::new(16);
    let sid = relay.subscribe(NOTE_A).unwrap();
    relay.publish(NOTE_A, b"one");
    relay.publish(NOTE_A, b"two");
    relay.publish(NOTE_A, b"three");
    let texts: Vec<Vec<u8>> = (0..3)
        .map(|_| msg_content(relay.poll_message(sid)).unwrap().1)
        .collect();
    assert_eq!(texts, vec![b"one".to_vec(), b"two".to_vec(), b"three".to_vec()]);
}

#[test]
fn unsubscribe_cleans_up_and_later_publishes_still_work() {
    let mut relay = Relay::new(16);
    let sa = relay.subscribe(NOTE_A).unwrap();
    let sb = relay.subscribe(NOTE_A).unwrap();
    assert!(relay.unsubscribe(sa));
    assert!(!relay.unsubscribe(sa));
    relay.publish(NOTE_A, b"after");
    assert!(matches!(relay.poll_message(sa), PollReply::Gone));
    let (_, content) = msg_content(relay.poll_message(sb)).unwrap();
    assert_eq!(content, b"after".to_vec());
}

#[test]
fn slow_subscriber_is_marked_lagged_not_others() {
    let mut relay = Relay::new(1);
    let slow = relay.subscribe(NOTE_A).unwrap();
    let fast = relay.subscribe(NOTE_A).unwrap();
    relay.publish(NOTE_A, b"first");
    // fast drains, slow does not
    assert!(msg_content(relay.poll_message(fast)).is_some());
    relay.publish(NOTE_A, b"second");
    assert!(matches!(relay.poll_message(slow), PollReply::Lagged));
    let (_, content) = msg_content(relay.poll_message(fast)).unwrap();
    assert_eq!(content, b"second".to_vec());
    // the lagged session must be disconnected by its connection loop
    assert!(relay.unsubscribe(slow));
}

#[test]
fn session_identifiers_are_never_reused() {
    let mut relay = Relay::new(4);
    let a = relay.subscribe(NOTE_A).unwrap();
    relay.unsubscribe(a);
    let b = relay.subscribe(NOTE_A).unwrap();
    assert_ne!(a, b);
}

#[test]
fn malformed_frames_are_silently_dropped() {
    let mut relay = Relay::new(8);
    let sid = relay.subscribe(NOTE_A).unwrap();
    // no delimiter at all
    assert!(!relay.handle_frame(b"no delimiter here"));
    // prefix is not a parsable identifier
    assert!(!relay.handle_frame(b"not-a-uuid:payload"));
    assert!(!relay.handle_frame(b":payload"));
    // the session survives and observed nothing
    assert!(matches!(relay.poll_message(sid), PollReply::Empty));
}

#[test]
fn well_formed_frames_are_published_to_their_note() {
    let mut relay = Relay::new(8);
    let id_text = "550e8400-e29b-41d4-a716-446655440000";
    let note = uuid::Uuid::parse_str(id_text).unwrap().as_u128();
    let sid = relay.subscribe(note).unwrap();
    let other = relay.subscribe(NOTE_B).unwrap();
    let mut frame = Vec::new();
    frame.extend_from_slice(id_text.as_bytes());
    frame.push(b':');
    frame.extend_from_slice(b"live edit");
    assert!(relay.handle_frame(&frame));
    let (got_note, content) = msg_content(relay.poll_message(sid)).unwrap();
    assert_eq!(got_note, note);
    assert_eq!(content, b"live edit".to_vec());
    assert!(matches!(relay.poll_message(other), PollReply::Empty));
}
