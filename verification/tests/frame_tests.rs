use notes_sync::frame::{encode_frame, parse_frame, WsMessage};

const ID_TEXT: &str = "550e8400-e29b-41d4-a716-446655440000";

fn id_value() -> u128 {
    uuid::Uuid::parse_str(ID_TEXT).unwrap().as_u128()
}

fn frame_of(id_text: &str, content: &[u8]) -> Vec<u8> {
    let mut f = Vec::new();
    f.extend_from_slice(id_text.as_bytes());
    f.push(b':');
    f.extend_from_slice(content);
    f
}

#[test]
fn parse_canonical_frame() {
    let parsed = parse_frame(&frame_of(ID_TEXT, b"hello")).unwrap();
    let WsMessage::Sync { note_id, content } = parsed;
    assert_eq!(note_id, id_value());
    assert_eq!(content, b"hello".to_vec());
}

#[test]
fn parse_splits_at_first_colon_only() {
    let parsed = parse_frame(&frame_of(ID_TEXT, b"a:b:c")).unwrap();
    let WsMessage::Sync { content, .. } = parsed;
    assert_eq!(content, b"a:b:c".to_vec());
}

#[test]
fn parse_allows_empty_content() {
    let parsed = parse_frame(&frame_of(ID_TEXT, b"")).unwrap();
    let WsMessage::Sync { note_id, content } = parsed;
    assert_eq!(note_id, id_value());
    assert!(content.is_empty());
}

#[test]
fn parse_rejects_frame_without_delimiter() {
    assert!(parse_frame(b"just some text").is_none());
    assert!(parse_frame(b"").is_none());
    assert!(parse_frame(ID_TEXT.as_bytes()).is_none());
}

#[test]
fn parse_rejects_unparsable_identifier_prefix() {
    assert!(parse_frame(b"xyz:payload").is_none());
    assert!(parse_frame(b":payload").is_none());
    assert!(parse_frame(b"550e8400-e29b-41d4-a716:payload").is_none());
}

#[test]
fn encode_produces_canonical_frame() {
    let msg = WsMessage::Sync { note_id: id_value(), content: b"body text".to_vec() };
    let encoded = encode_frame(&msg);
    assert_eq!(encoded, frame_of(ID_TEXT, b"body text"));
}

#[test]
fn encode_then_parse_round_trips() {
    let msg = WsMessage::Sync { note_id: 12345678901234567890u128, content: b"x:y".to_vec() };
    let encoded = encode_frame(&msg);
    let parsed = parse_frame(&encoded).unwrap();
    let WsMessage::Sync { note_id, content } = parsed;
    assert_eq!(note_id, 12345678901234567890u128);
    assert_eq!(content, b"x:y".to_vec());
}

#[test]
fn echoed_frame_is_byte_identical() {
    // an echo of a canonical frame re-encodes to exactly the same bytes
    let original = frame_of(ID_TEXT, b"hello");
    let msg = parse_frame(&original).unwrap();
    assert_eq!(encode_frame(&msg), original);
}
