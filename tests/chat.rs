use visio_core::chat::{decode_legacy_chat, decode_legacy_envelope, legacy_envelope_message, ChatService};
use visio_core::events::{ChatMessage, VisioEvent};

fn msg(text: &str) -> ChatMessage {
    ChatMessage {
        id: "m1".to_string(),
        sender_sid: "p1".to_string(),
        sender_name: "Alice".to_string(),
        text: text.to_string(),
        timestamp_ms: 5,
    }
}

#[test]
fn legacy_payload_is_decoded() {
    let payload = br#"{"id":"x1","message":"hi","timestamp":77}"#;
    let m = decode_legacy_chat(payload, "p9".to_string(), "Zoe".to_string()).unwrap();
    assert_eq!(m.id, "x1");
    assert_eq!(m.text, "hi");
    assert_eq!(m.timestamp_ms, 77);
    assert_eq!(m.sender_sid, "p9");
    assert_eq!(m.sender_name, "Zoe");
}

#[test]
fn legacy_payload_flagged_or_malformed_is_dropped() {
    let flagged = br#"{"id":"x1","message":"hello","ignoreLegacy":true}"#;
    assert!(decode_legacy_chat(flagged, "p".to_string(), "n".to_string()).is_none());
    let not_json = b"hello";
    assert!(decode_legacy_envelope(not_json).is_none());
    assert!(decode_legacy_envelope(&[0xff, 0xfe]).is_none());
}

#[test]
fn unflagged_legacy_payload_without_text_is_recorded() {
    let empty_text = br#"{"message":""}"#;
    let m = decode_legacy_chat(empty_text, "p".to_string(), "n".to_string()).unwrap();
    assert_eq!(m.text, "");
    let no_fields = br#"{"ignoreLegacy":false}"#;
    let m = decode_legacy_chat(no_fields, "p".to_string(), "n".to_string()).unwrap();
    assert_eq!((m.id.as_str(), m.text.as_str(), m.timestamp_ms), ("", "", 0));
    assert!(decode_legacy_chat(b"[1,2]", "p".to_string(), "n".to_string()).is_some());
}

#[test]
fn legacy_envelope_fields_read() {
    let env = decode_legacy_envelope(br#"{"ignoreLegacy":false,"message":"yo","timestamp":"late"}"#).unwrap();
    assert_eq!(env.ignore_legacy, Some(false));
    assert_eq!(env.message.as_deref(), Some("yo"));
    assert_eq!(env.id, None);
    assert_eq!(env.timestamp, None);
    let m = legacy_envelope_message(env.ignore_legacy, env.id, env.message, env.timestamp, "s".to_string(), "n".to_string()).unwrap();
    assert_eq!(m.id, "");
    assert_eq!(m.timestamp_ms, 0);
}

#[test]
fn unread_count_follows_panel_state() {
    let mut chat = ChatService::new();
    let events = chat.handle_incoming(msg("one"));
    assert_eq!(events.len(), 2);
    assert!(matches!(events[1], VisioEvent::UnreadCountChanged(1)));
    chat.handle_incoming(msg("two"));
    assert_eq!(chat.unread_count(), 2);
    assert!(matches!(chat.set_chat_open(true), Some(VisioEvent::UnreadCountChanged(0))));
    assert_eq!(chat.unread_count(), 0);
    assert_eq!(chat.handle_incoming(msg("three")).len(), 1);
    assert_eq!(chat.unread_count(), 0);
    assert!(chat.set_chat_open(false).is_none());
    assert_eq!(chat.messages().len(), 3);
    chat.clear();
    assert!(chat.messages().is_empty());
}
