use visio_core::events::VisioEvent;
use visio_core::hand_raise::HandRaiseManager;
use visio_core::timestamps::{order_value_from, parse_i64, raise_attribute_text, raise_timestamp_millis};

fn hand(e: &VisioEvent) -> (String, bool, u32) {
    match e {
        VisioEvent::HandRaisedChanged { participant_sid, raised, position } => (participant_sid.clone(), *raised, *position),
        other => panic!("unexpected {other:?}"),
    }
}

#[test]
fn raise_order_gives_positions_and_reraise_goes_last() {
    let mut hm = HandRaiseManager::new("local".to_string());
    assert_eq!(hm.raise("A".to_string(), 1_000), 1);
    assert_eq!(hm.raise("B".to_string(), 2_000), 2);
    assert_eq!(hm.raise("C".to_string(), 3_000), 3);
    hm.lower("B");
    assert_eq!(hm.position("C"), 2);
    assert_eq!(hm.raise("B".to_string(), 4_000), 3);
    assert_eq!(hm.position("A"), 1);
}

#[test]
fn raising_twice_keeps_first_entry() {
    let mut hm = HandRaiseManager::new("local".to_string());
    assert_eq!(hm.raise("A".to_string(), 5_000), 1);
    assert_eq!(hm.raise("B".to_string(), 6_000), 2);
    assert_eq!(hm.raise("A".to_string(), 9_000), 1);
}

#[test]
fn equal_timestamps_keep_arrival_order() {
    let mut hm = HandRaiseManager::new("local".to_string());
    hm.raise("A".to_string(), 7);
    hm.raise("B".to_string(), 7);
    assert_eq!(hm.position("A"), 1);
    assert_eq!(hm.position("B"), 2);
    hm.raise("C".to_string(), 3);
    assert_eq!(hm.position("C"), 1);
}

#[test]
fn manual_lower_beats_auto_lower_timer() {
    let mut hm = HandRaiseManager::new("me".to_string());
    let e = hm.raise_hand(1_000);
    assert_eq!(hand(&e), ("me".to_string(), true, 1));
    let token = hm.start_auto_lower(&vec!["me".to_string()]).expect("timer starts");
    let lowered = hm.lower_hand();
    assert_eq!(hand(&lowered), ("me".to_string(), false, 0));
    assert!(hm.auto_lower_fired(token).is_none());
    assert!(!hm.is_hand_raised());
}

#[test]
fn auto_lower_fires_exactly_once() {
    let mut hm = HandRaiseManager::new("me".to_string());
    hm.raise_hand(1_000);
    let token = hm.start_auto_lower(&vec!["other".to_string(), "me".to_string()]).expect("timer starts");
    let fired = hm.auto_lower_fired(token).expect("hand lowered");
    assert_eq!(hand(&fired), ("me".to_string(), false, 0));
    assert!(!hm.is_hand_raised());
    assert!(hm.auto_lower_fired(token).is_none());
}

#[test]
fn new_speaker_change_supersedes_pending_check() {
    let mut hm = HandRaiseManager::new("me".to_string());
    hm.raise_hand(1_000);
    let first = hm.start_auto_lower(&vec!["me".to_string()]).unwrap();
    let second = hm.start_auto_lower(&vec!["me".to_string()]).unwrap();
    assert_ne!(first, second);
    assert!(hm.auto_lower_fired(first).is_none());
    assert!(hm.is_hand_raised());
    assert!(hm.auto_lower_fired(second).is_some());
}

#[test]
fn not_speaking_or_not_raised_starts_nothing() {
    let mut hm = HandRaiseManager::new("me".to_string());
    assert!(hm.start_auto_lower(&vec!["me".to_string()]).is_none());
    hm.raise_hand(10);
    let t = hm.start_auto_lower(&vec!["me".to_string()]).unwrap();
    assert!(hm.start_auto_lower(&vec!["other".to_string()]).is_none());
    assert!(hm.auto_lower_fired(t).is_none());
    assert!(hm.is_hand_raised());
}

#[test]
fn attribute_changes_raise_and_lower() {
    let mut hm = HandRaiseManager::new("me".to_string());
    let e = hm.handle_participant_attributes("p2".to_string(), "2024-01-01T00:00:01.000Z");
    assert_eq!(hand(&e), ("p2".to_string(), true, 1));
    let e = hm.handle_participant_attributes("p3".to_string(), "1704067200000");
    assert_eq!(hand(&e), ("p3".to_string(), true, 1));
    let e = hm.handle_participant_attributes("p4".to_string(), "not a time");
    assert_eq!(hand(&e), ("p4".to_string(), true, 1));
    assert_eq!(hm.position("p2"), 3);
    let e = hm.handle_participant_attributes("p3".to_string(), "");
    assert_eq!(hand(&e), ("p3".to_string(), false, 0));
    assert_eq!(hm.position("p2"), 2);
}

#[test]
fn clear_forgets_hands_and_timer() {
    let mut hm = HandRaiseManager::new("me".to_string());
    hm.raise_hand(5);
    let t = hm.start_auto_lower(&vec!["me".to_string()]).unwrap();
    hm.clear();
    assert!(!hm.is_hand_raised());
    assert!(hm.auto_lower_fired(t).is_none());
}

#[test]
fn timestamps_parse_rfc3339_then_integer_then_zero() {
    assert_eq!(raise_timestamp_millis("2024-01-01T00:00:00.000Z"), 1_704_067_200_000);
    assert_eq!(raise_timestamp_millis("2024-01-01T01:00:00.250+01:00"), 1_704_067_200_250);
    assert_eq!(raise_timestamp_millis("12345"), 12_345);
    assert_eq!(raise_timestamp_millis("-7"), -7);
    assert_eq!(raise_timestamp_millis("garbage"), 0);
    assert_eq!(raise_timestamp_millis("99999999999999999999"), 0);
    assert_eq!(order_value_from(Some(42), "ignored"), 42);
    assert_eq!(order_value_from(None, "+17"), 17);
    assert_eq!(order_value_from(None, " 17"), 0);
}

#[test]
fn raise_attribute_is_iso_with_millis() {
    assert_eq!(raise_attribute_text(1_704_067_200_123).as_deref(), Some("2024-01-01T00:00:00.123Z"));
    assert!(raise_attribute_text(8_210_266_876_799_999).is_some());
    assert!(raise_attribute_text(-8_334_601_228_800_000).is_some());
    assert!(raise_attribute_text(8_210_266_876_800_000).is_none());
    assert!(raise_attribute_text(-8_334_601_228_800_001).is_none());
    assert!(raise_attribute_text(i64::MAX).is_none());
}

#[test]
fn integer_parse_matches_std() {
    for s in ["0", "-0", "+5", "-9223372036854775808", "9223372036854775807", "9223372036854775808", "-9223372036854775809", "", "-", "+", "1a", " 1", "00042", "+-1"] {
        assert_eq!(parse_i64(s), s.parse::<i64>().ok(), "input {s:?}");
    }
}
