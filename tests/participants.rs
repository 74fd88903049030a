use visio_core::events::{ConnectionQuality, ParticipantInfo};
use visio_core::participants::ParticipantManager;

fn make_participant(sid: &str, name: &str) -> ParticipantInfo {
    ParticipantInfo {
        sid: sid.to_string(),
        identity: format!("identity-{sid}"),
        name: Some(name.to_string()),
        is_muted: false,
        has_video: false,
        video_track_sid: None,
        connection_quality: ConnectionQuality::Good,
    }
}

#[test]
fn add_and_retrieve_participant() {
    let mut mgr = ParticipantManager::new();
    mgr.add_participant(make_participant("p1", "Alice"));
    assert_eq!(mgr.participant_count(), 1);
    assert_eq!(mgr.participant("p1").unwrap().name.as_deref(), Some("Alice"));
}

#[test]
fn no_duplicate_participants() {
    let mut mgr = ParticipantManager::new();
    mgr.add_participant(make_participant("p1", "Alice"));
    mgr.add_participant(make_participant("p1", "Alice"));
    assert_eq!(mgr.participant_count(), 1);
}

#[test]
fn remove_participant() {
    let mut mgr = ParticipantManager::new();
    mgr.add_participant(make_participant("p1", "Alice"));
    mgr.add_participant(make_participant("p2", "Bob"));
    mgr.remove_participant("p1");
    assert_eq!(mgr.participant_count(), 1);
    assert!(mgr.participant("p1").is_none());
    assert!(mgr.participant("p2").is_some());
}

#[test]
fn active_speakers() {
    let mut mgr = ParticipantManager::new();
    mgr.add_participant(make_participant("p1", "Alice"));
    mgr.set_active_speakers(vec!["p1".to_string()]);
    assert_eq!(mgr.active_speakers(), &["p1"]);
}

#[test]
fn clear_resets_everything() {
    let mut mgr = ParticipantManager::new();
    mgr.set_local_sid("local".to_string());
    mgr.add_participant(make_participant("p1", "Alice"));
    mgr.set_active_speakers(vec!["p1".to_string()]);
    mgr.clear();
    assert_eq!(mgr.participant_count(), 0);
    assert!(mgr.active_speakers().is_empty());
    assert!(mgr.local_sid().is_none());
}

#[test]
fn add_remove_sequence_counts_distinct_sids() {
    let mut mgr = ParticipantManager::new();
    for sid in ["a", "b", "a", "c", "b"] {
        mgr.add_participant(make_participant(sid, sid));
    }
    assert_eq!(mgr.participant_count(), 3);
    mgr.remove_participant("b");
    mgr.remove_participant("zz");
    mgr.remove_participant("b");
    assert_eq!(mgr.participant_count(), 2);
    mgr.add_participant(make_participant("b", "again"));
    let sids: Vec<&str> = mgr.participants().iter().map(|p| p.sid.as_str()).collect();
    assert_eq!(sids, vec!["a", "c", "b"]);
}

#[test]
fn removing_participant_drops_it_from_speakers() {
    let mut mgr = ParticipantManager::new();
    mgr.add_participant(make_participant("p1", "Alice"));
    mgr.add_participant(make_participant("p2", "Bob"));
    mgr.set_active_speakers(vec!["p1".to_string(), "p2".to_string()]);
    mgr.remove_participant("p1");
    assert_eq!(mgr.active_speakers(), &["p2"]);
}

#[test]
fn updates_touch_only_the_named_participant() {
    let mut mgr = ParticipantManager::new();
    mgr.add_participant(make_participant("p1", "Alice"));
    mgr.add_participant(make_participant("p2", "Bob"));
    mgr.set_video("p2", Some("tv".to_string()));
    mgr.set_muted("p2", true);
    mgr.set_quality("p2", ConnectionQuality::Poor);
    mgr.set_muted("nobody", true);
    let p2 = mgr.participant("p2").unwrap();
    assert!(p2.has_video && p2.is_muted);
    assert_eq!(p2.video_track_sid.as_deref(), Some("tv"));
    assert_eq!(p2.connection_quality, ConnectionQuality::Poor);
    let p1 = mgr.participant("p1").unwrap();
    assert!(!p1.has_video && !p1.is_muted);
    mgr.set_video("p2", None);
    assert!(!mgr.participant("p2").unwrap().has_video);
}
