use visio_core::events::{ChatMessage, ConnectionQuality, ConnectionState, TrackKind, TrackSource, VisioError, VisioEvent};
use visio_core::session::{local_participant_info, remote_participant_info, RoomSession, SessionEffect, SessionEvent};

fn info(sid: &str) -> visio_core::events::ParticipantInfo {
    remote_participant_info(sid.to_string(), format!("id-{sid}"), sid.to_string(), &vec![])
}

fn connected_session() -> RoomSession {
    let mut s = RoomSession::new();
    s.begin_connect();
    s.connected("me".to_string(), vec![info("p1")]);
    s
}

fn emitted(effects: &[SessionEffect]) -> Vec<&VisioEvent> {
    effects
        .iter()
        .filter_map(|e| match e {
            SessionEffect::Emit(v) => Some(v),
            _ => None,
        })
        .collect()
}

fn chat(text: &str) -> ChatMessage {
    ChatMessage {
        id: "s1".to_string(),
        sender_sid: "p1".to_string(),
        sender_name: "p1".to_string(),
        text: text.to_string(),
        timestamp_ms: 1,
    }
}

#[test]
fn connection_states_follow_events() {
    let mut s = connected_session();
    assert_eq!(s.connection_state(), ConnectionState::Connected);
    s.handle_event(SessionEvent::Reconnecting);
    assert_eq!(s.connection_state(), ConnectionState::Reconnecting { attempt: 1 });
    s.handle_event(SessionEvent::Reconnecting);
    assert_eq!(s.connection_state(), ConnectionState::Reconnecting { attempt: 2 });
    s.handle_event(SessionEvent::Reconnected);
    assert_eq!(s.connection_state(), ConnectionState::Connected);
    s.handle_event(SessionEvent::Reconnecting);
    assert_eq!(s.connection_state(), ConnectionState::Reconnecting { attempt: 1 });
}

#[test]
fn disconnected_event_empties_everything() {
    let mut s = connected_session();
    s.handle_event(SessionEvent::ParticipantConnected(info("p2")));
    s.handle_event(SessionEvent::ChatStreamRead(chat("hello")));
    s.handle_event(SessionEvent::TrackSubscribed {
        track_sid: "tv".to_string(),
        participant_sid: "p2".to_string(),
        kind: TrackKind::Video,
        source: TrackSource::Camera,
    });
    s.start_renderer("tv".to_string(), 7);
    s.raise_hand(100).unwrap();
    let effects = s.handle_event(SessionEvent::Disconnected);
    assert!(matches!(effects.last(), Some(SessionEffect::Close)));
    assert!(effects.iter().any(|e| matches!(e, SessionEffect::CancelRenderer(h) if h.surface == 7 && h.cancelled)));
    assert_eq!(s.connection_state(), ConnectionState::Disconnected);
    assert!(s.participants().is_empty());
    assert!(s.chat_messages().is_empty());
    assert!(s.video_track_sids().is_empty());
    assert!(!s.is_hand_raised());
    assert_eq!(s.renderer_surface("tv"), None);
    assert_eq!(s.raise_hand(1).unwrap_err(), VisioError::Room("not connected".to_string()));
}

#[test]
fn disconnect_effects_in_order() {
    let mut s = connected_session();
    s.start_renderer("a".to_string(), 1);
    s.start_renderer("b".to_string(), 2);
    let effects = s.handle_event(SessionEvent::Disconnected);
    assert_eq!(effects.len(), 6);
    assert!(matches!(&effects[0], SessionEffect::Emit(VisioEvent::ConnectionStateChanged(ConnectionState::Disconnected))));
    assert!(matches!(effects[1], SessionEffect::ClearPlayoutBuffer));
    assert!(matches!(effects[2], SessionEffect::StopAllAudioPlayout));
    assert!(matches!(&effects[3], SessionEffect::CancelRenderer(h) if h.track_sid == "a" && h.cancelled));
    assert!(matches!(&effects[4], SessionEffect::CancelRenderer(h) if h.track_sid == "b" && h.cancelled));
    assert!(matches!(effects[5], SessionEffect::Close));
}

#[test]
fn unflagged_legacy_without_text_recorded_and_notified() {
    let mut s = connected_session();
    let effects = s.handle_event(SessionEvent::DataReceived {
        topic: Some("lk-chat-topic".to_string()),
        payload: br#"{"id":"l9"}"#.to_vec(),
        sender_sid: "p1".to_string(),
        sender_name: "Alice".to_string(),
    });
    assert_eq!(s.chat_messages().len(), 1);
    assert_eq!(s.chat_messages()[0].text, "");
    assert!(matches!(emitted(&effects)[0], VisioEvent::ChatMessageReceived(m) if m.id == "l9"));
    let none = s.handle_event(SessionEvent::DataReceived {
        topic: Some("lk-chat-topic".to_string()),
        payload: b"not json".to_vec(),
        sender_sid: "p1".to_string(),
        sender_name: "Alice".to_string(),
    });
    assert!(none.is_empty());
    assert_eq!(s.chat_messages().len(), 1);
}

#[test]
fn reconnecting_and_track_notifications() {
    let mut s = connected_session();
    let effects = s.handle_event(SessionEvent::Reconnecting);
    assert!(matches!(&effects[..], [SessionEffect::Emit(VisioEvent::ConnectionStateChanged(ConnectionState::Reconnecting { attempt: 1 }))]));
    let effects = s.handle_event(SessionEvent::TrackSubscribed {
        track_sid: "tv".to_string(),
        participant_sid: "p1".to_string(),
        kind: TrackKind::Video,
        source: TrackSource::Camera,
    });
    assert!(matches!(&effects[..], [SessionEffect::Emit(VisioEvent::TrackSubscribed(t))] if t.sid == "tv" && t.participant_sid == "p1"));
    let effects = s.handle_event(SessionEvent::TrackUnsubscribed {
        track_sid: "tv".to_string(),
        participant_sid: "p1".to_string(),
        kind: TrackKind::Video,
    });
    assert!(matches!(&effects[..], [SessionEffect::Emit(VisioEvent::TrackUnsubscribed(t))] if t == "tv"));
}

#[test]
fn hand_notifications_from_session() {
    let mut s = connected_session();
    let e = s.raise_hand(10).unwrap();
    assert!(matches!(e, VisioEvent::HandRaisedChanged { raised: true, position: 1, .. }));
    let e = s.lower_hand().unwrap();
    assert!(matches!(e, VisioEvent::HandRaisedChanged { raised: false, position: 0, .. }));
}

#[test]
fn stream_and_flagged_legacy_chat_recorded_once() {
    let mut s = connected_session();
    s.handle_event(SessionEvent::ChatStreamRead(chat("hello")));
    let effects = s.handle_event(SessionEvent::DataReceived {
        topic: Some("lk-chat-topic".to_string()),
        payload: br#"{"id":"l1","message":"hello","ignoreLegacy":true}"#.to_vec(),
        sender_sid: "p1".to_string(),
        sender_name: "p1".to_string(),
    });
    assert!(effects.is_empty());
    assert_eq!(s.chat_messages().len(), 1);
    assert_eq!(s.chat_messages()[0].text, "hello");
}

#[test]
fn unflagged_legacy_chat_recorded() {
    let mut s = connected_session();
    for payload in [&br#"{"id":"l1","message":"hi"}"#[..], &br#"{"id":"l2","message":"yo","ignoreLegacy":false}"#[..]] {
        s.handle_event(SessionEvent::DataReceived {
            topic: Some("lk-chat-topic".to_string()),
            payload: payload.to_vec(),
            sender_sid: "p1".to_string(),
            sender_name: "Alice".to_string(),
        });
    }
    let msgs = s.chat_messages();
    assert_eq!(msgs.len(), 2);
    assert_eq!(msgs[0].text, "hi");
    assert_eq!(msgs[1].sender_name, "Alice");
    s.handle_event(SessionEvent::DataReceived {
        topic: Some("other".to_string()),
        payload: br#"{"message":"x"}"#.to_vec(),
        sender_sid: "p1".to_string(),
        sender_name: "Alice".to_string(),
    });
    assert_eq!(s.chat_messages().len(), 2);
}

#[test]
fn chat_stream_opened_only_for_chat_topic() {
    let mut s = connected_session();
    let effects = s.handle_event(SessionEvent::TextStreamOpened { topic: "lk.chat".to_string() });
    assert!(matches!(effects.as_slice(), [SessionEffect::ReadChatStream]));
    assert!(s.handle_event(SessionEvent::TextStreamOpened { topic: "other".to_string() }).is_empty());
}

#[test]
fn track_unsubscribe_stops_renderer_and_clears_video() {
    let mut s = connected_session();
    s.handle_event(SessionEvent::TrackSubscribed {
        track_sid: "tv".to_string(),
        participant_sid: "p1".to_string(),
        kind: TrackKind::Video,
        source: TrackSource::Camera,
    });
    assert_eq!(s.video_track_sids(), vec!["tv".to_string()]);
    assert!(s.participants()[0].has_video);
    s.start_renderer("tv".to_string(), 3);
    let effects = s.handle_event(SessionEvent::TrackUnsubscribed {
        track_sid: "tv".to_string(),
        participant_sid: "p1".to_string(),
        kind: TrackKind::Video,
    });
    assert!(effects.iter().any(|e| matches!(e, SessionEffect::CancelRenderer(h) if h.surface == 3)));
    assert!(s.video_track_sids().is_empty());
    assert!(!s.participants()[0].has_video);
    assert!(s.stop_renderer("tv").is_none());
}

#[test]
fn audio_subscription_starts_playout() {
    let mut s = connected_session();
    let effects = s.handle_event(SessionEvent::TrackSubscribed {
        track_sid: "ta".to_string(),
        participant_sid: "p1".to_string(),
        kind: TrackKind::Audio,
        source: TrackSource::Microphone,
    });
    assert!(matches!(&effects[0], SessionEffect::StartAudioPlayout(t) if t == "ta"));
    let effects = s.handle_event(SessionEvent::TrackUnsubscribed {
        track_sid: "ta".to_string(),
        participant_sid: "p1".to_string(),
        kind: TrackKind::Audio,
    });
    assert!(matches!(&effects[0], SessionEffect::StopAudioPlayout(t) if t == "ta"));
}

#[test]
fn auto_lower_through_session() {
    let mut s = connected_session();
    s.raise_hand(10).unwrap();
    let effects = s.handle_event(SessionEvent::ActiveSpeakersChanged(vec!["me".to_string()]));
    let token = effects
        .iter()
        .find_map(|e| match e {
            SessionEffect::ScheduleAutoLower(t) => Some(*t),
            _ => None,
        })
        .expect("auto-lower scheduled");
    let effects = s.handle_event(SessionEvent::AutoLowerDue(token));
    assert!(matches!(effects[0], SessionEffect::PublishHandLowered));
    let events = emitted(&effects);
    assert_eq!(events.len(), 1);
    assert!(matches!(events[0], VisioEvent::HandRaisedChanged { raised: false, position: 0, .. }));
    assert!(!s.is_hand_raised());
    assert!(s.handle_event(SessionEvent::AutoLowerDue(token)).is_empty());
}

#[test]
fn manual_lower_inside_window_wins() {
    let mut s = connected_session();
    s.raise_hand(10).unwrap();
    let effects = s.handle_event(SessionEvent::ActiveSpeakersChanged(vec!["me".to_string()]));
    let token = match effects[0] {
        SessionEffect::ScheduleAutoLower(t) => t,
        _ => panic!("expected a scheduled check"),
    };
    s.lower_hand().unwrap();
    assert!(s.handle_event(SessionEvent::AutoLowerDue(token)).is_empty());
    assert!(!s.is_hand_raised());
}

#[test]
fn roster_events_update_participants() {
    let mut s = connected_session();
    s.handle_event(SessionEvent::ParticipantConnected(info("p2")));
    s.handle_event(SessionEvent::ParticipantConnected(info("p2")));
    assert_eq!(s.participants().len(), 2);
    s.handle_event(SessionEvent::TrackMuted { participant_sid: "p2".to_string(), source: TrackSource::Microphone });
    s.handle_event(SessionEvent::ConnectionQualityChanged { participant_sid: "p2".to_string(), quality: ConnectionQuality::Lost });
    let p2 = s.participants().into_iter().find(|p| p.sid == "p2").unwrap();
    assert!(p2.is_muted);
    assert_eq!(p2.connection_quality, ConnectionQuality::Lost);
    s.handle_event(SessionEvent::TrackUnmuted { participant_sid: "p2".to_string(), source: TrackSource::Camera });
    assert!(s.participants().into_iter().find(|p| p.sid == "p2").unwrap().is_muted);
    s.handle_event(SessionEvent::ActiveSpeakersChanged(vec!["p2".to_string()]));
    assert_eq!(s.active_speakers(), vec!["p2".to_string()]);
    let effects = s.handle_event(SessionEvent::ParticipantDisconnected("p2".to_string()));
    assert!(matches!(emitted(&effects)[0], VisioEvent::ParticipantLeft(sid) if sid == "p2"));
    assert_eq!(s.participants().len(), 1);
    assert!(s.active_speakers().is_empty());
}

#[test]
fn hand_attribute_event_is_forwarded() {
    let mut s = connected_session();
    let effects = s.handle_event(SessionEvent::HandRaiseAttributeChanged {
        participant_sid: "p1".to_string(),
        value: "2024-01-01T00:00:00.000Z".to_string(),
    });
    assert!(matches!(emitted(&effects)[0], VisioEvent::HandRaisedChanged { raised: true, position: 1, .. }));
}

#[test]
fn participant_info_builders() {
    let p = remote_participant_info("s".to_string(), "i".to_string(), String::new(), &vec![(TrackKind::Audio, true)]);
    assert!(p.name.is_none() && p.is_muted && !p.has_video);
    assert_eq!(p.connection_quality, ConnectionQuality::Good);
    let l = local_participant_info("s".to_string(), "i".to_string(), "Me".to_string(), &vec![(TrackKind::Video, false), (TrackKind::Audio, false)]);
    assert_eq!(l.name.as_deref(), Some("Me"));
    assert!(l.has_video && !l.is_muted);
    assert_eq!(l.video_track_sid.as_deref(), Some("local-camera"));
    assert_eq!(l.connection_quality, ConnectionQuality::Excellent);
}

#[test]
fn user_disconnect_clears_session() {
    let mut s = connected_session();
    s.handle_event(SessionEvent::ChatMessage(chat("x")));
    let effects = s.disconnect();
    assert!(matches!(&effects[0], SessionEffect::Emit(VisioEvent::ConnectionStateChanged(ConnectionState::Disconnected))));
    assert!(s.chat_messages().is_empty());
    assert!(s.participants().is_empty());
    assert!(matches!(s.lower_hand(), Err(VisioError::Room(_))));
}
