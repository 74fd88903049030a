use crate::chat::{
    decode_legacy_envelope, is_legacy_message, is_legacy_payload_message, json_bool_at,
    legacy_envelope_message, legacy_payload_text, opt_view, ChatService, LegacyEnvelope, CHAT_STREAM_TOPIC,
    LEGACY_CHAT_TOPIC,
};
use crate::events::{
    copy_strings, same_text, ChatMessage, ConnectionQuality, ConnectionState, ParticipantInfo, TrackInfo,
    TrackKind, TrackSource, VisioError, VisioEvent,
};
use crate::hand_raise::{
    fire_lowers, has_entry, has_speaker, is_hand_event, pending_after_fire, position_of, queue_after_fire, queue_lower,
    queue_raise, HandRaiseEntry, HandRaiseManager,
};
#[allow(unused_imports)]
use crate::timestamps::{raise_order, rfc3339_millis_value};
use crate::participants::{contains_text, roster_add, roster_remove, texts_without, without_text, ParticipantManager};
use crate::renderer::{cancel_of, entry_for, registry_remove, RendererHandle, TrackRendererRegistry};
use vstd::prelude::*;

verus! {

/// The track id under which the local camera's self view is shown.
pub const LOCAL_CAMERA_TRACK: &'static str = "local-camera";

/// An event of the transport's session stream, in plain values.
#[derive(Debug)]
pub enum SessionEvent {
    Connected,
    Reconnecting,
    Reconnected,
    Disconnected,
    ParticipantConnected(ParticipantInfo),
    ParticipantDisconnected(String),
    TrackSubscribed { track_sid: String, participant_sid: String, kind: TrackKind, source: TrackSource },
    TrackUnsubscribed { track_sid: String, participant_sid: String, kind: TrackKind },
    TrackMuted { participant_sid: String, source: TrackSource },
    TrackUnmuted { participant_sid: String, source: TrackSource },
    ActiveSpeakersChanged(Vec<String>),
    /// The hand-raise attribute of a participant changed; an empty value
    /// means lowered, and so does an attribute change without that key.
    HandRaiseAttributeChanged { participant_sid: String, value: String },
    ConnectionQualityChanged { participant_sid: String, quality: ConnectionQuality },
    ChatMessage(ChatMessage),
    TextStreamOpened { topic: String },
    /// The text of a chat stream, read to its end.
    ChatStreamRead(ChatMessage),
    DataReceived { topic: Option<String>, payload: Vec<u8>, sender_sid: String, sender_name: String },
    /// The deferred auto-lower check with this token is due.
    AutoLowerDue(u64),
}

/// Work that the runtime around the session carries out for an event.
#[derive(Debug)]
pub enum SessionEffect {
    /// Deliver this event to every listener.
    Emit(VisioEvent),
    /// Feed the decoded audio of this track into the playout buffer.
    StartAudioPlayout(String),
    /// Stop feeding the audio of this track.
    StopAudioPlayout(String),
    StopAllAudioPlayout,
    ClearPlayoutBuffer,
    /// Read the chat text stream that just opened, then report it as
    /// `ChatStreamRead`.
    ReadChatStream,
    /// Report `AutoLowerDue` with this token once the auto-lower delay elapsed.
    ScheduleAutoLower(u64),
    /// Publish the local hand-raise attribute as cleared.
    PublishHandLowered,
    /// Set the cancellation signal of this renderer's task.
    CancelRenderer(RendererHandle),
    /// The session is over: stop reading events.
    Close,
}

/// The session's state: connection, roster, subscribed video tracks, chat,
/// hand raises and renderers. Only the session's event loop changes it.
pub struct RoomSession {
    state: ConnectionState,
    reconnect_attempt: u32,
    participants: ParticipantManager,
    video_tracks: Vec<String>,
    chat: ChatService,
    hand_raise: Option<HandRaiseManager>,
    renderers: TrackRendererRegistry,
    closed: bool,
}

/// The roster after adding each of `ps` in turn.
pub open spec fn roster_add_all(s: Seq<ParticipantInfo>, ps: Seq<ParticipantInfo>) -> Seq<ParticipantInfo>
    decreases ps.len(),
{
    if ps.len() == 0 {
        s
    } else {
        roster_add(roster_add_all(s, ps.drop_last()), ps.last())
    }
}

/// Whether a legacy envelope adds a message to the transcript: unless it is
/// flagged as delivered through a text stream already.
pub open spec fn legacy_adds(env: LegacyEnvelope) -> bool {
    env.ignore_legacy != Some(true)
}

/// Whether `t` is a subscription's record in the roster `before`: the
/// subscribing participant, if present, is marked with video on `track`.
pub open spec fn roster_with_video(before: Seq<ParticipantInfo>, after: Seq<ParticipantInfo>, psid: Seq<char>, track: Option<String>) -> bool {
    &&& after.len() == before.len()
    &&& forall|j: int| 0 <= j < before.len() ==> #[trigger] after[j] == if before[j].sid@ == psid {
        ParticipantInfo { has_video: track is Some, video_track_sid: track, ..before[j] }
    } else {
        before[j]
    }
}

/// The roster `before` with participant `psid`, if present, marked muted or not.
pub open spec fn roster_with_muted(before: Seq<ParticipantInfo>, after: Seq<ParticipantInfo>, psid: Seq<char>, muted: bool) -> bool {
    &&& after.len() == before.len()
    &&& forall|j: int| 0 <= j < before.len() ==> #[trigger] after[j] == if before[j].sid@ == psid {
        ParticipantInfo { is_muted: muted, ..before[j] }
    } else {
        before[j]
    }
}

/// The roster `before` with participant `psid`, if present, at quality `q`.
pub open spec fn roster_with_quality(before: Seq<ParticipantInfo>, after: Seq<ParticipantInfo>, psid: Seq<char>, q: ConnectionQuality) -> bool {
    &&& after.len() == before.len()
    &&& forall|j: int| 0 <= j < before.len() ==> #[trigger] after[j] == if before[j].sid@ == psid {
        ParticipantInfo { connection_quality: q, ..before[j] }
    } else {
        before[j]
    }
}

/// Whether `e` announces the active speakers `sids`.
pub open spec fn emits_speakers(e: SessionEffect, sids: Seq<String>) -> bool {
    match e {
        SessionEffect::Emit(VisioEvent::ActiveSpeakersChanged(v)) => v@ == sids,
        _ => false,
    }
}

/// Whether `e` announces that `sid`'s hand was raised at `position`, or lowered.
pub open spec fn emits_hand(e: SessionEffect, sid: Seq<char>, raised: bool, position: int) -> bool {
    match e {
        SessionEffect::Emit(v) => is_hand_event(v, sid, raised, position),
        _ => false,
    }
}

/// Whether some string of `s` equals `x`.
pub open spec fn has_text(s: Seq<String>, x: Seq<char>) -> bool {
    exists|k: int| 0 <= k < s.len() && (#[trigger] s[k])@ == x
}

/// Whether `r` is the error `Room(msg)`.
pub open spec fn is_room_error<T>(r: Result<T, VisioError>, msg: Seq<char>) -> bool {
    match r {
        Err(VisioError::Room(m)) => m@ == msg,
        _ => false,
    }
}

/// The cancellation of each of the renderers `rs`, in order.
pub open spec fn cancel_effects(rs: Seq<RendererHandle>) -> Seq<SessionEffect> {
    Seq::new(rs.len(), |i: int| SessionEffect::CancelRenderer(cancel_of(rs[i])))
}

/// What leaving the session asks of the runtime, given its renderers: the
/// `Disconnected` notification, clearing the playout buffer, stopping all
/// audio playout, and cancelling every renderer.
pub open spec fn disconnect_effects(rs: Seq<RendererHandle>) -> Seq<SessionEffect> {
    seq![
        SessionEffect::Emit(VisioEvent::ConnectionStateChanged(ConnectionState::Disconnected)),
        SessionEffect::ClearPlayoutBuffer,
        SessionEffect::StopAllAudioPlayout,
    ] + cancel_effects(rs)
}

/// The cancellation of `sid`'s renderer, if it has one.
pub open spec fn cancel_effect_for(rs: Seq<RendererHandle>, sid: Seq<char>) -> Seq<SessionEffect> {
    match entry_for(rs, sid) {
        Some(h) => seq![SessionEffect::CancelRenderer(cancel_of(h))],
        None => Seq::empty(),
    }
}

/// The audio playout effect of a track event: `on` for an audio track.
pub open spec fn audio_effect(kind: TrackKind, on: SessionEffect) -> Seq<SessionEffect> {
    if kind == TrackKind::Audio {
        seq![on]
    } else {
        Seq::empty()
    }
}

/// The text of a data message that is a legacy chat payload: its topic is
/// the legacy chat topic and it holds UTF-8 JSON.
pub open spec fn legacy_text_of(topic: Option<String>, payload: Seq<u8>) -> Option<Seq<char>> {
    match topic {
        Some(t) => if t@ == LEGACY_CHAT_TOPIC@ {
            legacy_payload_text(payload)
        } else {
            None
        },
        None => None,
    }
}

/// Whether a data message records a legacy chat message: a legacy payload
/// not flagged as delivered through a text stream already.
pub open spec fn legacy_records(topic: Option<String>, payload: Seq<u8>) -> bool {
    match legacy_text_of(topic, payload) {
        Some(t) => json_bool_at(t, "ignoreLegacy"@) != Some(true),
        None => false,
    }
}

/// What an event does to the connection state.
pub open spec fn connection_post(a: &RoomSession, b: &RoomSession, ev: SessionEvent) -> bool {
    &&& (ev is Connected || ev is Reconnected) ==> b.state() == ConnectionState::Connected && b.attempt() == 0
    &&& ev is Reconnecting ==> {
        &&& b.attempt() == (if a.attempt() < u32::MAX { (a.attempt() + 1) as u32 } else { a.attempt() })
        &&& b.state() == ConnectionState::Reconnecting { attempt: b.attempt() }
    }
    &&& ev is Disconnected ==> is_cleared(b) && b.is_closed()
    &&& !(ev is Disconnected) ==> b.is_closed() == a.is_closed()
    &&& !(ev is Connected || ev is Reconnected || ev is Reconnecting || ev is Disconnected) ==> {
        &&& b.state() == a.state()
        &&& b.attempt() == a.attempt()
    }
}

/// What an event does to the roster and the speakers.
pub open spec fn roster_post(a: &RoomSession, b: &RoomSession, ev: SessionEvent) -> bool {
    match ev {
        SessionEvent::ParticipantConnected(p) => b.roster() == roster_add(a.roster(), p),
        SessionEvent::ParticipantDisconnected(sid) => {
            &&& b.roster() == roster_remove(a.roster(), sid@)
            &&& b.speakers() == texts_without(a.speakers(), sid@)
        },
        SessionEvent::TrackMuted { participant_sid, source } => if source == TrackSource::Microphone {
            roster_with_muted(a.roster(), b.roster(), participant_sid@, true)
        } else {
            b.roster() == a.roster()
        },
        SessionEvent::TrackUnmuted { participant_sid, source } => if source == TrackSource::Microphone {
            roster_with_muted(a.roster(), b.roster(), participant_sid@, false)
        } else {
            b.roster() == a.roster()
        },
        SessionEvent::ConnectionQualityChanged { participant_sid, quality } =>
            roster_with_quality(a.roster(), b.roster(), participant_sid@, quality),
        SessionEvent::ActiveSpeakersChanged(sids) => b.speakers() == sids@,
        _ => true,
    }
}

/// What an event does to the video tracks and the renderers.
pub open spec fn media_post(a: &RoomSession, b: &RoomSession, ev: SessionEvent) -> bool {
    match ev {
        SessionEvent::TrackSubscribed { track_sid, participant_sid, kind, source } => if kind == TrackKind::Video {
            &&& roster_with_video(a.roster(), b.roster(), participant_sid@, Some(track_sid))
            &&& has_text(b.video_tracks(), track_sid@)
        } else {
            b.roster() == a.roster() && b.video_tracks() == a.video_tracks()
        },
        SessionEvent::TrackUnsubscribed { track_sid, participant_sid, kind } => {
            &&& b.renderers() == registry_remove(a.renderers(), track_sid@)
            &&& kind == TrackKind::Video ==> b.video_tracks() == texts_without(a.video_tracks(), track_sid@)
            &&& kind == TrackKind::Video ==> roster_with_video(a.roster(), b.roster(), participant_sid@, None)
            &&& kind == TrackKind::Audio ==> b.roster() == a.roster() && b.video_tracks() == a.video_tracks()
        },
        _ => true,
    }
}

/// What an event does to the chat transcript. A legacy data message is
/// recorded as the sole delivery of its message unless flagged as delivered
/// through a text stream already; malformed payloads and other topics
/// change nothing.
pub open spec fn chat_post(a: &RoomSession, b: &RoomSession, ev: SessionEvent) -> bool {
    match ev {
        SessionEvent::ChatMessage(m) => b.transcript() == a.transcript().push(m),
        SessionEvent::ChatStreamRead(m) => b.transcript() == a.transcript().push(m),
        SessionEvent::DataReceived { topic, payload, sender_sid, sender_name } => if legacy_records(topic, payload@) {
            &&& b.transcript().len() == a.transcript().len() + 1
            &&& b.transcript().drop_last() == a.transcript()
            &&& is_legacy_payload_message(
                Some(b.transcript().last()),
                legacy_text_of(topic, payload@)->0,
                sender_sid@,
                sender_name@,
            )
        } else {
            b.transcript() == a.transcript()
        },
        SessionEvent::Disconnected => true,
        _ => b.transcript() == a.transcript(),
    }
}

/// What an event does to the hand-raise queue and the pending auto-lower check.
pub open spec fn hands_post(a: &RoomSession, b: &RoomSession, ev: SessionEvent) -> bool {
    match ev {
        SessionEvent::AutoLowerDue(token) => a.hands() matches Some(q) ==> {
            &&& b.hands() == Some(queue_after_fire(q, a.pending(), a.hand_local(), token))
            &&& b.pending() == pending_after_fire(a.pending(), token)
        },
        SessionEvent::Disconnected => true,
        SessionEvent::HandRaiseAttributeChanged { participant_sid, value } => a.hands() matches Some(q) ==> {
            &&& b.hand_local() == a.hand_local()
            &&& (q.len() < u32::MAX - 1 && value@.len() > 0) ==> b.hands() == Some(
                queue_raise(q, participant_sid, raise_order(rfc3339_millis_value(value@), value@)),
            )
            &&& (q.len() >= u32::MAX - 1 && value@.len() > 0) ==> b.hands() == a.hands()
            &&& value@.len() == 0 ==> b.hands() == Some(queue_lower(q, participant_sid@))
        },
        SessionEvent::ActiveSpeakersChanged(sids) => {
            &&& b.hands() == a.hands()
            &&& b.hand_local() == a.hand_local()
            &&& a.hands() matches Some(q) ==> (b.pending() is Some <==> (has_speaker(sids@, a.hand_local())
                && has_entry(q, a.hand_local())))
        },
        _ => b.hands() == a.hands() && b.pending() == a.pending(),
    }
}

/// The effects that an event asks of the runtime, in order.
pub open spec fn effects_post(a: &RoomSession, b: &RoomSession, ev: SessionEvent, effects: Seq<SessionEffect>) -> bool {
    match ev {
        SessionEvent::Connected => effects == seq![
            SessionEffect::Emit(VisioEvent::ConnectionStateChanged(ConnectionState::Connected)),
        ],
        SessionEvent::Reconnected => effects == seq![
            SessionEffect::Emit(VisioEvent::ConnectionStateChanged(ConnectionState::Connected)),
        ],
        SessionEvent::Reconnecting => effects == seq![
            SessionEffect::Emit(VisioEvent::ConnectionStateChanged(ConnectionState::Reconnecting { attempt: b.attempt() })),
        ],
        SessionEvent::Disconnected => effects == disconnect_effects(a.renderers()).push(SessionEffect::Close),
        SessionEvent::ParticipantConnected(p) => effects == seq![SessionEffect::Emit(VisioEvent::ParticipantJoined(p))],
        SessionEvent::ParticipantDisconnected(sid) => effects == seq![SessionEffect::Emit(VisioEvent::ParticipantLeft(sid))],
        SessionEvent::TrackSubscribed { track_sid, participant_sid, kind, source } => effects == audio_effect(
            kind,
            SessionEffect::StartAudioPlayout(track_sid),
        ) + seq![
            SessionEffect::Emit(VisioEvent::TrackSubscribed(TrackInfo { sid: track_sid, participant_sid, kind, source })),
        ],
        SessionEvent::TrackUnsubscribed { track_sid, participant_sid, kind } => effects == audio_effect(
            kind,
            SessionEffect::StopAudioPlayout(track_sid),
        ) + cancel_effect_for(a.renderers(), track_sid@) + seq![
            SessionEffect::Emit(VisioEvent::TrackUnsubscribed(track_sid)),
        ],
        SessionEvent::TrackMuted { participant_sid, source } => effects == seq![
            SessionEffect::Emit(VisioEvent::TrackMuted { participant_sid, source }),
        ],
        SessionEvent::TrackUnmuted { participant_sid, source } => effects == seq![
            SessionEffect::Emit(VisioEvent::TrackUnmuted { participant_sid, source }),
        ],
        SessionEvent::ActiveSpeakersChanged(sids) => {
            &&& effects.len() == if b.pending() is Some { 2int } else { 1int }
            &&& b.pending() matches Some(t) ==> effects[0] == SessionEffect::ScheduleAutoLower(t)
            &&& emits_speakers(effects.last(), sids@)
        },
        SessionEvent::HandRaiseAttributeChanged { participant_sid, value } => match a.hands() {
            Some(q) => if value@.len() == 0 {
                effects.len() == 1 && emits_hand(effects[0], participant_sid@, false, 0)
            } else if q.len() < u32::MAX - 1 {
                effects.len() == 1 && emits_hand(effects[0], participant_sid@, true, position_of(b.hands()->0, participant_sid@))
            } else {
                effects.len() == 0
            },
            None => effects.len() == 0,
        },
        SessionEvent::ConnectionQualityChanged { participant_sid, quality } => effects == seq![
            SessionEffect::Emit(VisioEvent::ConnectionQualityChanged { participant_sid, quality }),
        ],
        SessionEvent::ChatMessage(m) => effects == seq![SessionEffect::Emit(VisioEvent::ChatMessageReceived(m))],
        SessionEvent::ChatStreamRead(m) => effects == seq![SessionEffect::Emit(VisioEvent::ChatMessageReceived(m))],
        SessionEvent::TextStreamOpened { topic } => effects == if topic@ == CHAT_STREAM_TOPIC@ {
            seq![SessionEffect::ReadChatStream]
        } else {
            Seq::<SessionEffect>::empty()
        },
        SessionEvent::DataReceived { topic, payload, sender_sid, sender_name } => effects == if legacy_records(topic, payload@) {
            seq![SessionEffect::Emit(VisioEvent::ChatMessageReceived(b.transcript().last()))]
        } else {
            Seq::<SessionEffect>::empty()
        },
        SessionEvent::AutoLowerDue(token) => match a.hands() {
            Some(q) => if fire_lowers(q, a.pending(), a.hand_local(), token) {
                &&& effects.len() == 2
                &&& effects[0] == SessionEffect::PublishHandLowered
                &&& emits_hand(effects[1], a.hand_local(), false, 0)
            } else {
                effects.len() == 0
            },
            None => effects.len() == 0,
        },
    }
}

/// The outcome of raising the local hand at `now_ms` on the queue `q`: the
/// hand joins the queue and is announced with its rank, unless the queue
/// cannot rank one more.
pub open spec fn raise_hand_post(q: Seq<HandRaiseEntry>, a: &RoomSession, b: &RoomSession, now_ms: i64, r: Result<VisioEvent, VisioError>) -> bool {
    if q.len() < u32::MAX - 1 {
        &&& r is Ok
        &&& b.hands() == Some(queue_raise(q, a.hand_local_id()->0, now_ms))
        &&& b.pending() == a.pending()
        &&& b.hand_local() == a.hand_local()
        &&& is_hand_event(r->Ok_0, a.hand_local(), true, position_of(b.hands()->0, a.hand_local()))
    } else {
        is_room_error(r, "too many raised hands"@) && b.hands() == a.hands()
    }
}

/// The outcome of lowering the local hand on the queue `q`: its entry goes,
/// the pending auto-lower check is cancelled, and the lowering is announced.
pub open spec fn lower_hand_post(q: Seq<HandRaiseEntry>, a: &RoomSession, b: &RoomSession, r: Result<VisioEvent, VisioError>) -> bool {
    &&& r is Ok
    &&& b.hands() == Some(queue_lower(q, a.hand_local()))
    &&& b.pending() is None
    &&& b.hand_local() == a.hand_local()
    &&& is_hand_event(r->Ok_0, a.hand_local(), false, 0)
}

/// What an event leaves alone.
pub open spec fn unchanged_post(a: &RoomSession, b: &RoomSession, ev: SessionEvent) -> bool {
    &&& !(ev is TrackUnsubscribed || ev is Disconnected) ==> b.renderers() == a.renderers()
    &&& !(ev is ParticipantConnected || ev is ParticipantDisconnected || ev is TrackSubscribed || ev is TrackUnsubscribed
        || ev is TrackMuted || ev is TrackUnmuted || ev is ConnectionQualityChanged || ev is Disconnected) ==> b.roster() == a.roster()
    &&& !(ev is TrackSubscribed || ev is TrackUnsubscribed || ev is Disconnected) ==> b.video_tracks() == a.video_tracks()
}

/// Whether `r` is the session state that follows a full disconnect.
pub open spec fn is_cleared(r: &RoomSession) -> bool {
    &&& r.state() == ConnectionState::Disconnected
    &&& r.roster() == Seq::<ParticipantInfo>::empty()
    &&& r.speakers() == Seq::<String>::empty()
    &&& r.video_tracks() == Seq::<String>::empty()
    &&& r.transcript() == Seq::<ChatMessage>::empty()
    &&& r.hands() is None
    &&& r.renderers() == Seq::<RendererHandle>::empty()
}


impl RoomSession {
    pub closed spec fn state(&self) -> ConnectionState {
        self.state
    }

    pub closed spec fn attempt(&self) -> u32 {
        self.reconnect_attempt
    }

    pub closed spec fn roster(&self) -> Seq<ParticipantInfo> {
        self.participants.roster()
    }

    pub closed spec fn speakers(&self) -> Seq<String> {
        self.participants.speakers()
    }

    pub closed spec fn video_tracks(&self) -> Seq<String> {
        self.video_tracks@
    }

    pub closed spec fn transcript(&self) -> Seq<ChatMessage> {
        self.chat.transcript()
    }

    /// The hand-raise queue; `None` while no connection was made.
    pub closed spec fn hands(&self) -> Option<Seq<HandRaiseEntry>> {
        match self.hand_raise {
            Some(h) => Some(h.queue()),
            None => None,
        }
    }

    /// The local participant, as the hand-raise coordinator knows it.
    pub closed spec fn hand_local_id(&self) -> Option<String> {
        match self.hand_raise {
            Some(h) => Some(h.local_id()),
            None => None,
        }
    }

    pub closed spec fn hand_local(&self) -> Seq<char> {
        match self.hand_raise {
            Some(h) => h.local(),
            None => Seq::empty(),
        }
    }

    /// The token of the pending auto-lower check.
    pub closed spec fn pending(&self) -> Option<u64> {
        match self.hand_raise {
            Some(h) => h.pending(),
            None => None,
        }
    }

    pub closed spec fn renderers(&self) -> Seq<RendererHandle> {
        self.renderers.entries()
    }

    pub closed spec fn is_closed(&self) -> bool {
        self.closed
    }

    pub closed spec fn wf(&self) -> bool {
        &&& self.participants.wf()
        &&& self.renderers.wf()
        &&& (self.hand_raise matches Some(h) ==> h.wf())
    }

    pub fn new() -> (r: Self)
        ensures
            r.wf(),
            is_cleared(&r),
            !r.is_closed(),
            r.attempt() == 0,
    {
        RoomSession {
            state: ConnectionState::Disconnected,
            reconnect_attempt: 0,
            participants: ParticipantManager::new(),
            video_tracks: Vec::new(),
            chat: ChatService::new(),
            hand_raise: None,
            renderers: TrackRendererRegistry::new(),
            closed: false,
        }
    }

    pub fn connection_state(&self) -> (r: ConnectionState)
        ensures
            r == self.state(),
    {
        self.state
    }

    /// A copy of the roster.
    pub fn participants(&self) -> (r: Vec<ParticipantInfo>)
        ensures
            r@ == self.roster(),
    {
        let src = self.participants.participants();
        let mut r: Vec<ParticipantInfo> = Vec::new();
        let mut i: usize = 0;
        while i < src.len()
            invariant
                i <= src@.len(),
                src@ == self.roster(),
                r@ == src@.take(i as int),
            decreases src@.len() - i,
        {
            r.push(src[i].duplicate());
            proof {
                assert(src@.take(i + 1) =~= src@.take(i as int).push(src@[i as int]));
            }
            i = i + 1;
        }
        proof {
            assert(src@.take(src@.len() as int) =~= src@);
        }
        r
    }

    pub fn active_speakers(&self) -> (r: Vec<String>)
        ensures
            r@ == self.speakers(),
    {
        let s = self.participants.active_speakers();
        let mut r: Vec<String> = Vec::new();
        let mut i: usize = 0;
        while i < s.len()
            invariant
                i <= s@.len(),
                s@ == self.speakers(),
                r@ == s@.take(i as int),
            decreases s@.len() - i,
        {
            r.push(s[i].clone());
            proof {
                assert(s@.take(i + 1) =~= s@.take(i as int).push(s@[i as int]));
            }
            i = i + 1;
        }
        proof {
            assert(s@.take(s@.len() as int) =~= s@);
        }
        r
    }

    /// The sids of the subscribed video tracks.
    pub fn video_track_sids(&self) -> (r: Vec<String>)
        ensures
            r@ == self.video_tracks(),
    {
        copy_strings(&self.video_tracks)
    }

    pub fn chat_messages(&self) -> (r: Vec<ChatMessage>)
        ensures
            r@ == self.transcript(),
    {
        self.chat.messages()
    }

    /// Records a message that the local participant sent, once the
    /// transport accepted it, and returns its notification.
    pub fn record_sent_message(&mut self, msg: ChatMessage) -> (e: VisioEvent)
        ensures
            final(self).transcript() == old(self).transcript().push(msg),
            e == VisioEvent::ChatMessageReceived(msg),
    {
        self.chat.record(msg)
    }

    /// Marks the chat panel open or closed; opening resets the unread count.
    pub fn set_chat_open(&mut self, open: bool) -> (e: Option<VisioEvent>)
        ensures
            final(self).transcript() == old(self).transcript(),
            e == if open { Some(VisioEvent::UnreadCountChanged(0)) } else { None::<VisioEvent> },
    {
        self.chat.set_chat_open(open)
    }

    /// Messages received while the chat panel was closed.
    pub closed spec fn unread(&self) -> u32 {
        self.chat.unread()
    }

    pub fn unread_count(&self) -> (r: u32)
        ensures
            r == self.unread(),
    {
        self.chat.unread_count()
    }

    /// Whether the local participant's hand is raised; false while not connected.
    pub fn is_hand_raised(&self) -> (r: bool)
        ensures
            self.hands() is None ==> !r,
            self.hands() matches Some(q) ==> r == has_entry(q, self.hand_local()),
    {
        match &self.hand_raise {
            Some(h) => h.is_hand_raised(),
            None => false,
        }
    }

    fn set_state(&mut self, state: ConnectionState, effects: &mut Vec<SessionEffect>)
        ensures
            final(self).state == state,
            final(self).reconnect_attempt == old(self).reconnect_attempt,
            final(self).participants == old(self).participants,
            final(self).video_tracks == old(self).video_tracks,
            final(self).chat == old(self).chat,
            final(self).hand_raise == old(self).hand_raise,
            final(self).renderers == old(self).renderers,
            final(self).closed == old(self).closed,
            final(effects)@ == old(effects)@.push(SessionEffect::Emit(VisioEvent::ConnectionStateChanged(state))),
    {
        self.state = state;
        effects.push(SessionEffect::Emit(VisioEvent::ConnectionStateChanged(state)));
    }

    /// A connection was requested.
    pub fn begin_connect(&mut self) -> (e: VisioEvent)
        ensures
            final(self).state() == ConnectionState::Connecting,
            e == VisioEvent::ConnectionStateChanged(ConnectionState::Connecting),
    {
        self.state = ConnectionState::Connecting;
        VisioEvent::ConnectionStateChanged(ConnectionState::Connecting)
    }

    /// The transport connected as `local_sid`, with the participants
    /// `remote` already present. Returns the notifications to deliver.
    pub fn connected(&mut self, local_sid: String, remote: Vec<ParticipantInfo>) -> (events: Vec<VisioEvent>)
        requires
            old(self).wf(),
        ensures
            final(self).wf(),
            final(self).state() == ConnectionState::Connected,
            final(self).hands() == Some(Seq::<HandRaiseEntry>::empty()),
            !final(self).is_closed(),
            final(self).roster() == roster_add_all(old(self).roster(), remote@),
            final(self).hand_local() == local_sid@,
            events@.len() == remote@.len() + 1,
            forall|i: int| 0 <= i < remote@.len() ==> events@[i] == VisioEvent::ParticipantJoined(#[trigger] remote@[i]),
            events@.last() == VisioEvent::ConnectionStateChanged(ConnectionState::Connected),
    {
        self.participants.set_local_sid(local_sid.clone());
        let mut events: Vec<VisioEvent> = Vec::new();
        let mut i: usize = 0;
        while i < remote.len()
            invariant
                i <= remote@.len(),
                events@.len() == i,
                self.participants.wf(),
                self.renderers.wf(),
                self.participants.roster() == roster_add_all(old(self).participants.roster(), remote@.take(i as int)),
                forall|k: int| 0 <= k < i ==> events@[k] == VisioEvent::ParticipantJoined(#[trigger] remote@[k]),
            decreases remote@.len() - i,
        {
            let p = remote[i].duplicate();
            let copy = p.duplicate();
            self.participants.add_participant(p);
            events.push(VisioEvent::ParticipantJoined(copy));
            proof {
                assert(remote@.take(i + 1).drop_last() =~= remote@.take(i as int));
            }
            i = i + 1;
        }
        proof {
            assert(remote@.take(remote@.len() as int) =~= remote@);
        }
        self.hand_raise = Some(HandRaiseManager::new(local_sid));
        self.closed = false;
        self.state = ConnectionState::Connected;
        events.push(VisioEvent::ConnectionStateChanged(ConnectionState::Connected));
        events
    }

    /// Empties every ephemeral collection: roster, video tracks, transcript,
    /// hand raises and renderers; the connection becomes `Disconnected`.
    fn clear_all(&mut self, effects: &mut Vec<SessionEffect>)
        requires
            old(self).wf(),
            old(effects)@.len() == 0,
        ensures
            final(self).wf(),
            is_cleared(final(self)),
            final(self).closed == old(self).closed,
            final(self).reconnect_attempt == old(self).reconnect_attempt,
            final(effects)@ == disconnect_effects(old(self).renderers()),
    {
        let ghost rs = self.renderers();
        self.set_state(ConnectionState::Disconnected, effects);
        self.participants.clear();
        self.video_tracks.clear();
        self.chat.clear();
        effects.push(SessionEffect::ClearPlayoutBuffer);
        if let Some(h) = &mut self.hand_raise {
            h.clear();
        }
        self.hand_raise = None;
        effects.push(SessionEffect::StopAllAudioPlayout);
        let stopped = self.renderers.clear();
        let mut i: usize = 0;
        while i < stopped.len()
            invariant
                i <= stopped@.len(),
                stopped@.len() == rs.len(),
                forall|k: int| 0 <= k < stopped@.len() ==> stopped@[k] == cancel_of(#[trigger] rs[k]),
                effects@ == disconnect_effects(rs.take(i as int)),
            decreases stopped@.len() - i,
        {
            let h = &stopped[i];
            effects.push(SessionEffect::CancelRenderer(RendererHandle {
                track_sid: h.track_sid.clone(),
                surface: h.surface,
                cancelled: h.cancelled,
            }));
            proof {
                assert(disconnect_effects(rs.take(i + 1)) =~= disconnect_effects(rs.take(i as int)).push(
                    SessionEffect::CancelRenderer(cancel_of(rs[i as int])),
                ));
            }
            i = i + 1;
        }
        proof {
            assert(rs.take(rs.len() as int) =~= rs);
        }
    }

    /// Leaves the session at the caller's request: everything is cleared, the
    /// connection reported `Disconnected`, the playout buffer cleared, audio
    /// playout stopped and every renderer cancelled.
    pub fn disconnect(&mut self) -> (effects: Vec<SessionEffect>)
        requires
            old(self).wf(),
        ensures
            final(self).wf(),
            is_cleared(final(self)),
            effects@ == disconnect_effects(old(self).renderers()),
    {
        let mut effects: Vec<SessionEffect> = Vec::new();
        self.clear_all(&mut effects);
        effects
    }

    /// Records a chat message and queues its notification.
    fn record_chat(&mut self, msg: ChatMessage, effects: &mut Vec<SessionEffect>)
        requires
            old(self).wf(),
        ensures
            final(self).wf(),
            final(self).transcript() == old(self).transcript().push(msg),
            final(self).state == old(self).state,
            final(self).reconnect_attempt == old(self).reconnect_attempt,
            final(self).participants == old(self).participants,
            final(self).video_tracks == old(self).video_tracks,
            final(self).hand_raise == old(self).hand_raise,
            final(self).renderers == old(self).renderers,
            final(self).closed == old(self).closed,
            final(effects)@ == old(effects)@.push(SessionEffect::Emit(VisioEvent::ChatMessageReceived(msg))),
    {
        let e = self.chat.record(msg);
        effects.push(SessionEffect::Emit(e));
    }

    /// Applies a legacy chat envelope from `sender_sid`: recorded as the
    /// sole delivery of its message, with its notification, unless it is
    /// flagged as delivered through a text stream already
    /// (`ignoreLegacy: true`), in which case nothing happens.
    pub fn receive_legacy_envelope(
        &mut self,
        env: LegacyEnvelope,
        sender_sid: String,
        sender_name: String,
        effects: &mut Vec<SessionEffect>,
    )
        requires
            old(self).wf(),
        ensures
            final(self).wf(),
            !legacy_adds(env) ==> final(self).transcript() == old(self).transcript(),
            !legacy_adds(env) ==> final(effects)@ == old(effects)@,
            legacy_adds(env) ==> final(self).transcript().len() == old(self).transcript().len() + 1,
            legacy_adds(env) ==> final(self).transcript().drop_last() == old(self).transcript(),
            legacy_adds(env) ==> is_legacy_message(
                Some(final(self).transcript().last()),
                env.ignore_legacy,
                opt_view(env.id),
                opt_view(env.message),
                env.timestamp,
                sender_sid@,
                sender_name@,
            ),
            legacy_adds(env) ==> final(effects)@ == old(effects)@.push(
                SessionEffect::Emit(VisioEvent::ChatMessageReceived(final(self).transcript().last())),
            ),
            final(self).state() == old(self).state(),
            final(self).attempt() == old(self).attempt(),
            final(self).roster() == old(self).roster(),
            final(self).video_tracks() == old(self).video_tracks(),
            final(self).renderers() == old(self).renderers(),
            final(self).hands() == old(self).hands(),
            final(self).pending() == old(self).pending(),
            final(self).is_closed() == old(self).is_closed(),
    {
        let m = legacy_envelope_message(env.ignore_legacy, env.id, env.message, env.timestamp, sender_sid, sender_name);
        if let Some(msg) = m {
            self.record_chat(msg, effects);
            proof {
                assert(self.transcript().drop_last() =~= old(self).transcript());
            }
        }
    }

    fn track_subscribed(
        &mut self,
        track_sid: String,
        participant_sid: String,
        kind: TrackKind,
        source: TrackSource,
        effects: &mut Vec<SessionEffect>,
    )
        requires
            old(self).wf(),
            old(effects)@.len() == 0,
        ensures
            final(self).wf(),
            kind == TrackKind::Video ==> roster_with_video(old(self).roster(), final(self).roster(), participant_sid@, Some(track_sid)),
            kind == TrackKind::Video ==> has_text(final(self).video_tracks(), track_sid@),
            kind == TrackKind::Audio ==> final(self).roster() == old(self).roster(),
            kind == TrackKind::Audio ==> final(self).video_tracks() == old(self).video_tracks(),
            final(self).transcript() == old(self).transcript(),
            final(self).renderers() == old(self).renderers(),
            final(self).hands() == old(self).hands(),
            final(self).pending() == old(self).pending(),
            final(self).state() == old(self).state(),
            final(self).attempt() == old(self).attempt(),
            final(self).is_closed() == old(self).is_closed(),
            final(effects)@ == audio_effect(kind, SessionEffect::StartAudioPlayout(track_sid)) + seq![
                SessionEffect::Emit(VisioEvent::TrackSubscribed(TrackInfo { sid: track_sid, participant_sid, kind, source })),
            ],
    {
        if kind == TrackKind::Video {
            self.participants.set_video(participant_sid.as_str(), Some(track_sid.clone()));
            if !contains_text(&self.video_tracks, track_sid.as_str()) {
                self.video_tracks.push(track_sid.clone());
                proof {
                    let n = self.video_tracks@.len() - 1;
                    assert(self.video_tracks@[n]@ == track_sid@);
                }
            }
        } else {
            effects.push(SessionEffect::StartAudioPlayout(track_sid.clone()));
        }
        let ghost info = TrackInfo { sid: track_sid, participant_sid, kind, source };
        effects.push(SessionEffect::Emit(VisioEvent::TrackSubscribed(TrackInfo {
            sid: track_sid,
            participant_sid,
            kind,
            source,
        })));
        proof {
            assert(effects@ =~= audio_effect(kind, SessionEffect::StartAudioPlayout(info.sid)) + seq![
                SessionEffect::Emit(VisioEvent::TrackSubscribed(info)),
            ]);
        }
    }

    fn track_unsubscribed(
        &mut self,
        track_sid: String,
        participant_sid: String,
        kind: TrackKind,
        effects: &mut Vec<SessionEffect>,
    )
        requires
            old(self).wf(),
            old(effects)@.len() == 0,
        ensures
            final(self).wf(),
            kind == TrackKind::Video ==> roster_with_video(old(self).roster(), final(self).roster(), participant_sid@, None),
            kind == TrackKind::Video ==> final(self).video_tracks() == texts_without(old(self).video_tracks(), track_sid@),
            kind == TrackKind::Audio ==> final(self).roster() == old(self).roster(),
            kind == TrackKind::Audio ==> final(self).video_tracks() == old(self).video_tracks(),
            final(self).renderers() == registry_remove(old(self).renderers(), track_sid@),
            final(self).transcript() == old(self).transcript(),
            final(self).hands() == old(self).hands(),
            final(self).pending() == old(self).pending(),
            final(self).state() == old(self).state(),
            final(self).attempt() == old(self).attempt(),
            final(self).is_closed() == old(self).is_closed(),
            final(effects)@ == audio_effect(kind, SessionEffect::StopAudioPlayout(track_sid)) + cancel_effect_for(
                old(self).renderers(),
                track_sid@,
            ) + seq![SessionEffect::Emit(VisioEvent::TrackUnsubscribed(track_sid))],
    {
        if kind == TrackKind::Video {
            self.participants.set_video(participant_sid.as_str(), None);
            self.video_tracks = without_text(&self.video_tracks, track_sid.as_str());
        } else {
            effects.push(SessionEffect::StopAudioPlayout(track_sid.clone()));
        }
        let stopped = self.renderers.stop(track_sid.as_str());
        if let Some(h) = stopped {
            effects.push(SessionEffect::CancelRenderer(h));
        }
        let ghost ts = track_sid;
        effects.push(SessionEffect::Emit(VisioEvent::TrackUnsubscribed(track_sid)));
        proof {
            assert(effects@ =~= audio_effect(kind, SessionEffect::StopAudioPlayout(ts)) + cancel_effect_for(
                old(self).renderers(),
                ts@,
            ) + seq![SessionEffect::Emit(VisioEvent::TrackUnsubscribed(ts))]);
        }
    }

    fn speakers_changed(&mut self, sids: Vec<String>, effects: &mut Vec<SessionEffect>)
        requires
            old(self).wf(),
            old(effects)@.len() == 0,
        ensures
            final(self).wf(),
            final(self).speakers() == sids@,
            final(self).roster() == old(self).roster(),
            final(self).hands() == old(self).hands(),
            final(self).transcript() == old(self).transcript(),
            final(self).renderers() == old(self).renderers(),
            final(self).video_tracks() == old(self).video_tracks(),
            final(self).state() == old(self).state(),
            final(self).attempt() == old(self).attempt(),
            final(self).is_closed() == old(self).is_closed(),
            final(self).hand_local() == old(self).hand_local(),
            old(self).hands() matches Some(q) ==> (final(self).pending() is Some <==> (has_speaker(sids@, old(self).hand_local())
                && has_entry(q, old(self).hand_local()))),
            old(self).hands() is None ==> final(self).pending() is None,
            final(effects)@.len() == if final(self).pending() is Some { 2int } else { 1int },
            final(self).pending() matches Some(t) ==> final(effects)@[0] == SessionEffect::ScheduleAutoLower(t),
            emits_speakers(final(effects)@.last(), sids@),
    {
        let copy = copy_strings(&sids);
        if let Some(h) = &mut self.hand_raise {
            if let Some(token) = h.start_auto_lower(&sids) {
                effects.push(SessionEffect::ScheduleAutoLower(token));
            }
        }
        self.participants.set_active_speakers(sids);
        effects.push(SessionEffect::Emit(VisioEvent::ActiveSpeakersChanged(copy)));
    }

    /// Applies one event of the transport's stream and returns, in order,
    /// the effects for the runtime to carry out.
    pub fn handle_event(&mut self, ev: SessionEvent) -> (effects: Vec<SessionEffect>)
        requires
            old(self).wf(),
        ensures
            final(self).wf(),
            connection_post(old(self), final(self), ev),
            roster_post(old(self), final(self), ev),
            media_post(old(self), final(self), ev),
            chat_post(old(self), final(self), ev),
            hands_post(old(self), final(self), ev),
            unchanged_post(old(self), final(self), ev),
            effects_post(old(self), final(self), ev, effects@),
    {
        let mut effects: Vec<SessionEffect> = Vec::new();
        match ev {
            SessionEvent::Connected => {
                self.reconnect_attempt = 0;
                self.set_state(ConnectionState::Connected, &mut effects);
            },
            SessionEvent::Reconnected => {
                self.reconnect_attempt = 0;
                self.set_state(ConnectionState::Connected, &mut effects);
            },
            SessionEvent::Reconnecting => {
                self.reconnect_attempt = self.reconnect_attempt.saturating_add(1);
                let attempt = self.reconnect_attempt;
                self.set_state(ConnectionState::Reconnecting { attempt }, &mut effects);
            },
            SessionEvent::Disconnected => {
                self.clear_all(&mut effects);
                self.closed = true;
                effects.push(SessionEffect::Close);
            },
            SessionEvent::ParticipantConnected(p) => {
                let copy = p.duplicate();
                self.participants.add_participant(p);
                effects.push(SessionEffect::Emit(VisioEvent::ParticipantJoined(copy)));
            },
            SessionEvent::ParticipantDisconnected(sid) => {
                self.participants.remove_participant(sid.as_str());
                effects.push(SessionEffect::Emit(VisioEvent::ParticipantLeft(sid)));
            },
            SessionEvent::TrackSubscribed { track_sid, participant_sid, kind, source } => {
                self.track_subscribed(track_sid, participant_sid, kind, source, &mut effects);
            },
            SessionEvent::TrackUnsubscribed { track_sid, participant_sid, kind } => {
                self.track_unsubscribed(track_sid, participant_sid, kind, &mut effects);
            },
            SessionEvent::TrackMuted { participant_sid, source } => {
                if source == TrackSource::Microphone {
                    self.participants.set_muted(participant_sid.as_str(), true);
                }
                effects.push(SessionEffect::Emit(VisioEvent::TrackMuted { participant_sid, source }));
            },
            SessionEvent::TrackUnmuted { participant_sid, source } => {
                if source == TrackSource::Microphone {
                    self.participants.set_muted(participant_sid.as_str(), false);
                }
                effects.push(SessionEffect::Emit(VisioEvent::TrackUnmuted { participant_sid, source }));
            },
            SessionEvent::ActiveSpeakersChanged(sids) => {
                self.speakers_changed(sids, &mut effects);
            },
            SessionEvent::HandRaiseAttributeChanged { participant_sid, value } => {
                if let Some(h) = &mut self.hand_raise {
                    if value.as_str().is_empty() || h.can_grow() {
                        let e = h.handle_participant_attributes(participant_sid, value.as_str());
                        effects.push(SessionEffect::Emit(e));
                    }
                }
            },
            SessionEvent::ConnectionQualityChanged { participant_sid, quality } => {
                self.participants.set_quality(participant_sid.as_str(), quality);
                effects.push(SessionEffect::Emit(VisioEvent::ConnectionQualityChanged { participant_sid, quality }));
            },
            SessionEvent::ChatMessage(m) => {
                self.record_chat(m, &mut effects);
            },
            SessionEvent::ChatStreamRead(m) => {
                self.record_chat(m, &mut effects);
            },
            SessionEvent::TextStreamOpened { topic } => {
                if same_text(topic.as_str(), CHAT_STREAM_TOPIC) {
                    effects.push(SessionEffect::ReadChatStream);
                }
            },
            SessionEvent::DataReceived { topic, payload, sender_sid, sender_name } => {
                let is_legacy = match &topic {
                    Some(t) => same_text(t.as_str(), LEGACY_CHAT_TOPIC),
                    None => false,
                };
                if is_legacy {
                    if let Some(env) = decode_legacy_envelope(payload.as_slice()) {
                        self.receive_legacy_envelope(env, sender_sid, sender_name, &mut effects);
                    }
                }
            },
            SessionEvent::AutoLowerDue(token) => {
                if let Some(h) = &mut self.hand_raise {
                    if let Some(e) = h.auto_lower_fired(token) {
                        effects.push(SessionEffect::PublishHandLowered);
                        effects.push(SessionEffect::Emit(e));
                    }
                }
            },
        }
        effects
    }

    /// Raises the local hand at `now_ms`, once its attribute was published.
    /// Fails with `Room("not connected")` while not connected, and with
    /// `Room("too many raised hands")` when the queue cannot rank one more.
    pub fn raise_hand(&mut self, now_ms: i64) -> (r: Result<VisioEvent, VisioError>)
        requires
            old(self).wf(),
        ensures
            final(self).wf(),
            old(self).hands() is None ==> is_room_error(r, "not connected"@) && final(self).hands() is None,
            old(self).hands() matches Some(q) ==> raise_hand_post(q, old(self), final(self), now_ms, r),
            final(self).roster() == old(self).roster(),
            final(self).transcript() == old(self).transcript(),
            final(self).renderers() == old(self).renderers(),
            final(self).state() == old(self).state(),
    {
        match &mut self.hand_raise {
            Some(h) => {
                if h.can_grow() {
                    Ok(h.raise_hand(now_ms))
                } else {
                    Err(VisioError::Room("too many raised hands".to_owned()))
                }
            },
            None => Err(VisioError::Room("not connected".to_owned())),
        }
    }

    /// Lowers the local hand, once its cleared attribute was published, and
    /// cancels the pending auto-lower check. Fails with `Room("not
    /// connected")` while not connected.
    pub fn lower_hand(&mut self) -> (r: Result<VisioEvent, VisioError>)
        requires
            old(self).wf(),
        ensures
            final(self).wf(),
            old(self).hands() is None ==> is_room_error(r, "not connected"@) && final(self).hands() is None,
            old(self).hands() matches Some(q) ==> lower_hand_post(q, old(self), final(self), r),
            final(self).roster() == old(self).roster(),
            final(self).transcript() == old(self).transcript(),
            final(self).renderers() == old(self).renderers(),
            final(self).state() == old(self).state(),
    {
        match &mut self.hand_raise {
            Some(h) => Ok(h.lower_hand()),
            None => Err(VisioError::Room("not connected".to_owned())),
        }
    }

    /// Starts a renderer for `track_sid` on `surface`, replacing the one the
    /// track had; the replaced renderer comes back with its cancellation
    /// requested.
    pub fn start_renderer(&mut self, track_sid: String, surface: u64) -> (replaced: Option<RendererHandle>)
        requires
            old(self).wf(),
        ensures
            final(self).wf(),
            final(self).renderers() == crate::renderer::registry_start(
                old(self).renderers(),
                RendererHandle { track_sid, surface, cancelled: false },
            ),
            replaced == match entry_for(old(self).renderers(), track_sid@) {
                Some(h) => Some(cancel_of(h)),
                None => None::<RendererHandle>,
            },
    {
        self.renderers.start(track_sid, surface)
    }

    /// Stops the renderer of `track_sid`, if it has one; redundant calls do nothing.
    pub fn stop_renderer(&mut self, track_sid: &str) -> (stopped: Option<RendererHandle>)
        requires
            old(self).wf(),
        ensures
            final(self).wf(),
            final(self).renderers() == registry_remove(old(self).renderers(), track_sid@),
            stopped == match entry_for(old(self).renderers(), track_sid@) {
                Some(h) => Some(cancel_of(h)),
                None => None::<RendererHandle>,
            },
    {
        self.renderers.stop(track_sid)
    }

    /// The surface of `track_sid`'s renderer, if it has one.
    pub fn renderer_surface(&self, track_sid: &str) -> (r: Option<u64>)
        ensures
            r == match entry_for(self.renderers(), track_sid@) {
                Some(h) => Some(h.surface),
                None => None::<u64>,
            },
    {
        self.renderers.surface_of(track_sid)
    }
}

/// One chat send delivered on both paths is recorded once: when the session
/// handles a text-stream message and a legacy data message flagged
/// `ignoreLegacy: true`, in either order, the transcript gains exactly the
/// stream's message.
pub proof fn lemma_chat_dedup(
    a: RoomSession,
    b: RoomSession,
    c: RoomSession,
    m: ChatMessage,
    topic: Option<String>,
    payload: Vec<u8>,
    sender_sid: String,
    sender_name: String,
    stream_first: bool,
)
    requires
        legacy_text_of(topic, payload@) matches Some(t) && json_bool_at(t, "ignoreLegacy"@) == Some(true),
        stream_first ==> chat_post(&a, &b, SessionEvent::ChatStreamRead(m)),
        stream_first ==> chat_post(&b, &c, SessionEvent::DataReceived { topic, payload, sender_sid, sender_name }),
        !stream_first ==> chat_post(&a, &b, SessionEvent::DataReceived { topic, payload, sender_sid, sender_name }),
        !stream_first ==> chat_post(&b, &c, SessionEvent::ChatStreamRead(m)),
    ensures
        c.transcript() == a.transcript().push(m),
{
}

/// A legacy data message not flagged `ignoreLegacy: true` is the sole
/// delivery of its message: it adds exactly one entry, whatever its text.
pub proof fn lemma_unflagged_legacy_recorded(
    a: RoomSession,
    b: RoomSession,
    topic: Option<String>,
    payload: Vec<u8>,
    sender_sid: String,
    sender_name: String,
)
    requires
        legacy_text_of(topic, payload@) matches Some(t) && json_bool_at(t, "ignoreLegacy"@) != Some(true),
        chat_post(&a, &b, SessionEvent::DataReceived { topic, payload, sender_sid, sender_name }),
    ensures
        b.transcript().len() == a.transcript().len() + 1,
        b.transcript().drop_last() == a.transcript(),
        b.transcript().last().sender_sid@ == sender_sid@,
{
}

/// Whether `pubs`, a participant's publications as (kind, muted) pairs,
/// hold a muted audio track.
pub open spec fn has_muted_audio(pubs: Seq<(TrackKind, bool)>) -> bool {
    exists|i: int| 0 <= i < pubs.len() && (#[trigger] pubs[i]).0 == TrackKind::Audio && pubs[i].1
}

fn any_muted_audio(pubs: &Vec<(TrackKind, bool)>) -> (r: bool)
    ensures
        r == has_muted_audio(pubs@),
{
    let mut i: usize = 0;
    while i < pubs.len()
        invariant
            i <= pubs@.len(),
            forall|k: int| 0 <= k < i ==> !((#[trigger] pubs@[k]).0 == TrackKind::Audio && pubs@[k].1),
        decreases pubs@.len() - i,
    {
        let (kind, muted) = pubs[i];
        if kind == TrackKind::Audio && muted {
            return true;
        }
        i = i + 1;
    }
    false
}

fn any_video(pubs: &Vec<(TrackKind, bool)>) -> (r: bool)
    ensures
        r == exists|i: int| 0 <= i < pubs@.len() && (#[trigger] pubs@[i]).0 == TrackKind::Video,
{
    let mut i: usize = 0;
    while i < pubs.len()
        invariant
            i <= pubs@.len(),
            forall|k: int| 0 <= k < i ==> (#[trigger] pubs@[k]).0 != TrackKind::Video,
        decreases pubs@.len() - i,
    {
        let (kind, _) = pubs[i];
        if kind == TrackKind::Video {
            return true;
        }
        i = i + 1;
    }
    false
}

/// The roster entry of a remote participant: no name when the name is
/// empty; muted when a published audio track is muted; video is recorded
/// only once a video track is subscribed.
pub fn remote_participant_info(sid: String, identity: String, name: String, pubs: &Vec<(TrackKind, bool)>) -> (r: ParticipantInfo)
    ensures
        r.sid == sid,
        r.identity == identity,
        r.name == if name@.len() == 0 { None::<String> } else { Some(name) },
        r.is_muted == has_muted_audio(pubs@),
        !r.has_video,
        r.video_track_sid is None,
        r.connection_quality == ConnectionQuality::Good,
{
    let name = if name.as_str().is_empty() { None } else { Some(name) };
    ParticipantInfo {
        sid,
        identity,
        name,
        is_muted: any_muted_audio(pubs),
        has_video: false,
        video_track_sid: None,
        connection_quality: ConnectionQuality::Good,
    }
}

/// The self-view entry of the local participant: it has video when it
/// publishes a video track, shown from the local camera.
pub fn local_participant_info(sid: String, identity: String, name: String, pubs: &Vec<(TrackKind, bool)>) -> (r: ParticipantInfo)
    ensures
        r.sid == sid,
        r.identity == identity,
        r.name == if name@.len() == 0 { None::<String> } else { Some(name) },
        r.is_muted == has_muted_audio(pubs@),
        r.has_video == exists|i: int| 0 <= i < pubs@.len() && (#[trigger] pubs@[i]).0 == TrackKind::Video,
        r.video_track_sid is Some <==> r.has_video,
        r.video_track_sid matches Some(v) ==> v@ == LOCAL_CAMERA_TRACK@,
        r.connection_quality == ConnectionQuality::Excellent,
{
    let name = if name.as_str().is_empty() { None } else { Some(name) };
    let has_video = any_video(pubs);
    ParticipantInfo {
        sid,
        identity,
        name,
        is_muted: any_muted_audio(pubs),
        has_video,
        video_track_sid: if has_video { Some(LOCAL_CAMERA_TRACK.to_owned()) } else { None },
        connection_quality: ConnectionQuality::Excellent,
    }
}

} // verus!
