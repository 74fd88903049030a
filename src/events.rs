use vstd::prelude::*;

verus! {

/// Connection state of the session.
#[derive(Debug, Clone, Copy, PartialEq, Eq, Structural)]
pub enum ConnectionState {
    Disconnected,
    Connecting,
    Connected,
    Reconnecting { attempt: u32 },
}

/// Link quality reported by the transport for one participant.
#[derive(Debug, Clone, Copy, PartialEq, Eq, Structural)]
pub enum ConnectionQuality {
    Excellent,
    Good,
    Poor,
    Lost,
}

#[derive(Debug, Clone, Copy, PartialEq, Eq, Structural)]
pub enum TrackKind {
    Audio,
    Video,
}

#[derive(Debug, Clone, Copy, PartialEq, Eq, Structural)]
pub enum TrackSource {
    Microphone,
    Camera,
    ScreenShare,
    Unknown,
}

/// One remote participant of the session.
#[derive(Debug, Clone)]
pub struct ParticipantInfo {
    pub sid: String,
    pub identity: String,
    pub name: Option<String>,
    pub is_muted: bool,
    pub has_video: bool,
    pub video_track_sid: Option<String>,
    pub connection_quality: ConnectionQuality,
}

/// A subscribed media track.
#[derive(Debug, Clone)]
pub struct TrackInfo {
    pub sid: String,
    pub participant_sid: String,
    pub kind: TrackKind,
    pub source: TrackSource,
}

/// One chat message of the transcript. Never changed once recorded.
#[derive(Debug, Clone)]
pub struct ChatMessage {
    pub id: String,
    pub sender_sid: String,
    pub sender_name: String,
    pub text: String,
    pub timestamp_ms: u64,
}

/// Application events delivered to the registered listeners.
#[derive(Debug, Clone)]
pub enum VisioEvent {
    ConnectionStateChanged(ConnectionState),
    ParticipantJoined(ParticipantInfo),
    ParticipantLeft(String),
    TrackSubscribed(TrackInfo),
    TrackUnsubscribed(String),
    TrackMuted { participant_sid: String, source: TrackSource },
    TrackUnmuted { participant_sid: String, source: TrackSource },
    ActiveSpeakersChanged(Vec<String>),
    ConnectionQualityChanged { participant_sid: String, quality: ConnectionQuality },
    ChatMessageReceived(ChatMessage),
    HandRaisedChanged { participant_sid: String, raised: bool, position: u32 },
    UnreadCountChanged(u32),
}

/// Errors handed back to callers of the library.
#[derive(Debug, Clone, PartialEq, Eq)]
pub enum VisioError {
    Connection(String),
    Room(String),
    Auth(String),
    Http(String),
    InvalidUrl(String),
}

/// A copy of an optional string.
pub fn copy_opt_string(s: &Option<String>) -> (r: Option<String>)
    ensures
        r == *s,
{
    match s {
        Some(v) => Some(v.clone()),
        None => None,
    }
}

impl ParticipantInfo {
    /// A field-by-field copy.
    pub fn duplicate(&self) -> (r: ParticipantInfo)
        ensures
            r == *self,
    {
        ParticipantInfo {
            sid: self.sid.clone(),
            identity: self.identity.clone(),
            name: copy_opt_string(&self.name),
            is_muted: self.is_muted,
            has_video: self.has_video,
            video_track_sid: copy_opt_string(&self.video_track_sid),
            connection_quality: self.connection_quality,
        }
    }
}

impl ChatMessage {
    /// A field-by-field copy.
    pub fn duplicate(&self) -> (r: ChatMessage)
        ensures
            r == *self,
    {
        ChatMessage {
            id: self.id.clone(),
            sender_sid: self.sender_sid.clone(),
            sender_name: self.sender_name.clone(),
            text: self.text.clone(),
            timestamp_ms: self.timestamp_ms,
        }
    }
}

/// A copy of a list of strings.
pub fn copy_strings(v: &Vec<String>) -> (r: Vec<String>)
    ensures
        r@ == v@,
{
    let mut r: Vec<String> = Vec::new();
    let mut i: usize = 0;
    while i < v.len()
        invariant
            i <= v@.len(),
            r@ == v@.take(i as int),
        decreases v@.len() - i,
    {
        r.push(v[i].clone());
        proof {
            assert(v@.take(i + 1) =~= v@.take(i as int).push(v@[i as int]));
        }
        i = i + 1;
    }
    proof {
        assert(v@.take(v@.len() as int) =~= v@);
    }
    r
}

/// Whether `s` equals `t` character for character.
pub fn same_text(s: &str, t: &str) -> (r: bool)
    ensures
        r == (s@ == t@),
{
    let a = s.to_owned();
    let b = t.to_owned();
    a == b
}

} // verus!
