use crate::events::{ChatMessage, VisioEvent};
use vstd::prelude::*;

verus! {

/// Topic of the text streams that carry chat messages.
pub const CHAT_STREAM_TOPIC: &'static str = "lk.chat";

/// Topic of the legacy data-channel chat messages.
pub const LEGACY_CHAT_TOPIC: &'static str = "lk-chat-topic";

/// The text whose UTF-8 encoding is `b`, or `None` when `b` is not valid UTF-8.
pub uninterp spec fn utf8_text(b: Seq<u8>) -> Option<Seq<char>>;

/// Whether serde_json reads `s` as one JSON value: well formed, and nested
/// no deeper than its recursion limit.
pub uninterp spec fn is_json_document(s: Seq<char>) -> bool;

/// The boolean at `key` of the JSON object that `s` holds; `None` when `s`
/// is no JSON object or the field is absent or not a boolean.
pub uninterp spec fn json_bool_at(s: Seq<char>, key: Seq<char>) -> Option<bool>;

/// The string at `key` of the JSON object that `s` holds; `None` when `s`
/// is no JSON object or the field is absent or not a string.
pub uninterp spec fn json_str_at(s: Seq<char>, key: Seq<char>) -> Option<Seq<char>>;

/// The unsigned integer at `key` of the JSON object that `s` holds; `None`
/// when `s` is no JSON object or the field is absent or not a `u64`.
pub uninterp spec fn json_u64_at(s: Seq<char>, key: Seq<char>) -> Option<u64>;

/// Relies on `std::str::from_utf8`: the text of valid UTF-8 bytes, `None` otherwise.
#[verifier::external_body]
fn decode_utf8(b: &[u8]) -> (r: Option<String>)
    ensures
        utf8_text(b@) is None ==> r is None,
        utf8_text(b@) is Some ==> r is Some && r->0@ == utf8_text(b@)->0,
{
    std::str::from_utf8(b).ok().map(|s| s.to_string())
}

/// Relies on `serde_json::from_str::<serde_json::Value>`: whether the text
/// is accepted depends on the text alone.
#[verifier::external_body]
fn parses_as_json(text: &str) -> (r: bool)
    ensures
        r == is_json_document(text@),
{
    serde_json::from_str::<serde_json::Value>(text).is_ok()
}

/// Relies on `serde_json::from_str::<serde_json::Value>`, `Value[key]` (null
/// when absent or not an object) and `Value::as_bool`: the result depends on
/// the text and the key alone.
#[verifier::external_body]
fn json_bool_field(text: &str, key: &str) -> (r: Option<bool>)
    ensures
        r == json_bool_at(text@, key@),
{
    serde_json::from_str::<serde_json::Value>(text).ok().and_then(|v| v[key].as_bool())
}

/// Relies on `serde_json::from_str::<serde_json::Value>`, `Value[key]` and
/// `Value::as_str`: the result depends on the text and the key alone.
#[verifier::external_body]
fn json_str_field(text: &str, key: &str) -> (r: Option<String>)
    ensures
        r is Some <==> json_str_at(text@, key@) is Some,
        r is Some ==> r->0@ == json_str_at(text@, key@)->0,
{
    serde_json::from_str::<serde_json::Value>(text).ok().and_then(|v| v[key].as_str().map(|s| s.to_string()))
}

/// Relies on `serde_json::from_str::<serde_json::Value>`, `Value[key]` and
/// `Value::as_u64`: the result depends on the text and the key alone.
#[verifier::external_body]
fn json_u64_field(text: &str, key: &str) -> (r: Option<u64>)
    ensures
        r == json_u64_at(text@, key@),
{
    serde_json::from_str::<serde_json::Value>(text).ok().and_then(|v| v[key].as_u64())
}

/// The text of an optional string.
pub open spec fn opt_view(o: Option<String>) -> Option<Seq<char>> {
    match o {
        Some(s) => Some(s@),
        None => None,
    }
}

pub open spec fn text_or_empty_of(o: Option<Seq<char>>) -> Seq<char> {
    match o {
        Some(s) => s,
        None => Seq::empty(),
    }
}

/// Whether `r` is what a legacy chat envelope yields, given its fields: an
/// envelope flagged `ignoreLegacy: true` was delivered through a text stream
/// already and yields nothing; any other is the sole delivery of its
/// message, missing fields read as empty text and zero.
pub open spec fn is_legacy_message(
    r: Option<ChatMessage>,
    ignore_legacy: Option<bool>,
    id: Option<Seq<char>>,
    text: Option<Seq<char>>,
    timestamp: Option<u64>,
    sender_sid: Seq<char>,
    sender_name: Seq<char>,
) -> bool {
    if ignore_legacy == Some(true) {
        r is None
    } else {
        &&& r is Some
        &&& r->0.id@ == text_or_empty_of(id)
        &&& r->0.text@ == text_or_empty_of(text)
        &&& r->0.sender_sid@ == sender_sid
        &&& r->0.sender_name@ == sender_name
        &&& r->0.timestamp_ms == match timestamp {
            Some(t) => t,
            None => 0,
        }
    }
}

/// Whether `r` is what the legacy payload whose text is `t` yields.
pub open spec fn is_legacy_payload_message(r: Option<ChatMessage>, t: Seq<char>, sender_sid: Seq<char>, sender_name: Seq<char>) -> bool {
    is_legacy_message(
        r,
        json_bool_at(t, "ignoreLegacy"@),
        json_str_at(t, "id"@),
        json_str_at(t, "message"@),
        json_u64_at(t, "timestamp"@),
        sender_sid,
        sender_name,
    )
}

/// The text of a legacy payload, when it is UTF-8 holding one JSON value.
pub open spec fn legacy_payload_text(payload: Seq<u8>) -> Option<Seq<char>> {
    match utf8_text(payload) {
        Some(t) => if is_json_document(t) {
            Some(t)
        } else {
            None
        },
        None => None,
    }
}

fn text_or_empty(o: Option<String>) -> (r: String)
    ensures
        r@ == text_or_empty_of(opt_view(o)),
{
    match o {
        Some(s) => s,
        None => String::new(),
    }
}

/// The chat message that a legacy envelope with these fields yields, if any.
pub fn legacy_envelope_message(
    ignore_legacy: Option<bool>,
    id: Option<String>,
    text: Option<String>,
    timestamp: Option<u64>,
    sender_sid: String,
    sender_name: String,
) -> (r: Option<ChatMessage>)
    ensures
        is_legacy_message(r, ignore_legacy, opt_view(id), opt_view(text), timestamp, sender_sid@, sender_name@),
{
    if ignore_legacy == Some(true) {
        return None;
    }
    let text = text_or_empty(text);
    let id = text_or_empty(id);
    let timestamp_ms = match timestamp {
        Some(t) => t,
        None => 0,
    };
    Some(ChatMessage { id, sender_sid, sender_name, text, timestamp_ms })
}

/// The fields of a legacy chat envelope; absent or mistyped fields are `None`.
#[derive(Debug, Clone)]
pub struct LegacyEnvelope {
    pub ignore_legacy: Option<bool>,
    pub id: Option<String>,
    pub message: Option<String>,
    pub timestamp: Option<u64>,
}

/// Whether `env` holds the fields of the JSON text `t`.
pub open spec fn is_envelope_of(env: LegacyEnvelope, t: Seq<char>) -> bool {
    &&& env.ignore_legacy == json_bool_at(t, "ignoreLegacy"@)
    &&& opt_view(env.id) == json_str_at(t, "id"@)
    &&& opt_view(env.message) == json_str_at(t, "message"@)
    &&& env.timestamp == json_u64_at(t, "timestamp"@)
}

/// Decodes a legacy chat payload: UTF-8 text holding one JSON value, whose
/// fields `ignoreLegacy`, `id`, `message` and `timestamp` are read.
/// Malformed payloads yield `None`.
pub fn decode_legacy_envelope(payload: &[u8]) -> (r: Option<LegacyEnvelope>)
    ensures
        r is Some <==> legacy_payload_text(payload@) is Some,
        r is Some ==> is_envelope_of(r->0, legacy_payload_text(payload@)->0),
{
    let text = match decode_utf8(payload) {
        Some(t) => t,
        None => return None,
    };
    if !parses_as_json(text.as_str()) {
        return None;
    }
    let t = text.as_str();
    Some(LegacyEnvelope {
        ignore_legacy: json_bool_field(t, "ignoreLegacy"),
        id: json_str_field(t, "id"),
        message: json_str_field(t, "message"),
        timestamp: json_u64_field(t, "timestamp"),
    })
}

/// The chat message that a legacy payload carries: none when it is
/// malformed or flagged as delivered through a text stream already.
pub fn decode_legacy_chat(payload: &[u8], sender_sid: String, sender_name: String) -> (r: Option<ChatMessage>)
    ensures
        legacy_payload_text(payload@) is None ==> r is None,
        legacy_payload_text(payload@) matches Some(t) ==> is_legacy_payload_message(r, t, sender_sid@, sender_name@),
{
    match decode_legacy_envelope(payload) {
        Some(env) => legacy_envelope_message(env.ignore_legacy, env.id, env.message, env.timestamp, sender_sid, sender_name),
        None => None,
    }
}

/// The session's chat: the transcript, in order of arrival, and the count
/// of messages received while the chat panel was closed.
pub struct ChatService {
    messages: Vec<ChatMessage>,
    unread_count: u32,
    chat_open: bool,
}

impl ChatService {
    pub closed spec fn transcript(&self) -> Seq<ChatMessage> {
        self.messages@
    }

    pub closed spec fn unread(&self) -> u32 {
        self.unread_count
    }

    pub closed spec fn is_open(&self) -> bool {
        self.chat_open
    }

    pub fn new() -> (r: Self)
        ensures
            r.transcript() == Seq::<ChatMessage>::empty(),
            r.unread() == 0,
            !r.is_open(),
    {
        ChatService { messages: Vec::new(), unread_count: 0, chat_open: false }
    }

    /// A copy of the transcript.
    pub fn messages(&self) -> (r: Vec<ChatMessage>)
        ensures
            r@ == self.transcript(),
    {
        let mut r: Vec<ChatMessage> = Vec::new();
        let mut i: usize = 0;
        while i < self.messages.len()
            invariant
                i <= self.messages@.len(),
                r@ == self.messages@.take(i as int),
            decreases self.messages@.len() - i,
        {
            r.push(self.messages[i].duplicate());
            proof {
                assert(self.messages@.take(i + 1) =~= self.messages@.take(i as int).push(self.messages@[i as int]));
            }
            i = i + 1;
        }
        proof {
            assert(self.messages@.take(self.messages@.len() as int) =~= self.messages@);
        }
        r
    }

    /// Appends a message that needs no unread accounting (one the local
    /// participant sent, or one the session loop recorded), and returns its
    /// notification.
    pub fn record(&mut self, msg: ChatMessage) -> (e: VisioEvent)
        ensures
            final(self).transcript() == old(self).transcript().push(msg),
            final(self).unread() == old(self).unread(),
            final(self).is_open() == old(self).is_open(),
            e == VisioEvent::ChatMessageReceived(msg),
    {
        let copy = msg.duplicate();
        self.messages.push(msg);
        VisioEvent::ChatMessageReceived(copy)
    }

    /// Appends a received message and returns the notifications: the
    /// message, then, while the panel is closed, the new unread count.
    pub fn handle_incoming(&mut self, msg: ChatMessage) -> (events: Vec<VisioEvent>)
        ensures
            final(self).transcript() == old(self).transcript().push(msg),
            final(self).is_open() == old(self).is_open(),
            final(self).unread() == if old(self).is_open() {
                old(self).unread()
            } else {
                old(self).unread().wrapping_add(1)
            },
            events@.len() == if old(self).is_open() { 1int } else { 2int },
            events@[0] == VisioEvent::ChatMessageReceived(msg),
            !old(self).is_open() ==> events@[1] == VisioEvent::UnreadCountChanged(final(self).unread()),
    {
        let copy = msg.duplicate();
        self.messages.push(msg);
        let mut events: Vec<VisioEvent> = Vec::new();
        events.push(VisioEvent::ChatMessageReceived(copy));
        if !self.chat_open {
            self.unread_count = self.unread_count.wrapping_add(1);
            events.push(VisioEvent::UnreadCountChanged(self.unread_count));
        }
        events
    }

    /// Empties the transcript and the unread count.
    pub fn clear(&mut self)
        ensures
            final(self).transcript() == Seq::<ChatMessage>::empty(),
            final(self).unread() == 0,
            final(self).is_open() == old(self).is_open(),
    {
        self.messages.clear();
        self.unread_count = 0;
    }

    /// Marks the chat panel open or closed. Opening it resets the unread
    /// count and returns the notification of the reset.
    pub fn set_chat_open(&mut self, open: bool) -> (e: Option<VisioEvent>)
        ensures
            final(self).is_open() == open,
            final(self).transcript() == old(self).transcript(),
            final(self).unread() == if open { 0 } else { old(self).unread() },
            e == if open { Some(VisioEvent::UnreadCountChanged(0)) } else { None::<VisioEvent> },
    {
        self.chat_open = open;
        if open {
            self.unread_count = 0;
            Some(VisioEvent::UnreadCountChanged(0))
        } else {
            None
        }
    }

    pub fn unread_count(&self) -> (r: u32)
        ensures
            r == self.unread(),
    {
        self.unread_count
    }
}

} // verus!
