//! Client-side session core of a multi-party real-time meeting application.
//!
//! The library turns the transport's stream of session events into a
//! consistent application state (roster, chat transcript, hand-raise queue,
//! per-track renderer registry) and decides, for each event, which effects
//! the surrounding runtime must carry out.
pub mod audio_playout;
pub mod auth;
pub mod chat;
pub mod events;
pub mod hand_raise;
pub mod participants;
pub mod renderer;
pub mod session;
pub mod settings;
pub mod timestamps;

pub use audio_playout::AudioPlayoutBuffer;
pub use auth::{AuthService, TokenInfo};
pub use chat::ChatService;
pub use events::{
    ChatMessage, ConnectionQuality, ConnectionState, ParticipantInfo, TrackInfo, TrackKind, TrackSource, VisioError,
    VisioEvent,
};
pub use hand_raise::HandRaiseManager;
pub use participants::ParticipantManager;
pub use renderer::TrackRendererRegistry;
pub use session::RoomSession;
pub use settings::Settings;
