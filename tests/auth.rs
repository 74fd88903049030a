use visio_core::auth::{trim_text, AuthService};
use visio_core::events::VisioError;

#[test]
fn parse_meet_url_with_https() {
    let (instance, slug) = AuthService::parse_meet_url("https://meet.example.com/my-room").unwrap();
    assert_eq!(instance, "meet.example.com");
    assert_eq!(slug, "my-room");
}

#[test]
fn parse_meet_url_without_scheme() {
    let (instance, slug) = AuthService::parse_meet_url("meet.example.com/room-123").unwrap();
    assert_eq!(instance, "meet.example.com");
    assert_eq!(slug, "room-123");
}

#[test]
fn parse_meet_url_with_trailing_slash() {
    let (instance, slug) = AuthService::parse_meet_url("https://meet.example.com/my-room/").unwrap();
    assert_eq!(instance, "meet.example.com");
    assert_eq!(slug, "my-room");
}

#[test]
fn parse_meet_url_invalid() {
    assert!(AuthService::parse_meet_url("invalid").is_err());
    assert!(AuthService::parse_meet_url("").is_err());
}

#[test]
fn extract_slug_from_full_url() {
    let slug = AuthService::extract_slug("https://meet.linagora.com/dpd-jffv-trg").unwrap();
    assert_eq!(slug, "dpd-jffv-trg");
}

#[test]
fn extract_slug_from_bare_slug() {
    let slug = AuthService::extract_slug("dpd-jffv-trg").unwrap();
    assert_eq!(slug, "dpd-jffv-trg");
}

#[test]
fn extract_slug_invalid_format() {
    assert!(AuthService::extract_slug("hello").is_err());
    assert!(AuthService::extract_slug("").is_err());
    assert!(AuthService::extract_slug("abc-defg-hi").is_err());
    assert!(AuthService::extract_slug("ABC-DEFG-HIJ").is_err());
}

#[test]
fn extract_slug_from_url_with_trailing_slash() {
    let slug = AuthService::extract_slug("https://meet.example.com/abc-defg-hij/").unwrap();
    assert_eq!(slug, "abc-defg-hij");
}

#[test]
fn parse_meet_url_error_is_invalid_url() {
    match AuthService::parse_meet_url("  meet.example.com/  ") {
        Err(VisioError::InvalidUrl(msg)) => assert_eq!(msg, "expected 'instance/room-slug', got 'meet.example.com'"),
        other => panic!("unexpected {other:?}"),
    }
}

#[test]
fn parse_meet_url_trims_whitespace_and_http() {
    let (instance, slug) = AuthService::parse_meet_url("  http://meet.example.com/a/b//  ").unwrap();
    assert_eq!(instance, "meet.example.com");
    assert_eq!(slug, "a/b");
}

#[test]
fn extract_slug_error_names_candidate() {
    match AuthService::extract_slug(" https://x.org/Abc-defg-hij ") {
        Err(VisioError::InvalidUrl(msg)) => assert_eq!(msg, "invalid room slug format: 'Abc-defg-hij'"),
        other => panic!("unexpected {other:?}"),
    }
}

#[test]
fn meet_api_url_encodes_username() {
    let url = AuthService::meet_api_url("meet.example.com", "abc-defg-hij", Some("Jean Dupont&co"));
    assert_eq!(url, "https://meet.example.com/api/v1.0/rooms/abc-defg-hij/?username=Jean%20Dupont%26co");
    let bare = AuthService::meet_api_url("meet.example.com", "abc-defg-hij", None);
    assert_eq!(bare, "https://meet.example.com/api/v1.0/rooms/abc-defg-hij/");
}

#[test]
fn token_request_url_from_meeting_address() {
    let url = AuthService::token_request_url("https://meet.example.com/my-room/", None).unwrap();
    assert_eq!(url, "https://meet.example.com/api/v1.0/rooms/my-room/");
    assert!(matches!(AuthService::token_request_url("nothing", None), Err(VisioError::InvalidUrl(_))));
}

#[test]
fn token_info_uses_websocket_scheme() {
    let secure = AuthService::token_info("https://lk.example.com", "tok".to_string());
    assert_eq!(secure.livekit_url, "wss://lk.example.com");
    assert_eq!(secure.token, "tok");
    let plain = AuthService::token_info("http://localhost:7880", "t".to_string());
    assert_eq!(plain.livekit_url, "ws://localhost:7880");
}

#[test]
fn unicode_whitespace_is_trimmed() {
    let (instance, slug) = AuthService::parse_meet_url("\u{3000}\u{a0}meet.example.com/room\u{2029}\t").unwrap();
    assert_eq!(instance, "meet.example.com");
    assert_eq!(slug, "room");
    for s in ["", "  ", " a b ", "\u{85}x\u{200b}", "\u{1680}\u{2000}y\u{200a}\u{202f}\u{205f}"] {
        assert_eq!(trim_text(s), s.trim(), "input {s:?}");
    }
}
