use visio_core::settings::{default_true, Settings};

#[test]
fn test_default_settings() {
    let s = Settings::default();
    assert_eq!(s.display_name, None);
    assert_eq!(s.language, None);
    assert!(s.mic_enabled_on_join);
    assert!(!s.camera_enabled_on_join);
}

#[test]
fn default_flag_is_on() {
    assert!(default_true());
}
