use vstd::prelude::*;

verus! {

/// The user's preferences.
#[derive(Debug, Clone, PartialEq)]
pub struct Settings {
    pub display_name: Option<String>,
    pub language: Option<String>,
    pub mic_enabled_on_join: bool,
    pub camera_enabled_on_join: bool,
}

/// The value of a flag that is on unless stored otherwise.
pub fn default_true() -> (r: bool)
    ensures
        r,
{
    true
}

impl Default for Settings {
    /// No display name or language; microphone on and camera off on join.
    fn default() -> (r: Settings)
        ensures
            r.display_name is None,
            r.language is None,
            r.mic_enabled_on_join,
            !r.camera_enabled_on_join,
    {
        Settings { display_name: None, language: None, mic_enabled_on_join: default_true(), camera_enabled_on_join: false }
    }
}

} // verus!
