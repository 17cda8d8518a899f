//! Window-manager settings read from the settings daemon.

use vstd::prelude::*;

verus! {

/// The window manager's settings.
#[derive(Debug, Clone)]
pub struct Settings {
    /// What a double click on a title bar does.
    pub double_click_action: String,
}

impl Settings {
    /// The settings used when the daemon gives none: a double click
    /// maximizes.
    pub fn defaults() -> (r: Self)
        ensures
            r.double_click_action@ == "maximize"@,
    {
        Settings { double_click_action: String::from_str("maximize") }
    }

    /// Whether a double click on a title bar maximizes the window.
    pub fn double_click_maximizes(&self) -> (r: bool)
        ensures
            r == (self.double_click_action@ == "maximize"@),
    {
        let a = crate::text::chars_of(self.double_click_action.as_str());
        let m = crate::text::chars_of("maximize");
        crate::text::same_chars(&a, &m)
    }
}

impl Default for Settings {
    fn default() -> (r: Self)
        ensures
            r.double_click_action@ == "maximize"@,
    {
        Settings::defaults()
    }
}

/// The settings in use.
pub struct SettingsManager {
    pub current: Settings,
}

impl SettingsManager {
    /// The manager with the default settings, before the daemon is asked.
    pub fn new() -> (r: Self)
        ensures
            r.current.double_click_action@ == "maximize"@,
    {
        SettingsManager { current: Settings::defaults() }
    }

    /// Takes the daemon's `/general/double_click_action`, when it gave a
    /// text for it.
    pub fn apply_double_click_action(&mut self, value: Option<String>)
        ensures
            value matches Some(v) ==> final(self).current.double_click_action@ == v@,
            value is None ==> final(self).current.double_click_action@ == old(self).current.double_click_action@,
    {
        if let Some(v) = value {
            self.current.double_click_action = v;
        }
    }
}

} // verus!
