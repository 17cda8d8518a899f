//! Panel settings, where they are stored, and the settings dialog's state.

use vstd::prelude::*;

verus! {

/// What `dirs::config_dir()` finds for the current user, as text.
#[verifier::external_body]
pub(crate) fn user_config_dir() -> (r: Option<String>) {
    dirs::config_dir().map(|p| p.to_string_lossy().to_string())
}

/// Screen edge of the panel.
#[derive(Debug, Clone, Copy, PartialEq, Eq, Structural)]
pub enum PanelPosition {
    Top,
    Bottom,
    Left,
    Right,
}

/// Orientation of the panel.
#[derive(Debug, Clone, Copy, PartialEq, Eq, Structural)]
pub enum PanelMode {
    Horizontal,
    Vertical,
}

/// When the panel hides itself.
#[derive(Debug, Clone, Copy, PartialEq, Eq, Structural)]
pub enum AutohideBehavior {
    Never,
    Intelligently,
    Always,
}

/// The panel's appearance, position, behavior and layout.
#[derive(Debug, Clone, Copy, PartialEq, Eq, Structural)]
pub struct PanelSettings {
    pub size: u32,
    pub icon_size: u32,
    pub dark_mode: bool,
    pub position: PanelPosition,
    pub position_locked: bool,
    pub span_monitors: bool,
    pub autohide: AutohideBehavior,
    pub autohide_size: u32,
    pub popdown_speed: u32,
    pub mode: PanelMode,
    pub nrows: u32,
    pub length: Option<u32>,
    pub length_max: Option<u32>,
    pub enable_struts: bool,
    pub keep_below: bool,
}

impl PanelPosition {
    /// The name shown for the position.
    pub fn label(&self) -> (r: String)
        ensures
            *self == PanelPosition::Top ==> r@ == "Top"@,
            *self == PanelPosition::Bottom ==> r@ == "Bottom"@,
            *self == PanelPosition::Left ==> r@ == "Left"@,
            *self == PanelPosition::Right ==> r@ == "Right"@,
    {
        match self {
            PanelPosition::Top => String::from_str("Top"),
            PanelPosition::Bottom => String::from_str("Bottom"),
            PanelPosition::Left => String::from_str("Left"),
            PanelPosition::Right => String::from_str("Right"),
        }
    }
}

impl PanelMode {
    /// The name shown for the orientation.
    pub fn label(&self) -> (r: String)
        ensures
            *self == PanelMode::Horizontal ==> r@ == "Horizontal"@,
            *self == PanelMode::Vertical ==> r@ == "Vertical"@,
    {
        match self {
            PanelMode::Horizontal => String::from_str("Horizontal"),
            PanelMode::Vertical => String::from_str("Vertical"),
        }
    }
}

impl AutohideBehavior {
    /// The name shown for the behavior.
    pub fn label(&self) -> (r: String)
        ensures
            *self == AutohideBehavior::Never ==> r@ == "Never"@,
            *self == AutohideBehavior::Intelligently ==> r@ == "Intelligently"@,
            *self == AutohideBehavior::Always ==> r@ == "Always"@,
    {
        match self {
            AutohideBehavior::Never => String::from_str("Never"),
            AutohideBehavior::Intelligently => String::from_str("Intelligently"),
            AutohideBehavior::Always => String::from_str("Always"),
        }
    }
}

/// The settings of a new panel.
pub open spec fn default_settings() -> PanelSettings {
    PanelSettings {
        size: 48,
        icon_size: 0,
        dark_mode: false,
        position: PanelPosition::Bottom,
        position_locked: false,
        span_monitors: false,
        autohide: AutohideBehavior::Never,
        autohide_size: 3,
        popdown_speed: 25,
        mode: PanelMode::Horizontal,
        nrows: 1,
        length: None,
        length_max: None,
        enable_struts: true,
        keep_below: true,
    }
}

/// Where the settings file is under the configuration directory `dir`
/// (the current directory when there is none).
pub open spec fn spec_config_path(dir: Option<Seq<char>>) -> Seq<char> {
    let base = match dir {
        Some(d) => d,
        None => "."@,
    };
    crate::menu::join_path(crate::menu::join_path(base, "xfce-rs"@), "panel.toml"@)
}

impl PanelSettings {
    /// The settings of a new panel: a 48 pixel horizontal bottom panel that
    /// never hides, reserves its space and stays below windows.
    pub fn default_settings() -> (r: Self)
        ensures
            r == default_settings(),
    {
        PanelSettings {
            size: 48,
            icon_size: 0,
            dark_mode: false,
            position: PanelPosition::Bottom,
            position_locked: false,
            span_monitors: false,
            autohide: AutohideBehavior::Never,
            autohide_size: 3,
            popdown_speed: 25,
            mode: PanelMode::Horizontal,
            nrows: 1,
            length: None,
            length_max: None,
            enable_struts: true,
            keep_below: true,
        }
    }

    /// The settings file under the configuration directory `dir`.
    pub fn config_path_in(dir: Option<String>) -> (r: String)
        ensures
            r@ == spec_config_path(
                match dir {
                    Some(d) => Some(d@),
                    None => None,
                },
            ),
    {
        let base = match dir {
            Some(d) => d,
            None => String::from_str("."),
        };
        let app_dir = crate::menu::join_dir(&base, "xfce-rs");
        crate::menu::join_dir(&app_dir, "panel.toml")
    }

    /// The settings file of the current user.
    pub fn config_path() -> (r: String)
        ensures
            exists|d: Option<Seq<char>>| r@ == spec_config_path(d),
    {
        let dir = user_config_dir();
        Self::config_path_in(dir)
    }
}

impl Default for PanelSettings {
    fn default() -> (r: Self)
        ensures
            r == default_settings(),
    {
        PanelSettings::default_settings()
    }
}

/// A change made in the settings dialog. Sizes come as whole numbers.
#[derive(Debug, Clone, Copy, PartialEq, Eq, Structural)]
pub enum SettingsMessage {
    SizeChanged(u32),
    IconSizeChanged(u32),
    DarkModeToggled(bool),
    PositionChanged(PanelPosition),
    PositionLockedToggled(bool),
    SpanMonitorsToggled(bool),
    AutohideChanged(AutohideBehavior),
    AutohideSizeChanged(u32),
    PopdownSpeedChanged(u32),
    ModeChanged(PanelMode),
    NRowsChanged(u32),
    LengthChanged(Option<u32>),
    LengthMaxChanged(Option<u32>),
    EnableStrutsToggled(bool),
    KeepBelowToggled(bool),
    Save,
    Cancel,
}

/// What the dialog asks of the program around it after a message.
#[derive(Debug, Clone, Copy, PartialEq, Eq, Structural)]
pub enum SettingsAction {
    Nothing,
    /// Write the settings to the settings file.
    Save,
    /// Read the settings file again.
    Reload,
}

/// The settings after a change of one value.
pub open spec fn spec_apply(s: PanelSettings, m: SettingsMessage) -> PanelSettings {
    match m {
        SettingsMessage::SizeChanged(v) => PanelSettings { size: v, ..s },
        SettingsMessage::IconSizeChanged(v) => PanelSettings { icon_size: v, ..s },
        SettingsMessage::DarkModeToggled(v) => PanelSettings { dark_mode: v, ..s },
        SettingsMessage::PositionChanged(v) => PanelSettings { position: v, ..s },
        SettingsMessage::PositionLockedToggled(v) => PanelSettings { position_locked: v, ..s },
        SettingsMessage::SpanMonitorsToggled(v) => PanelSettings { span_monitors: v, ..s },
        SettingsMessage::AutohideChanged(v) => PanelSettings { autohide: v, ..s },
        SettingsMessage::AutohideSizeChanged(v) => PanelSettings { autohide_size: v, ..s },
        SettingsMessage::PopdownSpeedChanged(v) => PanelSettings { popdown_speed: v, ..s },
        SettingsMessage::ModeChanged(v) => PanelSettings { mode: v, ..s },
        SettingsMessage::NRowsChanged(v) => PanelSettings { nrows: v, ..s },
        SettingsMessage::LengthChanged(v) => PanelSettings { length: v, ..s },
        SettingsMessage::LengthMaxChanged(v) => PanelSettings { length_max: v, ..s },
        SettingsMessage::EnableStrutsToggled(v) => PanelSettings { enable_struts: v, ..s },
        SettingsMessage::KeepBelowToggled(v) => PanelSettings { keep_below: v, ..s },
        _ => s,
    }
}

/// The settings dialog: the settings being edited and whether they were
/// saved since the last change.
pub struct SettingsApp {
    pub settings: PanelSettings,
    pub saved: bool,
}

impl SettingsApp {
    /// The dialog editing `settings`, not yet saved.
    pub fn new(settings: PanelSettings) -> (r: Self)
        ensures
            r.settings == settings,
            !r.saved,
    {
        SettingsApp { settings, saved: false }
    }

    /// The window title.
    pub fn title(&self) -> (r: String)
        ensures
            r@ == "Panel Settings"@,
    {
        String::from_str("Panel Settings")
    }

    /// The settings being edited.
    pub fn get_settings(&self) -> (r: &PanelSettings)
        ensures
            *r == self.settings,
    {
        &self.settings
    }

    /// Handles a message: a change of one value marks the settings unsaved;
    /// Save asks for the settings to be written, Cancel for them to be read
    /// again (and marks them unsaved).
    pub fn update(&mut self, message: SettingsMessage) -> (r: SettingsAction)
        ensures
            message == SettingsMessage::Save ==> r == SettingsAction::Save && *final(self) == *old(self),
            message == SettingsMessage::Cancel ==> r == SettingsAction::Reload && final(self).settings
                == old(self).settings && !final(self).saved,
            message != SettingsMessage::Save && message != SettingsMessage::Cancel ==> r
                == SettingsAction::Nothing && final(self).settings == spec_apply(old(self).settings, message)
                && !final(self).saved,
    {
        match message {
            SettingsMessage::Save => {
                return SettingsAction::Save;
            },
            SettingsMessage::Cancel => {
                self.saved = false;
                return SettingsAction::Reload;
            },
            SettingsMessage::SizeChanged(v) => self.settings.size = v,
            SettingsMessage::IconSizeChanged(v) => self.settings.icon_size = v,
            SettingsMessage::DarkModeToggled(v) => self.settings.dark_mode = v,
            SettingsMessage::PositionChanged(v) => self.settings.position = v,
            SettingsMessage::PositionLockedToggled(v) => self.settings.position_locked = v,
            SettingsMessage::SpanMonitorsToggled(v) => self.settings.span_monitors = v,
            SettingsMessage::AutohideChanged(v) => self.settings.autohide = v,
            SettingsMessage::AutohideSizeChanged(v) => self.settings.autohide_size = v,
            SettingsMessage::PopdownSpeedChanged(v) => self.settings.popdown_speed = v,
            SettingsMessage::ModeChanged(v) => self.settings.mode = v,
            SettingsMessage::NRowsChanged(v) => self.settings.nrows = v,
            SettingsMessage::LengthChanged(v) => self.settings.length = v,
            SettingsMessage::LengthMaxChanged(v) => self.settings.length_max = v,
            SettingsMessage::EnableStrutsToggled(v) => self.settings.enable_struts = v,
            SettingsMessage::KeepBelowToggled(v) => self.settings.keep_below = v,
        }
        self.saved = false;
        SettingsAction::Nothing
    }

    /// Records the outcome of writing the settings: they count as saved
    /// when the write succeeded.
    pub fn finish_save(&mut self, written: bool)
        ensures
            final(self).settings == old(self).settings,
            final(self).saved == (written || old(self).saved),
    {
        if written {
            self.saved = true;
        }
    }

    /// Puts the settings read again from the file in place.
    pub fn reload(&mut self, settings: PanelSettings)
        ensures
            final(self).settings == settings,
            !final(self).saved,
    {
        self.settings = settings;
        self.saved = false;
    }
}

} // verus!
