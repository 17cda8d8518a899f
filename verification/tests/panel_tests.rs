use xfce_rs::panel::config::{PanelConfig, PanelPosition as ConfigPosition};
use xfce_rs::panel::plugins::{
    is_plugin_file, plugin_description, PluginInfo, PluginSlot, SeparatorApp, SeparatorStyle, ShowDesktopApp, SlotLabel,
};
use xfce_rs::panel::settings::{
    AutohideBehavior, PanelMode, PanelPosition, PanelSettings, SettingsAction, SettingsApp, SettingsMessage,
};
use xfce_rs::ipc::{XfceIpcClient, XfceIpcService};

#[test]
fn test_styles_constructed() {
    let _ = SeparatorStyle::Transparent;
    let _ = SeparatorStyle::Separator;
    let _ = SeparatorStyle::Handle;
    let _ = SeparatorStyle::Dots;
}

#[test]
fn plugin_titles_and_toggle() {
    let s = SeparatorApp::new();
    assert_eq!(s.title(), "Separator");
    assert_eq!(s.style, SeparatorStyle::Separator);
    let mut d = ShowDesktopApp::new();
    assert_eq!(d.title(), "Show Desktop");
    assert!(!d.is_shown);
    assert!(d.toggle());
    assert_eq!(d.wmctrl_argument(), "on");
    assert!(!d.toggle());
    assert_eq!(d.wmctrl_argument(), "off");
}

#[test]
fn default_panel_config_and_settings() {
    let c = PanelConfig::default();
    assert_eq!(c.position, ConfigPosition::Bottom);
    assert_eq!(c.height, 48);
    assert_eq!(c.plugins, vec!["clock".to_string()]);
    let s = PanelSettings::default();
    assert_eq!(s.size, 48);
    assert_eq!(s.icon_size, 0);
    assert_eq!(s.position, PanelPosition::Bottom);
    assert_eq!(s.autohide, AutohideBehavior::Never);
    assert_eq!(s.autohide_size, 3);
    assert_eq!(s.popdown_speed, 25);
    assert_eq!(s.mode, PanelMode::Horizontal);
    assert_eq!(s.nrows, 1);
    assert_eq!(s.length, None);
    assert!(s.enable_struts && s.keep_below);
}

#[test]
fn labels() {
    assert_eq!(PanelPosition::Right.label(), "Right");
    assert_eq!(PanelMode::Vertical.label(), "Vertical");
    assert_eq!(AutohideBehavior::Intelligently.label(), "Intelligently");
}

#[test]
fn config_path_under_directory() {
    assert_eq!(PanelSettings::config_path_in(Some("/home/u/.config".to_string())), "/home/u/.config/xfce-rs/panel.toml");
    assert_eq!(PanelSettings::config_path_in(None), "./xfce-rs/panel.toml");
}

#[test]
fn settings_dialog_flow() {
    let mut app = SettingsApp::new(PanelSettings::default());
    assert_eq!(app.title(), "Panel Settings");
    assert_eq!(app.update(SettingsMessage::SizeChanged(64)), SettingsAction::Nothing);
    assert_eq!(app.get_settings().size, 64);
    assert!(!app.saved);
    assert_eq!(app.update(SettingsMessage::Save), SettingsAction::Save);
    app.finish_save(true);
    assert!(app.saved);
    assert_eq!(app.update(SettingsMessage::LengthChanged(Some(800))), SettingsAction::Nothing);
    assert_eq!(app.get_settings().length, Some(800));
    assert!(!app.saved);
    app.finish_save(false);
    assert!(!app.saved);
    assert_eq!(app.update(SettingsMessage::Cancel), SettingsAction::Reload);
    app.reload(PanelSettings::default());
    assert_eq!(app.get_settings().size, 48);
}

#[test]
fn ipc_client_connects() {
    let _service = XfceIpcService::new();
    let mut c = XfceIpcClient::new();
    assert!(!c.is_connected());
    c.connect();
    assert!(c.is_connected());
    assert_eq!(c.connection.as_deref(), Some("connected"));
    assert_eq!(c.status_text(), "XFCE.rs IPC Service running");
}

#[test]
fn plugin_files_and_descriptions() {
    assert!(is_plugin_file("xfce-rs-clock"));
    assert!(!is_plugin_file("xfce-rs-panel.toml"));
    assert!(!is_plugin_file("clock"));
    assert_eq!(plugin_description("xfce-rs-show-desktop"), "Show Desktop");
    assert_eq!(plugin_description("xfce-rs-clock"), "Clock");
    assert_eq!(plugin_description("xfce-rs-a--b"), "A B");
    let p = PluginInfo::discovered("xfce-rs-tasklist", "target/release/xfce-rs-tasklist").unwrap();
    assert_eq!(p.name, "xfce-rs-tasklist");
    assert_eq!(p.binary, "target/release/xfce-rs-tasklist");
    assert_eq!(p.description, "Tasklist");
    assert!(!p.detached);
    assert!(PluginInfo::discovered("libfoo.so", "target/release/libfoo.so").is_none());
}

#[test]
fn plugin_slots() {
    let info = PluginInfo::discovered("xfce-rs-clock", "bin/xfce-rs-clock").unwrap();
    let mut slot = PluginSlot::new(info);
    assert!(!slot.is_embedded());
    slot.set_position();
    assert!(slot.is_embedded());
    assert_eq!(slot.plugin_name(), "xfce-rs-clock");
    assert!(matches!(slot.label(), SlotLabel::Embedded { description } if description == "Clock"));
    slot.plugin.detached = true;
    slot.set_running(true);
    assert!(!slot.is_embedded());
    assert!(matches!(slot.label(), SlotLabel::Detached { name, running: true } if name == "xfce-rs-clock"));
}
