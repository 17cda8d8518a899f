use xfce_rs::hotkey::{grab_modifiers, KeyEvent, SuperKey, SUPER_L_KEYCODE};
use xfce_rs::panel::dock::{dock_properties, find_named_window, DockAtoms, NamedWindow};
use xfce_rs::panel::plugins::WindowInfo;
use xfce_rs::panel::tasklist::{listed_windows, states_without_hidden, ButtonTone, TaskAtoms, TaskDisplay, Tasklist};

const ATOMS: TaskAtoms = TaskAtoms { state_hidden: 10, state_skip_taskbar: 11, type_desktop: 20, type_dock: 21 };

fn win(id: u32, name: &str) -> WindowInfo {
    WindowInfo::from_properties(id, &vec![Some(name.to_string())], &vec![], &vec![], None, &ATOMS)
}

#[test]
fn window_properties_are_read() {
    let w = WindowInfo::from_properties(
        7,
        &vec![None, Some("Terminal".to_string()), Some("xterm".to_string())],
        &vec![3, 10],
        &vec![99],
        Some(7),
        &ATOMS,
    );
    assert_eq!(w.window_id, 7);
    assert_eq!(w.name, "Terminal");
    assert!(w.is_active && w.is_minimized);
    assert!(!w.skip_taskbar && !w.is_desktop && !w.is_dock);
    assert!(w.is_listed());
    let d = WindowInfo::from_properties(8, &vec![None, None, None], &vec![11], &vec![20, 21], Some(7), &ATOMS);
    assert_eq!(d.name, "Unnamed");
    assert!(!d.is_active && d.skip_taskbar && d.is_desktop && d.is_dock);
    assert!(!d.is_listed());
}

#[test]
fn only_task_windows_are_listed() {
    let dock = WindowInfo::from_properties(2, &vec![Some("panel".to_string())], &vec![], &vec![21], None, &ATOMS);
    let r = listed_windows(vec![win(1, "a"), dock, win(3, "c")]);
    let ids: Vec<u32> = r.iter().map(|w| w.window_id).collect();
    assert_eq!(ids, vec![1, 3]);
}

#[test]
fn bringing_back_a_minimized_window() {
    assert_eq!(states_without_hidden(&vec![5, 10, 6, 10], 10), Some(vec![5, 6]));
    assert_eq!(states_without_hidden(&vec![5, 6], 10), None);
}

#[test]
fn button_labels_and_tones() {
    assert_eq!(win(1, "short").button_label(), "short");
    let long = "a".repeat(40);
    assert_eq!(win(1, &long).button_label(), format!("{}...", "a".repeat(27)));
    let mut w = win(1, "x");
    assert_eq!(w.button_tone(), ButtonTone::Normal);
    w.is_minimized = true;
    assert_eq!(w.button_tone(), ButtonTone::Dimmed);
    w.is_active = true;
    assert_eq!(w.button_tone(), ButtonTone::Accent);
}

#[test]
fn tasklist_refresh_and_errors() {
    let mut t = Tasklist::new(true);
    assert_eq!(t.title(), "Window Buttons");
    assert!(matches!(t.display(), TaskDisplay::NoWindows));
    t.windows_read(Ok(vec![win(1, "a")]));
    assert!(matches!(t.display(), TaskDisplay::Buttons));
    t.windows_read(Err("connection lost".to_string()));
    assert!(matches!(t.display(), TaskDisplay::Error(m) if m == "Failed to get windows: connection lost"));
    assert_eq!(t.windows.len(), 1);
    assert!(t.activation_done(Ok(())));
    assert!(!t.activation_done(Err("bad window".to_string())));
    assert_eq!(t.error.as_deref(), Some("Failed to activate window: bad window"));
    let mut u = Tasklist::new(false);
    u.refresh_without_tracker();
    assert_eq!(u.error.as_deref(), Some("Window tracker not initialized"));
    u.report("boom".to_string());
    assert_eq!(u.error.as_deref(), Some("boom"));
}

#[test]
fn panel_window_found_by_name() {
    let ws = vec![
        NamedWindow { id: 1, net_name: Some("Editor".to_string()), wm_name: None },
        NamedWindow { id: 2, net_name: None, wm_name: Some("xfce-rs-panel".to_string()) },
        NamedWindow { id: 3, net_name: Some("xfce-rs-panel".to_string()), wm_name: None },
    ];
    assert_eq!(find_named_window(&ws, "xfce-rs-panel"), Some(2));
    assert_eq!(find_named_window(&ws, "Editor"), Some(1));
    assert_eq!(find_named_window(&ws, "nothing"), None);
    let (types, states) = dock_properties(&DockAtoms { window_type_dock: 5, state_skip_taskbar: 6, state_skip_pager: 7, state_sticky: 8 });
    assert_eq!(types, vec![5]);
    assert_eq!(states, vec![6, 7, 8]);
}

#[test]
fn super_key_toggles_on_release() {
    let mut k = SuperKey::new();
    assert!(!k.on_key(KeyEvent::Release(SUPER_L_KEYCODE)));
    assert!(!k.on_key(KeyEvent::Press(SUPER_L_KEYCODE)));
    assert!(!k.on_key(KeyEvent::Press(38)));
    assert!(!k.on_key(KeyEvent::Release(38)));
    assert!(k.on_key(KeyEvent::Release(SUPER_L_KEYCODE)));
    assert!(!k.on_key(KeyEvent::Release(SUPER_L_KEYCODE)));
    assert_eq!(grab_modifiers(), vec![0, 2, 16, 18]);
}
