use xfce_rs::appfinder::AppRecord;
use xfce_rs::launcher::{
    clean_exec, filter_entries, launch_entry, path_to_icon_source, AppFinder, FinderMessage, IconSource,
    LaunchEntry, LauncherAction, Navigator, NavigatorMessage,
};

fn entry(name: &str, exec: &str, id: &str) -> LaunchEntry {
    LaunchEntry { name: name.to_string(), exec_command: exec.to_string(), id: id.to_string(), icon: None }
}

fn names(v: &[LaunchEntry]) -> Vec<&str> {
    v.iter().map(|e| e.name.as_str()).collect()
}

fn record(id: &str, name: Option<&str>, exec: Option<&str>, no_display: bool, hidden: bool) -> AppRecord {
    AppRecord {
        id: id.to_string(),
        name: name.map(|s| s.to_string()),
        generic_name: None,
        comment: None,
        exec_command: exec.map(|s| s.to_string()),
        icon: None,
        categories: vec![],
        keywords: vec![],
        terminal: false,
        no_display,
        hidden,
    }
}

#[test]
fn icon_source_by_extension() {
    assert!(matches!(path_to_icon_source("/usr/share/icons/app.svg"), Some(IconSource::Svg(p)) if p == "/usr/share/icons/app.svg"));
    assert!(matches!(path_to_icon_source("/pix/App.SVG"), Some(IconSource::Svg(_))));
    assert!(matches!(path_to_icon_source("/pix/app.png"), Some(IconSource::Raster(p)) if p == "/pix/app.png"));
    assert!(matches!(path_to_icon_source("a.JPEG"), Some(IconSource::Raster(_))));
    assert!(matches!(path_to_icon_source("a.xpm"), Some(IconSource::Raster(_))));
    assert!(path_to_icon_source("a.gif").is_none());
    assert!(path_to_icon_source("/pix/app").is_none());
}

#[test]
fn records_become_entries() {
    let e = launch_entry(&record("org.x.Term", Some("Terminal"), Some("xterm"), false, false), None).unwrap();
    assert_eq!(e.name, "Terminal");
    assert_eq!(e.exec_command, "xterm");
    assert_eq!(e.id, "org.x.Term");
    let e = launch_entry(&record("tool", None, Some("tool --run"), false, false), None).unwrap();
    assert_eq!(e.name, "tool");
    assert!(launch_entry(&record("a", Some("A"), Some("a"), true, false), None).is_none());
    assert!(launch_entry(&record("a", Some("A"), Some("a"), false, true), None).is_none());
    assert!(launch_entry(&record("a", Some("A"), None, false, false), None).is_none());
}

#[test]
fn exec_placeholders_are_cleaned() {
    let c: String = clean_exec("  firefox %u ").into_iter().collect();
    assert_eq!(c, "firefox");
    let c: String = clean_exec("gimp %F --new %f").into_iter().collect();
    assert_eq!(c, "gimp  --new");
    let c: String = clean_exec("app %c").into_iter().collect();
    assert_eq!(c, "app %c");
}

#[test]
fn finder_lists_sorted_and_filters() {
    let mut f = AppFinder::new(vec![entry("zeta", "z", "z"), entry("Alpha", "a", "a"), entry("beta", "b", "b")]);
    assert_eq!(names(&f.apps), vec!["Alpha", "beta", "zeta"]);
    assert_eq!(names(&f.filtered_apps), vec!["Alpha", "beta", "zeta"]);
    assert_eq!(f.title(), "App Finder");
    assert!(matches!(f.update(FinderMessage::QueryChanged("zeta".to_string())), LauncherAction::Nothing));
    assert_eq!(f.query, "zeta");
    assert_eq!(names(&f.filtered_apps), vec!["zeta"]);
    f.update(FinderMessage::QueryChanged(String::new()));
    assert_eq!(names(&f.filtered_apps), vec!["Alpha", "beta", "zeta"]);
    assert!(matches!(f.update(FinderMessage::Maximize), LauncherAction::Maximize(true)));
    assert!(matches!(f.update(FinderMessage::Maximize), LauncherAction::Maximize(false)));
    match f.update(FinderMessage::LaunchApp("code --new-window %F".to_string())) {
        LauncherAction::SpawnThenExit(parts) => assert_eq!(parts, vec!["code", "--new-window"]),
        _ => panic!("expected a launch"),
    }
    match f.update(FinderMessage::LaunchApp(" %U ".to_string())) {
        LauncherAction::SpawnThenExit(parts) => assert!(parts.is_empty()),
        _ => panic!("expected a launch"),
    }
}

#[test]
fn filter_keeps_only_matches_best_first() {
    let apps = vec![entry("Firefox", "firefox", "ff"), entry("Files", "nautilus", "files"), entry("Terminal", "xterm", "t")];
    let r = filter_entries(&apps, "fire");
    assert_eq!(names(&r), vec!["Firefox"]);
    let r = filter_entries(&apps, "qqq");
    assert!(r.is_empty());
}

#[test]
fn navigator_bars_and_messages() {
    let found: Vec<LaunchEntry> = (0..25).map(|i| entry(&format!("app{:02}", i), "run", &format!("id{}", i))).collect();
    let mut n = Navigator::new(found);
    assert_eq!(n.title(), "Navigator");
    assert_eq!(names(&n.favorites), vec!["app00", "app01", "app02", "app03", "app04"]);
    assert_eq!(names(&n.suggestions), vec!["app10", "app11", "app12", "app13", "app14", "app15"]);
    n.update(NavigatorMessage::RightClickApp(entry("app00", "run", "id0")));
    assert!(n.context_menu.is_some());
    n.update(NavigatorMessage::AddFavorite(entry("app00", "run", "id0")));
    assert_eq!(n.favorites.len(), 5);
    assert!(n.context_menu.is_none());
    n.update(NavigatorMessage::AddFavorite(entry("app20", "run", "id20")));
    assert_eq!(n.favorites.len(), 6);
    let act = n.update(NavigatorMessage::UninstallApp(entry("Gimp", "gimp", "gimp")));
    assert!(matches!(act, LauncherAction::ClearNotificationLater));
    assert_eq!(n.notification.as_deref(), Some("Gimp uninstalled successfully!"));
    n.update(NavigatorMessage::ClearNotification);
    assert!(n.notification.is_none());
    n.update(NavigatorMessage::ShowMoreSuggestions);
    assert_eq!(n.suggestions.len(), 6 + 5);
    assert_eq!(n.suggestions[6].name, "app20");
    match n.update(NavigatorMessage::LaunchApp("env A=1 prog %u".to_string())) {
        LauncherAction::ShellThenMinimize(c) => assert_eq!(c, "env A=1 prog"),
        _ => panic!("expected a shell launch"),
    }
}

#[test]
fn navigator_with_few_apps_suggests_nothing() {
    let mut n = Navigator::new(vec![entry("b", "b", "b"), entry("a", "a", "a")]);
    assert_eq!(names(&n.favorites), vec!["a", "b"]);
    assert!(n.suggestions.is_empty());
    n.update(NavigatorMessage::ShowMoreSuggestions);
    assert!(n.suggestions.is_empty());
}
