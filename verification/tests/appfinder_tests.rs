use xfce_rs::appfinder::{AppEntry, AppRecord, AppState};

fn rec(id: &str, name: Option<&str>, exec: Option<&str>) -> AppRecord {
    AppRecord {
        id: id.to_string(),
        name: name.map(|s| s.to_string()),
        generic_name: None,
        comment: None,
        exec_command: exec.map(|s| s.to_string()),
        icon: None,
        categories: vec![],
        keywords: vec![],
        terminal: false,
        no_display: false,
        hidden: false,
    }
}

fn app(name: &str, keywords: &[&str]) -> AppEntry {
    AppEntry {
        id: name.to_lowercase(),
        name: name.to_string(),
        generic_name: None,
        comment: None,
        exec_command: name.to_lowercase(),
        icon: None,
        categories: vec![],
        keywords: keywords.iter().map(|k| k.to_string()).collect(),
        terminal: false,
    }
}

#[test]
fn collected_apps_are_deduplicated_and_sorted() {
    let mut hidden = rec("h", Some("Hidden"), Some("h"));
    hidden.hidden = true;
    let records = vec![
        rec("zed", Some("zed"), Some("zed")),
        rec("noexec", Some("No Exec"), None),
        hidden,
        rec("alpha", None, Some("alpha --x")),
        rec("zed", Some("Zed Again"), Some("zed2")),
        rec("beta", Some("Beta"), Some("beta")),
    ];
    let apps = AppState::collect_apps(&records);
    let names: Vec<&str> = apps.iter().map(|a| a.name.as_str()).collect();
    assert_eq!(names, vec!["alpha", "Beta", "zed"]);
    assert_eq!(apps[2].exec_command, "zed");
}

#[test]
fn launch_parts_strip_field_codes() {
    assert_eq!(AppState::launch_parts("firefox %u").unwrap(), vec!["firefox"]);
    assert_eq!(AppState::launch_parts("  gimp-2.10 --new %F  ").unwrap(), vec!["gimp-2.10", "--new"]);
    assert_eq!(AppState::launch_parts("%f %U").unwrap_err(), "Empty command");
    assert_eq!(AppState::launch_parts("").unwrap_err(), "Empty command");
    assert_eq!(AppState::launch_parts("app 100%%ff").unwrap(), vec!["app", "100%f"]);
}

#[test]
fn ranking_keeps_positive_scores_highest_first() {
    let apps = vec![app("A", &[]), app("B", &[]), app("C", &[]), app("D", &[])];
    let ranked = AppState::rank_apps(&apps, &vec![5, 0, 9, 5]);
    let names: Vec<&str> = ranked.iter().map(|a| a.name.as_str()).collect();
    assert_eq!(names, vec!["C", "A", "D"]);
}

#[test]
fn search_with_empty_query_lists_all() {
    let apps = vec![app("Firefox", &[]), app("Files", &["manager"])];
    assert_eq!(AppState::search_applications(&apps, "").len(), 2);
    let r = AppState::search_applications(&apps, "fire");
    assert_eq!(r.len(), 1);
    assert_eq!(r[0].name, "Firefox");
    assert!(AppState::app_score(&apps[1], "manager") > 0);
    assert!(AppState::new().entries.is_empty());
}

#[test]
fn record_from_desktop_text() {
    let text = "[Desktop Entry]\nType=Application\nName=Demo\nExec=demo %U\nKeywords=sample;test;\n";
    let r = AppState::read_record("/usr/share/applications/demo.desktop", text).expect("decodes");
    assert_eq!(r.id, "demo");
    assert_eq!(r.name.as_deref(), Some("Demo"));
    assert_eq!(r.exec_command.as_deref(), Some("demo %U"));
}

#[test]
fn record_fields_come_from_their_own_keys() {
    let text = "[Desktop Entry]\nType=Application\nName=Demo\nExec=demo %U\nIcon=demo-icon\nCategories=Utility;Development;\nKeywords=a;b\nTerminal=true\nNoDisplay=false\nHidden=true\n";
    let r = AppState::read_record("/usr/share/applications/demo.desktop", text).expect("decodes");
    assert_eq!(r.exec_command.as_deref(), Some("demo %U"));
    assert_eq!(r.icon.as_deref(), Some("demo-icon"));
    assert_eq!(r.categories, vec!["Utility".to_string(), "Development".to_string(), String::new()]);
    assert!(r.terminal);
    assert!(!r.no_display);
    assert!(r.hidden);
    assert!(r.keywords.iter().all(|k| !k.contains(';')));
    let bare = "[Desktop Entry]\nType=Application\nName=Bare\n";
    let b = AppState::read_record("/usr/share/applications/bare.desktop", bare).expect("decodes");
    assert_eq!(b.exec_command, None);
    assert_eq!(b.icon, None);
    assert!(b.categories.is_empty());
    assert!(!b.terminal && !b.no_display && !b.hidden);
}

#[test]
fn translated_fields_come_from_the_text() {
    let text = "[Desktop Entry]\nType=Application\nName=Demo\nName[en]=Demo EN\nName[de]=Demo DE\nGenericName=Tool\nComment=Does things\nComment[en_US]=Does US things\nKeywords=x;y\nExec=demo\n";
    let r = AppState::read_record("/usr/share/applications/demo.desktop", text).expect("decodes");
    assert_eq!(r.name.as_deref(), Some("Demo EN"));
    assert_eq!(r.generic_name.as_deref(), Some("Tool"));
    assert_eq!(r.comment.as_deref(), Some("Does US things"));
    assert_eq!(r.keywords, vec!["x".to_string(), "y".to_string()]);
    let plain = "[Desktop Entry]\nType=Application\nExec=demo\n";
    let p = AppState::read_record("/usr/share/applications/plain.desktop", plain).expect("decodes");
    assert_eq!((p.name, p.generic_name, p.comment), (None, None, None));
    assert!(p.keywords.is_empty());
}

#[test]
fn gettext_domains_are_not_consulted() {
    let text = "[Desktop Entry]\nType=Application\nName=Demo\nX-Ubuntu-Gettext-Domain=bad\u{0}domain\nKeywords=a\u{0}b;c\nExec=demo\n";
    let r = AppState::read_record("/usr/share/applications/demo.desktop", text).expect("decodes");
    assert_eq!(r.name.as_deref(), Some("Demo"));
    assert_eq!(r.keywords, vec!["a\u{0}b".to_string(), "c".to_string()]);
}

#[test]
fn records_need_a_desktop_file_path() {
    let text = "[Desktop Entry]\nName=Demo\nExec=demo\n";
    assert!(AppState::read_record("/usr/share/applications/demo.txt", text).is_none());
    assert!(AppState::read_record("/usr/share/applications/demo", text).is_none());
    assert!(AppState::read_record("/usr/share/applications/demo.desktop", text).is_some());
}
