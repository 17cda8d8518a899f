use xfce_rs::menu::{DesktopEntry, MenuEntry, MenuParser};

#[test]
fn test_search_entries() {
    let entries = vec![
        DesktopEntry {
            name: "Text Editor".to_string(),
            description: "Edit text files".to_string(),
            categories: vec!["Utility".to_string()],
            ..Default::default()
        },
        DesktopEntry {
            name: "Image Editor".to_string(),
            description: "Edit images".to_string(),
            categories: vec!["Graphics".to_string()],
            ..Default::default()
        },
    ];

    let parser = MenuParser::new();
    let results = parser.search_entries(&entries, "edit");

    assert_eq!(results.len(), 2);
    assert!(results.iter().all(|e| e.name.contains("Edit")));

    let results = parser.search_entries(&entries, "text");
    assert_eq!(results.len(), 1);
    assert_eq!(results[0].name, "Text Editor");
}

fn entry(name: &str, categories: &[&str]) -> DesktopEntry {
    DesktopEntry {
        name: name.to_string(),
        categories: categories.iter().map(|c| c.to_string()).collect(),
        ..Default::default()
    }
}

#[test]
fn desktop_entry_parsing_from_text() {
    let desktop_content = "\n[Desktop Entry]\nName=Test Application\nExec=test-app\nIcon=test-icon\nComment=A test application\nCategories=Development;Utility;\nTerminal=false\n";
    let entry = MenuParser::parse_desktop_content(desktop_content);
    assert_eq!(entry.name, "Test Application");
    assert_eq!(entry.exec_command, "test-app");
    assert_eq!(entry.icon, "test-icon");
    assert_eq!(entry.description, "A test application");
    assert_eq!(entry.categories, vec!["Development", "Utility"]);
    assert!(!entry.terminal);
}

#[test]
fn parsing_ignores_other_sections_and_comments() {
    let text = "# comment\nName=Outside\n[Desktop Entry]\r\nName = Inside \r\n# Name=Comment\nNoDisplay=true\n[Desktop Action new]\nName=Action\nHidden=true";
    let e = MenuParser::parse_desktop_content(text);
    assert_eq!(e.name, "Inside");
    assert!(e.no_display);
    assert!(!e.hidden);
    assert_eq!(e.icon, "application-x-executable");
}

#[test]
fn default_entry() {
    let e = DesktopEntry::default();
    assert_eq!(e.name, "Unknown");
    assert_eq!(e.icon, "application-x-executable");
    assert!(e.categories.is_empty());
}

#[test]
fn menu_groups_by_first_category() {
    let parser = MenuParser::with_home(&Some("/home/u".to_string()));
    let entries = vec![
        entry("Editor", &["Utility", "Development"]),
        entry("Loose", &[]),
        entry("Viewer", &["Graphics"]),
        entry("Calc", &["Utility"]),
    ];
    let menu = parser.generate_menu(&entries);
    assert_eq!(menu.name, "Applications");
    assert_eq!(menu.icon.as_deref(), Some("applications-other"));
    assert_eq!(menu.entries.len(), 1);
    assert!(matches!(&menu.entries[0], MenuEntry::Application(e) if e.name == "Loose"));
    assert_eq!(menu.submenus.len(), 2);
    assert_eq!(menu.submenus[0].name, "Utility");
    assert_eq!(menu.submenus[0].entries.len(), 2);
    assert_eq!(menu.submenus[1].name, "Graphics");
    assert_eq!(menu.submenus[1].icon.as_deref(), Some("application-x-executable"));
}

#[test]
fn parser_directories() {
    let p = MenuParser::with_home(&Some("/home/u".to_string()));
    assert_eq!(p.desktop_dirs, vec![
        "/home/u/.local/share/applications",
        "/home/u/.share/applications",
        "/usr/share/applications",
        "/usr/local/share/applications",
    ]);
    assert_eq!(p.menu_dirs, vec!["/home/u/.config/menus", "/etc/xdg/menus"]);
    let q = MenuParser::with_home(&None);
    assert_eq!(q.desktop_dirs, vec!["/usr/share/applications", "/usr/local/share/applications"]);
}

#[test]
fn listed_entries_sorted_and_filtered() {
    let mut hidden = entry("Hidden", &[]);
    hidden.hidden = true;
    let mut nodisp = entry("Aardvark", &[]);
    nodisp.no_display = true;
    let list = MenuParser::listed_entries(vec![entry("Zed", &[]), hidden, entry("Alpha", &[]), nodisp, entry("Mid", &[])]);
    let names: Vec<&str> = list.iter().map(|e| e.name.as_str()).collect();
    assert_eq!(names, vec!["Alpha", "Mid", "Zed"]);
}

#[test]
fn search_is_case_insensitive_and_ordered() {
    let entries = vec![entry("Terminal", &[]), entry("Files", &[]), entry("TERM helper", &[])];
    let parser = MenuParser::with_home(&None);
    let r = parser.search_entries(&entries, "Term");
    let names: Vec<&str> = r.iter().map(|e| e.name.as_str()).collect();
    assert_eq!(names, vec!["Terminal", "TERM helper"]);
    assert_eq!(parser.search_entries(&entries, "").len(), 3);
}

#[test]
fn test_desktop_entry_parsing() {
    let desktop_content = r#"
[Desktop Entry]
Name=Test Application
Exec=test-app
Icon=test-icon
Comment=A test application
Categories=Development;Utility;
Terminal=false
"#;

    let entry = MenuParser::parse_desktop_content(desktop_content);

    assert_eq!(entry.name, "Test Application");
    assert_eq!(entry.exec_command, "test-app");
    assert_eq!(entry.icon, "test-icon");
    assert_eq!(entry.description, "A test application");
    assert_eq!(entry.categories, vec!["Development", "Utility"]);
    assert!(!entry.terminal);
}
