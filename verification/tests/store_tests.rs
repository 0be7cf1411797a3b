use zellij_project_sidebar::discovery::parse_scan_output;
use zellij_project_sidebar::config::{load_configured_projects, lookup_value};
use zellij_project_sidebar::model::{PaneData, SessionData, SessionStatus, TabData};
use zellij_project_sidebar::sessions::{extract_active_command, fill_statuses, running_status_of};
use zellij_project_sidebar::store::{NameSet, StatusCache};

fn pairs(entries: &[(&str, &str)]) -> Vec<(String, String)> {
    entries.iter().map(|(k, v)| (k.to_string(), v.to_string())).collect()
}

fn session(name: &str, is_current: bool, command: Option<&str>) -> SessionData {
    SessionData {
        name: name.to_string(),
        is_current,
        tabs: vec![TabData { position: 0, active: false }, TabData { position: 1, active: true }],
        panes: vec![
            (0, vec![PaneData { is_focused: true, is_plugin: false, is_suppressed: false, terminal_command: Some("/bin/bash".to_string()) }]),
            (
                1,
                vec![
                    PaneData { is_focused: true, is_plugin: true, is_suppressed: false, terminal_command: None },
                    PaneData {
                        is_focused: true,
                        is_plugin: false,
                        is_suppressed: false,
                        terminal_command: command.map(|c| c.to_string()),
                    },
                ],
            ),
        ],
    }
}

#[test]
fn status_cache_keeps_key_order_and_replaces() {
    let mut c = StatusCache::new();
    c.insert("web".to_string(), SessionStatus::Exited);
    c.insert("api".to_string(), SessionStatus::NotStarted);
    c.insert("docs".to_string(), SessionStatus::Exited);
    c.insert("api".to_string(), SessionStatus::Exited);
    assert_eq!(c.len(), 3);
    assert_eq!(c.key_at(0), "api");
    assert_eq!(c.key_at(1), "docs");
    assert_eq!(c.key_at(2), "web");
    assert_eq!(c.get("api"), Some(SessionStatus::Exited));
    assert_eq!(c.get("missing"), None);
    assert!(c.contains_key("web"));
    c.clear();
    assert_eq!(c.len(), 0);
}

#[test]
fn name_set_insert_and_remove() {
    let mut s = NameSet::new();
    s.insert("web".to_string());
    s.insert("web".to_string());
    s.insert("api".to_string());
    assert!(s.contains("web"));
    s.remove("web");
    assert!(!s.contains("web"));
    assert!(s.contains("api"));
}

#[test]
fn active_command_is_the_focused_terminal_of_the_active_tab() {
    assert_eq!(extract_active_command(&session("s", true, Some("/usr/bin/nvim"))), Some("nvim".to_string()));
    assert_eq!(extract_active_command(&session("s", true, None)), None);
    let mut no_active = session("s", true, Some("vim"));
    no_active.tabs[1].active = false;
    assert_eq!(extract_active_command(&no_active), None);
}

#[test]
fn running_status_counts_tabs_and_reads_command_of_current_only() {
    assert_eq!(
        running_status_of(&session("s", true, Some("/usr/bin/htop"))),
        SessionStatus::Running { is_current: true, tab_count: 2, active_command: Some("htop".to_string()) }
    );
    assert_eq!(
        running_status_of(&session("s", false, Some("/usr/bin/htop"))),
        SessionStatus::Running { is_current: false, tab_count: 2, active_command: None }
    );
}

#[test]
fn statuses_from_sessions_and_resurrectable() {
    let mut c = StatusCache::new();
    c.insert("stale".to_string(), SessionStatus::Exited);
    let sessions = vec![session("web", false, None), session("api", true, Some("cargo"))];
    let resurrectable = vec!["web".to_string(), "old".to_string()];
    fill_statuses(&mut c, &sessions, &resurrectable);
    assert_eq!(c.len(), 3);
    assert_eq!(c.get("stale"), None);
    assert_eq!(c.get("old"), Some(SessionStatus::Exited));
    assert_eq!(c.get("web"), Some(SessionStatus::Running { is_current: false, tab_count: 2, active_command: None }));
    assert_eq!(
        c.get("api"),
        Some(SessionStatus::Running { is_current: true, tab_count: 2, active_command: Some("cargo".to_string()) })
    );
}

#[test]
fn configuration_lookup_and_numbered_projects() {
    let cfg = pairs(&[("project_1", "/y/api"), ("verbosity", "minimal"), ("project_0", "/x/app"), ("project_3", "/z/gap")]);
    assert_eq!(lookup_value(&cfg, "verbosity"), Some("minimal".to_string()));
    assert_eq!(lookup_value(&cfg, "scan_dir"), None);
    let projects = load_configured_projects(&cfg);
    assert_eq!(projects.len(), 2);
    assert_eq!(projects[0].name, "app");
    assert_eq!(projects[0].path, "/x/app");
    assert_eq!(projects[1].name, "api");
    assert_eq!(projects[1].status, SessionStatus::NotStarted);
    let root = load_configured_projects(&pairs(&[("project_0", "/")]));
    assert_eq!(root[0].name, "unknown");
    assert!(load_configured_projects(&pairs(&[])).is_empty());
}

#[test]
fn scan_output_lists_directories() {
    let dirs = parse_scan_output(&b"/home/u/p/web\n\n/home/u/p/api\r\n/home/u/p/\xffx\n".to_vec());
    assert_eq!(
        dirs,
        vec![
            ("web".to_string(), "/home/u/p/web".to_string()),
            ("api".to_string(), "/home/u/p/api".to_string()),
            ("\u{FFFD}x".to_string(), "/home/u/p/\u{FFFD}x".to_string()),
        ]
    );
    assert!(parse_scan_output(&Vec::new()).is_empty());
}
