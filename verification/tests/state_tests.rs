use zellij_project_sidebar::ai::parse_ai_state;
use zellij_project_sidebar::model::{
    Action, AiState, Coloring, Draw, EventKind, KeyCode, KeyEvent, MouseEvent, PaneData, Permission, PluginEvent,
    RenderLine, SessionData, SessionStatus, StyledText, TabData, Verbosity,
};
use zellij_project_sidebar::render::{COLOR_BLUE, COLOR_CYAN, COLOR_GRAY, COLOR_GREEN, COLOR_YELLOW};
use zellij_project_sidebar::state::{is_failed_scan, State};

fn pairs(entries: &[(&str, &str)]) -> Vec<(String, String)> {
    entries.iter().map(|(k, v)| (k.to_string(), v.to_string())).collect()
}

fn key(code: KeyCode) -> PluginEvent {
    PluginEvent::Key(KeyEvent { code, ctrl: false, alt: false, shift: false, super_key: false })
}

fn alt_key(code: KeyCode) -> PluginEvent {
    PluginEvent::Key(KeyEvent { code, ctrl: false, alt: true, shift: false, super_key: false })
}

fn session(name: &str, is_current: bool, tabs: usize, cmd: Option<&str>) -> SessionData {
    let tab_list: Vec<TabData> = (0..tabs).map(|i| TabData { position: i, active: i == 0 }).collect();
    SessionData {
        name: name.to_string(),
        is_current,
        tabs: tab_list,
        panes: vec![(
            0,
            vec![PaneData {
                is_focused: true,
                is_plugin: false,
                is_suppressed: false,
                terminal_command: cmd.map(|c| c.to_string()),
            }],
        )],
    }
}

fn scan_result(stdout: &str) -> PluginEvent {
    PluginEvent::RunCommandResult {
        exit_code: Some(0),
        stdout: stdout.as_bytes().to_vec(),
        context: pairs(&[("cmd", "scan_dir")]),
    }
}

fn names(s: &State) -> Vec<String> {
    s.projects().iter().map(|p| p.name.clone()).collect()
}

fn gray(content: &str, y: usize, cols: usize) -> Draw {
    Draw::Text {
        text: StyledText { content: content.to_string(), selected: false, colors: vec![Coloring::All { level: COLOR_GRAY }] },
        x: 0,
        y,
        width: cols,
    }
}

/// A discovery sidebar with projects Alpha, beta, zeta; beta is the current
/// session, zeta runs elsewhere, gamma can be resurrected.
fn discovered() -> State {
    let mut s = State::default();
    s.load(&pairs(&[("scan_dir", "/home/u/p"), ("session_layout", "/home/u/l.kdl")]));
    s.update(PluginEvent::PermissionGranted);
    s.update(scan_result("/home/u/p/zeta\n/home/u/p/Alpha\n/home/u/p/beta\n/home/u/p/gamma\n"));
    s.update(PluginEvent::SessionUpdate {
        sessions: vec![session("beta", true, 2, Some("/usr/bin/nvim")), session("zeta", false, 1, None)],
        resurrectable: vec!["gamma".to_string()],
    });
    s
}

#[test]
fn default_state() {
    let s = State::default();
    assert!(!s.permissions_granted());
    assert!(s.is_primary());
    assert!(!s.use_discovery());
    assert_eq!(s.verbosity(), Verbosity::Full);
    assert_eq!(s.selected_index(), 0);
    assert!(s.projects().is_empty());
}

#[test]
fn load_in_discovery_mode() {
    let mut s = State::default();
    let actions = s.load(&pairs(&[("scan_dir", "/home/u/p"), ("verbosity", "minimal"), ("is_primary", "false")]));
    assert!(s.use_discovery());
    assert!(!s.is_primary());
    assert_eq!(s.verbosity(), Verbosity::Minimal);
    assert_eq!(s.scan_dir(), &Some("/home/u/p".to_string()));
    assert_eq!(
        actions,
        vec![
            Action::RequestPermissions(vec![
                Permission::ReadApplicationState,
                Permission::ChangeApplicationState,
                Permission::Reconfigure,
                Permission::RunCommands,
            ]),
            Action::Subscribe(vec![
                EventKind::SessionUpdate,
                EventKind::PermissionRequestResult,
                EventKind::Key,
                EventKind::Mouse,
                EventKind::RunCommandResult,
                EventKind::Timer,
            ]),
            Action::SetSelectable(true),
        ]
    );
}

#[test]
fn load_in_configured_mode() {
    let mut s = State::default();
    let actions = s.load(&pairs(&[("project_0", "/x/app"), ("project_1", "/y/api"), ("verbosity", "loud")]));
    assert!(!s.use_discovery());
    assert!(s.is_primary());
    assert_eq!(s.verbosity(), Verbosity::Full);
    assert_eq!(names(&s), vec!["app", "api"]);
    assert_eq!(actions.len(), 3);
    assert_eq!(
        actions[0],
        Action::RequestPermissions(vec![
            Permission::ReadApplicationState,
            Permission::ChangeApplicationState,
            Permission::Reconfigure,
        ])
    );
}

#[test]
fn permissions_granted_registers_keys_and_scans() {
    let mut s = State::default();
    s.load(&pairs(&[("scan_dir", "/home/u/p")]));
    let (redraw, actions) = s.update(PluginEvent::PermissionGranted);
    assert!(redraw);
    assert!(s.permissions_granted());
    let args: Vec<String> = ["find", "/home/u/p", "-maxdepth", "1", "-mindepth", "1", "-type", "d", "-not", "-name", ".*"]
        .iter()
        .map(|a| a.to_string())
        .collect();
    assert_eq!(
        actions,
        vec![
            Action::SetSelectable(false),
            Action::RegisterKeybinds,
            Action::RunCommand { args, context: pairs(&[("cmd", "scan_dir")]) },
            Action::SetTimeout(10),
        ]
    );
    let (redraw, actions) = s.update(PluginEvent::PermissionDenied);
    assert!(!redraw);
    assert!(actions.is_empty());
}

#[test]
fn secondary_instance_does_not_register_keys() {
    let mut s = State::default();
    s.load(&pairs(&[("is_primary", "false")]));
    let (_, actions) = s.update(PluginEvent::PermissionGranted);
    assert_eq!(actions, vec![Action::SetSelectable(false), Action::SetTimeout(10)]);
}

#[test]
fn scan_result_sorts_projects_by_lowercased_name() {
    let mut s = State::default();
    s.load(&pairs(&[("scan_dir", "/home/u/p")]));
    let (redraw, _) = s.update(scan_result("/home/u/p/zeta\n/home/u/p/Alpha\n\n/home/u/p/beta\n"));
    assert!(redraw);
    assert!(s.scan_complete());
    assert!(!s.initial_load_complete());
    assert_eq!(names(&s), vec!["Alpha", "beta", "zeta"]);
    assert_eq!(s.projects()[0].path, "/home/u/p/Alpha");
    assert_eq!(s.discovered_dirs().len(), 3);
    let (redraw, _) = s.update(PluginEvent::RunCommandResult {
        exit_code: Some(0),
        stdout: Vec::new(),
        context: pairs(&[("cmd", "other")]),
    });
    assert!(!redraw);
    assert_eq!(names(&s), vec!["Alpha", "beta", "zeta"]);
}

#[test]
fn failed_scan_keeps_directories() {
    let mut s = State::default();
    s.load(&pairs(&[("scan_dir", "/home/u/p")]));
    s.update(scan_result("/home/u/p/one\n"));
    s.update(PluginEvent::RunCommandResult {
        exit_code: Some(1),
        stdout: b"/home/u/p/two\n".to_vec(),
        context: pairs(&[("cmd", "scan_dir")]),
    });
    assert_eq!(names(&s), vec!["one"]);
}

#[test]
fn session_update_before_scan_shows_live_sessions() {
    let mut s = State::default();
    s.load(&pairs(&[("scan_dir", "/home/u/p")]));
    s.update(PluginEvent::SessionUpdate {
        sessions: vec![session("web", false, 1, None), session("Api", true, 3, None)],
        resurrectable: vec!["old".to_string()],
    });
    assert!(s.initial_load_complete());
    assert_eq!(names(&s), vec!["Api", "old", "web"]);
    assert_eq!(s.projects()[1].status, SessionStatus::Exited);
    assert_eq!(s.projects()[1].path, "");
}

#[test]
fn statuses_after_scan_and_sessions() {
    let s = discovered();
    assert!(s.initial_load_complete());
    assert_eq!(names(&s), vec!["Alpha", "beta", "gamma", "zeta"]);
    assert_eq!(s.projects()[0].status, SessionStatus::NotStarted);
    assert_eq!(
        s.projects()[1].status,
        SessionStatus::Running { is_current: true, tab_count: 2, active_command: Some("nvim".to_string()) }
    );
    assert_eq!(s.projects()[2].status, SessionStatus::Exited);
    assert_eq!(s.projects()[3].status, SessionStatus::Running { is_current: false, tab_count: 1, active_command: None });
    assert_eq!(s.filtered_indices(), vec![1, 2, 3]);
    assert_eq!(s.selected_project_index(), Some(1));
    assert_eq!(
        s.cached_status("zeta"),
        Some(SessionStatus::Running { is_current: false, tab_count: 1, active_command: None })
    );
    assert_eq!(s.cached_status("Alpha"), None);
}

#[test]
fn configured_mode_statuses() {
    let mut s = State::default();
    s.load(&pairs(&[("project_0", "/x/app"), ("project_1", "/y/api"), ("project_2", "/z/doc")]));
    s.update(PluginEvent::SessionUpdate {
        sessions: vec![session("api", false, 3, None)],
        resurrectable: vec!["app".to_string()],
    });
    assert_eq!(s.projects()[0].status, SessionStatus::Exited);
    assert_eq!(s.projects()[1].status, SessionStatus::Running { is_current: false, tab_count: 3, active_command: None });
    assert_eq!(s.projects()[2].status, SessionStatus::NotStarted);
    assert_eq!(s.filtered_indices(), vec![0, 1, 2]);
}

#[test]
fn navigation_with_keys_and_wheel() {
    let mut s = discovered();
    assert_eq!(s.update(key(KeyCode::Down)), (true, vec![]));
    assert_eq!(s.selected_index(), 1);
    s.update(key(KeyCode::Down));
    s.update(key(KeyCode::Down));
    assert_eq!(s.selected_index(), 2);
    s.update(PluginEvent::Mouse(MouseEvent::ScrollUp));
    assert_eq!(s.selected_index(), 1);
    s.update(key(KeyCode::Up));
    s.update(key(KeyCode::Up));
    assert_eq!(s.selected_index(), 0);
    s.update(PluginEvent::Mouse(MouseEvent::ScrollDown));
    assert_eq!(s.selected_index(), 1);
    let (redraw, _) = s.update(PluginEvent::Key(KeyEvent {
        code: KeyCode::Down,
        ctrl: true,
        alt: false,
        shift: false,
        super_key: false,
    }));
    assert!(!redraw);
    assert_eq!(s.selected_index(), 1);
}

#[test]
fn enter_switches_to_running_session() {
    let mut s = discovered();
    s.pipe("sidebar::attention::beta");
    assert!(s.needs_attention("beta"));
    let (redraw, actions) = s.update(key(KeyCode::Enter));
    assert!(redraw);
    assert_eq!(actions, vec![Action::SwitchSession { name: "beta".to_string() }, Action::SetSelectable(false)]);
    assert!(!s.needs_attention("beta"));
    assert!(!s.is_focused());
}

#[test]
fn browse_search_and_start_new_session() {
    let mut s = discovered();
    s.update(key(KeyCode::Char('/')));
    assert!(s.browse_mode());
    assert_eq!(s.filtered_indices(), vec![0, 1, 2, 3]);
    s.update(key(KeyCode::Char('a')));
    s.update(key(KeyCode::Char('L')));
    assert_eq!(s.search_query(), "aL");
    assert_eq!(s.filtered_indices(), vec![0]);
    s.update(key(KeyCode::Backspace));
    assert_eq!(s.search_query(), "a");
    s.update(key(KeyCode::Char('l')));
    let (_, actions) = s.update(key(KeyCode::Enter));
    assert_eq!(
        actions,
        vec![
            Action::SwitchSessionWithLayout {
                name: "Alpha".to_string(),
                layout: "/home/u/l.kdl".to_string(),
                cwd: "/home/u/p/Alpha".to_string(),
            },
            Action::SetSelectable(false),
        ]
    );
    assert!(!s.browse_mode());
    assert_eq!(s.search_query(), "");
}

#[test]
fn new_session_without_layout_starts_in_directory() {
    let mut s = State::default();
    s.load(&pairs(&[("project_0", "/x/app")]));
    let (_, actions) = s.update(key(KeyCode::Enter));
    assert_eq!(
        actions,
        vec![
            Action::SwitchSessionWithCwd { name: "app".to_string(), cwd: "/x/app".to_string() },
            Action::SetSelectable(false),
        ]
    );
}

#[test]
fn escape_leaves_browse_mode_then_unfocuses() {
    let mut s = discovered();
    s.pipe("toggle_sidebar");
    assert!(s.is_focused());
    s.update(key(KeyCode::Char('/')));
    s.update(key(KeyCode::Char('z')));
    let (_, actions) = s.update(key(KeyCode::Esc));
    assert!(actions.is_empty());
    assert!(!s.browse_mode());
    assert_eq!(s.search_query(), "");
    assert!(s.is_focused());
    let (_, actions) = s.update(key(KeyCode::Esc));
    assert_eq!(actions, vec![Action::SetSelectable(false)]);
    assert!(!s.is_focused());
}

#[test]
fn slash_outside_discovery_does_nothing() {
    let mut s = State::default();
    s.load(&pairs(&[("project_0", "/x/app")]));
    assert_eq!(s.update(key(KeyCode::Char('/'))), (true, vec![]));
    assert!(!s.browse_mode());
    assert_eq!(s.update(key(KeyCode::Char('q'))), (false, vec![]));
}

#[test]
fn delete_kills_only_other_running_sessions() {
    let mut s = discovered();
    let (_, actions) = s.update(key(KeyCode::Delete));
    assert!(actions.is_empty());
    s.update(key(KeyCode::Down));
    let (_, actions) = s.update(key(KeyCode::Delete));
    assert!(actions.is_empty());
    s.update(key(KeyCode::Down));
    let (redraw, actions) = s.update(key(KeyCode::Delete));
    assert!(redraw);
    assert_eq!(actions, vec![Action::KillSession { name: "zeta".to_string() }]);
}

#[test]
fn alt_r_rescans() {
    let mut s = discovered();
    let (redraw, actions) = s.update(alt_key(KeyCode::Char('r')));
    assert!(redraw);
    assert!(!s.scan_complete());
    assert_eq!(actions.len(), 1);
    assert!(matches!(&actions[0], Action::RunCommand { .. }));
}

#[test]
fn left_click_activates_the_row() {
    let mut s = discovered();
    let (redraw, actions) = s.update(PluginEvent::Mouse(MouseEvent::LeftClick { line: 2, column: 3 }));
    assert!(redraw);
    assert_eq!(actions, vec![Action::SwitchSession { name: "zeta".to_string() }, Action::SetSelectable(false)]);
    let (redraw, actions) = s.update(PluginEvent::Mouse(MouseEvent::LeftClick { line: 9, column: 0 }));
    assert!(redraw);
    assert!(actions.is_empty());
    let (redraw, actions) = s.update(PluginEvent::Mouse(MouseEvent::LeftClick { line: -1, column: 0 }));
    assert!(redraw);
    assert!(actions.is_empty());
}

#[test]
fn pipe_messages() {
    let mut s = discovered();
    assert_eq!(s.pipe("sidebar::attention::"), (true, vec![]));
    assert!(!s.needs_attention(""));
    s.pipe("sidebar::attention::web");
    assert!(s.needs_attention("web"));
    assert_eq!(s.pipe("sidebar::clear::web"), (true, vec![]));
    assert!(!s.needs_attention("web"));
    assert_eq!(s.pipe("unknown"), (false, vec![]));
    let (redraw, actions) = s.pipe("focus_sidebar");
    assert!(redraw);
    assert_eq!(actions, vec![Action::SetSelectable(true), Action::ShowSelf]);
    assert!(s.is_focused());
    assert!(!s.is_hidden());
    let (_, actions) = s.pipe("new_tab_with_sidebar");
    match &actions[0] {
        Action::NewTabWithLayout { layout } => {
            assert!(layout.contains("scan_dir \"/home/u/p\""));
            assert!(layout.contains("session_layout \"/home/u/l.kdl\""));
        },
        other => panic!("unexpected action {:?}", other),
    }
}

#[test]
fn ai_pipe_messages_set_the_ai_mark() {
    let mut s = discovered();
    assert_eq!(s.ai_state("gamma"), None);
    assert_eq!(s.pipe("sidebar::ai-active::gamma"), (true, vec![]));
    assert_eq!(s.ai_state("gamma"), Some(AiState::Active));
    let draws = s.render(10, 40);
    match &draws[1] {
        Draw::Text { text, .. } => {
            assert_eq!(text.content, " ▶ gamma");
            assert_eq!(text.colors, vec![Coloring::Range { level: COLOR_GREEN, start: 1, end: 2 }]);
        },
        other => panic!("unexpected draw {:?}", other),
    }
    assert_eq!(draws[2], gray("   ai agent", 2, 40));
    match &draws[3] {
        Draw::Text { text, .. } => assert_eq!(text.content, " ● zeta [1]"),
        other => panic!("unexpected draw {:?}", other),
    }
    assert_eq!(
        s.build_render_lines(),
        vec![RenderLine::ProjectRow(1), RenderLine::ProjectRow(2), RenderLine::Detail(2), RenderLine::ProjectRow(3)]
    );
    assert_eq!(s.pipe("sidebar::ai-idle::gamma"), (true, vec![]));
    assert_eq!(s.ai_state("gamma"), Some(AiState::Idle));
    assert_eq!(s.pipe("sidebar::ai-waiting::gamma"), (true, vec![]));
    assert_eq!(s.ai_state("gamma"), Some(AiState::Waiting));
    let draws = s.render(10, 40);
    match &draws[1] {
        Draw::Text { text, .. } => {
            assert_eq!(text.content, " ■ gamma");
            assert_eq!(text.colors, vec![Coloring::Range { level: COLOR_CYAN, start: 1, end: 2 }]);
        },
        other => panic!("unexpected draw {:?}", other),
    }
    assert_eq!(s.pipe("sidebar::ai-active::"), (true, vec![]));
    assert_eq!(s.ai_state(""), None);
}

#[test]
fn clicking_a_detail_line_opens_its_project() {
    let mut s = discovered();
    s.pipe("sidebar::ai-idle::gamma");
    let (redraw, actions) = s.update(PluginEvent::Mouse(MouseEvent::LeftClick { line: 2, column: 3 }));
    assert!(redraw);
    assert_eq!(actions, vec![Action::SwitchSession { name: "gamma".to_string() }, Action::SetSelectable(false)]);
}

#[test]
fn kill_of_the_current_session_is_refused_with_a_notice() {
    let mut s = discovered();
    let delete = key(KeyCode::Delete);
    assert_eq!(s.notice_for(&delete), Some("Cannot kill current session 'beta'".to_string()));
    let (_, actions) = s.update(delete.clone());
    assert!(actions.is_empty());
    s.update(key(KeyCode::Down));
    assert_eq!(s.notice_for(&delete), None);
    assert_eq!(s.notice_for(&key(KeyCode::Enter)), None);
}

#[test]
fn failed_scans_are_recognised() {
    let scan = pairs(&[("cmd", "scan_dir")]);
    assert!(is_failed_scan(Some(1), &scan));
    assert!(is_failed_scan(None, &scan));
    assert!(!is_failed_scan(Some(0), &scan));
    assert!(!is_failed_scan(Some(1), &pairs(&[("cmd", "other")])));
}

#[test]
fn ai_state_files_set_the_ai_states() {
    let mut s = discovered();
    let (redraw, actions) = s.update(PluginEvent::AiStateFiles(pairs(&[
        ("beta", "active\n"),
        ("gamma", "waiting"),
        ("delta", "bogus\n"),
        ("gamma", "idle \r\n"),
    ])));
    assert!(redraw);
    assert_eq!(actions, vec![Action::SetTimeout(10)]);
    assert_eq!(s.ai_state("beta"), Some(AiState::Active));
    assert_eq!(s.ai_state("gamma"), Some(AiState::Idle));
    assert_eq!(s.ai_state("delta"), None);
    assert_eq!(parse_ai_state("waiting\n"), Some(AiState::Waiting));
    assert_eq!(parse_ai_state(" active"), None);
    assert_eq!(parse_ai_state(""), None);
}

#[test]
fn configured_mode_new_tab_carries_the_sidebar() {
    let mut s = State::default();
    s.load(&pairs(&[("project_0", "/x/app"), ("project_1", "/y/api")]));
    let (redraw, actions) = s.pipe("new_tab_with_sidebar");
    assert!(redraw);
    match &actions[0] {
        Action::NewTabWithLayout { layout } => {
            assert!(layout.contains("zellij-project-sidebar.wasm"));
            assert!(layout.contains("project_0 \"/x/app\""));
            assert!(layout.contains("project_1 \"/y/api\""));
            assert!(layout.contains("is_primary \"false\""));
            assert!(!layout.contains("scan_dir"));
        },
        other => panic!("unexpected action {:?}", other),
    }
}

#[test]
fn toggle_focus_twice() {
    let mut s = discovered();
    let (_, actions) = s.pipe("toggle_sidebar");
    assert_eq!(actions, vec![Action::SetSelectable(true), Action::FocusSelf]);
    s.update(key(KeyCode::Char('/')));
    s.update(key(KeyCode::Char('x')));
    let (_, actions) = s.pipe("toggle_sidebar");
    assert_eq!(actions, vec![Action::SetSelectable(false)]);
    assert!(!s.is_focused());
    assert!(!s.browse_mode());
    assert_eq!(s.search_query(), "");
}

#[test]
fn render_messages_before_the_list() {
    let mut s = State::default();
    assert_eq!(s.render(10, 20), vec![Draw::Message("Waiting for permissions...".to_string())]);
    s.load(&pairs(&[("scan_dir", "/p")]));
    s.update(PluginEvent::PermissionGranted);
    assert_eq!(s.render(10, 20), vec![Draw::Message("Scanning...".to_string())]);
    s.update(PluginEvent::SessionUpdate { sessions: vec![], resurrectable: vec![] });
    assert_eq!(s.render(10, 20), vec![Draw::Message("No projects found.".to_string())]);
    let mut c = State::default();
    c.update(PluginEvent::PermissionGranted);
    assert_eq!(c.render(10, 20), vec![Draw::Message("Loading...".to_string())]);
    c.update(PluginEvent::SessionUpdate { sessions: vec![], resurrectable: vec![] });
    assert_eq!(c.render(10, 20), vec![Draw::Message("No projects configured.".to_string())]);
}

#[test]
fn render_the_project_list() {
    let mut s = discovered();
    let draws = s.render(10, 40);
    assert_eq!(draws.len(), 4);
    assert_eq!(
        draws[0],
        Draw::Text {
            text: StyledText {
                content: " ● beta [2] nvim".to_string(),
                selected: true,
                colors: vec![Coloring::Range { level: COLOR_GREEN, start: 0, end: 16 }],
            },
            x: 0,
            y: 0,
            width: 40,
        }
    );
    assert_eq!(
        draws[1],
        Draw::Text {
            text: StyledText {
                content: " ● gamma".to_string(),
                selected: false,
                colors: vec![Coloring::Range { level: COLOR_YELLOW, start: 1, end: 2 }],
            },
            x: 0,
            y: 1,
            width: 40,
        }
    );
    assert_eq!(draws[3], gray(" ⌘O to toggle", 9, 40));
}

#[test]
fn render_browse_mode_with_search_bar() {
    let mut s = discovered();
    s.pipe("toggle_sidebar");
    s.update(key(KeyCode::Char('/')));
    let draws = s.render(10, 40);
    assert_eq!(
        draws[0],
        Draw::Text {
            text: StyledText {
                content: " / search...".to_string(),
                selected: false,
                colors: vec![Coloring::Range { level: COLOR_BLUE, start: 0, end: 12 }],
            },
            x: 0,
            y: 0,
            width: 40,
        }
    );
    assert_eq!(draws[1], gray(" ─ All projects", 1, 40));
    assert_eq!(draws.len(), 7);
    assert_eq!(draws[6], gray(" ↵:open esc:back", 9, 40));
    s.update(key(KeyCode::Char('q')));
    let draws = s.render(10, 40);
    assert_eq!(draws.len(), 3);
    assert_eq!(draws[1], gray(" No matches", 1, 40));
    assert_eq!(draws[2], gray(" /:browse", 9, 40));
}

#[test]
fn render_scrolls_to_the_selection() {
    let mut s = State::default();
    let entries: Vec<(String, String)> = (0..8).map(|i| (format!("project_{}", i), format!("/p/proj{}", i))).collect();
    s.load(&entries);
    s.update(PluginEvent::PermissionGranted);
    s.update(PluginEvent::SessionUpdate { sessions: vec![], resurrectable: vec![] });
    for _ in 0..6 {
        s.update(key(KeyCode::Down));
    }
    let draws = s.render(4, 30);
    assert_eq!(s.scroll_offset(), 4);
    assert_eq!(draws.len(), 4);
    match &draws[0] {
        Draw::Text { text, y, .. } => {
            assert_eq!(text.content, " ○ proj4");
            assert_eq!(*y, 0);
        },
        other => panic!("unexpected draw {:?}", other),
    }
    match &draws[2] {
        Draw::Text { text, .. } => assert!(text.selected),
        other => panic!("unexpected draw {:?}", other),
    }
    assert_eq!(draws[3], gray(" ⌘O to toggle", 3, 30));
}

#[test]
fn empty_normal_view_shows_hint() {
    let mut s = State::default();
    s.load(&pairs(&[("scan_dir", "/p")]));
    s.update(PluginEvent::PermissionGranted);
    s.update(scan_result("/p/a\n"));
    s.update(PluginEvent::SessionUpdate { sessions: vec![], resurrectable: vec![] });
    let draws = s.render(5, 20);
    assert_eq!(draws, vec![gray(" No active sessions", 0, 20), gray(" ⌘O to toggle", 4, 20)]);
    assert!(s.build_render_lines().is_empty());
}

#[test]
fn render_lines_have_heading_only_when_browsing() {
    let mut s = discovered();
    assert_eq!(s.build_render_lines(), vec![RenderLine::ProjectRow(1), RenderLine::ProjectRow(2), RenderLine::ProjectRow(3)]);
    s.update(key(KeyCode::Char('/')));
    let lines = s.build_render_lines();
    assert_eq!(lines[0], RenderLine::Header("All projects".to_string()));
    assert_eq!(lines.len(), 5);
}

#[test]
fn rebuild_keeps_selected_project() {
    let mut s = discovered();
    s.update(key(KeyCode::Down));
    s.update(key(KeyCode::Down));
    assert_eq!(s.selected_project_index(), Some(3));
    s.update(scan_result("/home/u/p/zeta\n/home/u/p/aaa\n/home/u/p/Alpha\n/home/u/p/beta\n/home/u/p/gamma\n"));
    assert_eq!(names(&s), vec!["aaa", "Alpha", "beta", "gamma", "zeta"]);
    assert_eq!(s.selected_project_index(), Some(4));
    s.update(scan_result("/home/u/p/Alpha\n"));
    assert_eq!(s.selected_index(), 0);
}
