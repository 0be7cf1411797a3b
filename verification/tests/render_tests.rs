use zellij_project_sidebar::model::{AiState, Coloring, Project, SessionStatus, Verbosity};
use zellij_project_sidebar::render::{
    fit_line, fit_line_with_ellipsis, new_tab_layout, render_project_row, toggle_keybind_config, COLOR_CYAN,
    COLOR_GRAY, COLOR_GREEN, COLOR_RED, COLOR_YELLOW,
};

fn project(name: &str, status: SessionStatus) -> Project {
    Project { name: name.to_string(), path: format!("/p/{}", name), status }
}

fn running(is_current: bool, tab_count: usize, cmd: Option<&str>) -> SessionStatus {
    SessionStatus::Running { is_current, tab_count, active_command: cmd.map(|c| c.to_string()) }
}

#[test]
fn full_row_of_running_session() {
    let row = render_project_row(&project("web", running(false, 12, None)), false, None, Verbosity::Full, false, 40);
    assert_eq!(row.content, " ● web [12]");
    assert!(!row.selected);
    assert_eq!(
        row.colors,
        vec![
            Coloring::Range { level: COLOR_GREEN, start: 1, end: 2 },
            Coloring::Range { level: COLOR_GRAY, start: 7, end: 11 },
        ]
    );
}

#[test]
fn tab_count_coloring_is_cut_with_the_line() {
    let row = render_project_row(&project("web", running(false, 12, None)), false, None, Verbosity::Full, true, 9);
    assert_eq!(row.content, " ● web […");
    assert!(row.selected);
    assert_eq!(
        row.colors,
        vec![
            Coloring::Range { level: COLOR_GREEN, start: 1, end: 2 },
            Coloring::Range { level: COLOR_GRAY, start: 7, end: 9 },
        ]
    );
    let short = render_project_row(&project("web", running(false, 12, None)), false, None, Verbosity::Full, false, 7);
    assert_eq!(short.content, " ● web…");
    assert_eq!(short.colors, vec![Coloring::Range { level: COLOR_GREEN, start: 1, end: 2 }]);
}

#[test]
fn current_session_row_is_green() {
    let row = render_project_row(&project("api", running(true, 1, Some("nvim"))), false, None, Verbosity::Full, false, 40);
    assert_eq!(row.content, " ● api [1] nvim");
    assert_eq!(row.colors, vec![Coloring::Range { level: COLOR_GREEN, start: 0, end: 15 }]);
}

#[test]
fn minimal_row_and_status_marks() {
    let row = render_project_row(&project("api", running(true, 1, Some("nvim"))), false, None, Verbosity::Minimal, false, 40);
    assert_eq!(row.content, " ● api");
    let exited = render_project_row(&project("docs", SessionStatus::Exited), false, None, Verbosity::Full, false, 40);
    assert_eq!(exited.content, " ● docs");
    assert_eq!(exited.colors, vec![Coloring::Range { level: COLOR_YELLOW, start: 1, end: 2 }]);
    let idle = render_project_row(&project("blog", SessionStatus::NotStarted), false, None, Verbosity::Full, false, 40);
    assert_eq!(idle.content, " ○ blog");
    assert_eq!(idle.colors, vec![Coloring::Range { level: COLOR_GRAY, start: 1, end: 2 }]);
}

#[test]
fn attention_shows_a_red_diamond() {
    let row = render_project_row(&project("web", running(true, 2, None)), true, None, Verbosity::Full, false, 40);
    assert_eq!(row.content, " ◆ web [2]");
    assert_eq!(row.colors, vec![Coloring::Range { level: COLOR_RED, start: 1, end: 2 }]);
}

#[test]
fn working_ai_agent_shows_a_green_triangle() {
    let row = render_project_row(
        &project("web", running(false, 12, None)),
        false,
        Some(AiState::Active),
        Verbosity::Full,
        false,
        40,
    );
    assert_eq!(row.content, " ▶ web [12]");
    assert_eq!(
        row.colors,
        vec![
            Coloring::Range { level: COLOR_GREEN, start: 1, end: 2 },
            Coloring::Range { level: COLOR_GRAY, start: 7, end: 11 },
        ]
    );
}

#[test]
fn idle_or_waiting_ai_agent_shows_a_cyan_square() {
    let row = render_project_row(&project("docs", SessionStatus::Exited), false, Some(AiState::Idle), Verbosity::Full, false, 40);
    assert_eq!(row.content, " ■ docs");
    assert_eq!(row.colors, vec![Coloring::Range { level: COLOR_CYAN, start: 1, end: 2 }]);
    let current = render_project_row(
        &project("api", running(true, 1, Some("nvim"))),
        false,
        Some(AiState::Waiting),
        Verbosity::Full,
        false,
        40,
    );
    assert_eq!(current.content, " ■ api [1] nvim");
    assert_eq!(
        current.colors,
        vec![
            Coloring::Range { level: COLOR_CYAN, start: 1, end: 2 },
            Coloring::Range { level: COLOR_GREEN, start: 2, end: 15 },
        ]
    );
    let working_here = render_project_row(
        &project("api", running(true, 1, None)),
        false,
        Some(AiState::Active),
        Verbosity::Full,
        false,
        40,
    );
    assert_eq!(working_here.content, " ▶ api [1]");
    assert_eq!(working_here.colors, vec![Coloring::Range { level: COLOR_GREEN, start: 0, end: 10 }]);
}

#[test]
fn attention_mark_wins_over_the_ai_mark() {
    let row = render_project_row(&project("web", running(false, 2, None)), true, Some(AiState::Active), Verbosity::Minimal, false, 40);
    assert_eq!(row.content, " ◆ web");
    assert_eq!(row.colors, vec![Coloring::Range { level: COLOR_RED, start: 1, end: 2 }]);
}

#[test]
fn ellipsis_and_plain_cuts() {
    assert_eq!(fit_line_with_ellipsis("abcdef".to_string(), 4), "abc…");
    assert_eq!(fit_line_with_ellipsis("abcdef".to_string(), 0), "…");
    assert_eq!(fit_line_with_ellipsis("abc".to_string(), 3), "abc");
    assert_eq!(fit_line("abcdef", 2), "ab");
    assert_eq!(fit_line("ab", 5), "ab");
}

#[test]
fn keybind_configuration_text() {
    let plugin_id = 17u32;
    let expected = format!(
        r#"
keybinds {{
    shared {{
        bind "Super o" {{
            MessagePluginId {plugin_id} {{
                name "toggle_sidebar"
            }}
        }}
        bind "Super t" {{
            MessagePluginId {plugin_id} {{
                name "new_tab_with_sidebar"
            }}
        }}
    }}
}}
"#,
    );
    assert_eq!(toggle_keybind_config(plugin_id), expected);
}

#[test]
fn new_tab_layouts() {
    let scan_dir = "/home/u/p";
    let session_layout = "/home/u/l.kdl";
    let expected = format!(
        r#"
layout {{
    pane size=1 borderless=true {{
        plugin location="zellij:tab-bar"
    }}
    pane split_direction="vertical" {{
        pane size="15%" name="Projects" {{
            plugin location="file:~/.config/zellij/plugins/zellij-project-sidebar.wasm" {{
                scan_dir "{scan_dir}"
                session_layout "{session_layout}"
                is_primary "false"
            }}
        }}
        pane
    }}
    pane size=1 borderless=true {{
        plugin location="file:~/.config/zellij/plugins/zellij-attention.wasm" {{
            enabled "true"
            waiting_icon "⏳"
            completed_icon "✅"
        }}
    }}
}}
"#
    );
    assert_eq!(new_tab_layout(true, &Some(scan_dir.to_string()), &Some(session_layout.to_string()), &vec![]), expected);
    let no_layout = new_tab_layout(true, &Some(scan_dir.to_string()), &None, &vec![]);
    assert!(no_layout.contains("session_layout \"\""));
    let configured = new_tab_layout(
        false,
        &None,
        &Some("/l.kdl".to_string()),
        &vec![
            project("app", SessionStatus::NotStarted),
            Project { name: "api".to_string(), path: "/y/api".to_string(), status: SessionStatus::NotStarted },
        ],
    );
    let configured_expected = r#"
layout {
    pane size=1 borderless=true {
        plugin location="zellij:tab-bar"
    }
    pane split_direction="vertical" {
        pane size="15%" name="Projects" {
            plugin location="file:~/.config/zellij/plugins/zellij-project-sidebar.wasm" {
                project_0 "/p/app"
                project_1 "/y/api"
                session_layout "/l.kdl"
                is_primary "false"
            }
        }
        pane
    }
    pane size=1 borderless=true {
        plugin location="file:~/.config/zellij/plugins/zellij-attention.wasm" {
            enabled "true"
            waiting_icon "⏳"
            completed_icon "✅"
        }
    }
}
"#;
    assert_eq!(configured, configured_expected);
    let bare = new_tab_layout(false, &None, &None, &vec![]);
    assert!(bare.contains("zellij-project-sidebar.wasm\" {\n                is_primary \"false\""));
    assert!(!bare.contains("session_layout"));
}
