//! What the sidebar shows: project rows with their marks and colors, and
//! the layout and key binding texts it hands the host.
use vstd::prelude::*;
use crate::model::{AiState, Coloring, Project, ProjectView, StatusView, StyledText, StyledView, Verbosity, SessionStatus};
use crate::strings::{decimal, decimal_string};

verus! {

/// Palette color of running sessions and of the current session's row.
pub const COLOR_GREEN: usize = 0;

/// Palette color of the mark of an idle or waiting AI agent.
pub const COLOR_CYAN: usize = 1;

/// Palette color of the attention mark.
pub const COLOR_RED: usize = 2;

/// Palette color of exited sessions.
pub const COLOR_YELLOW: usize = 3;

/// Palette color of the search bar and of commands.
pub const COLOR_BLUE: usize = 4;

/// Palette color of dim text: projects without a session, tab counts, hints.
pub const COLOR_GRAY: usize = 7;

/// The mark of an AI agent's activity: a triangle while it works, a
/// square when it is idle or waiting.
pub open spec fn ai_mark(ai: AiState) -> Seq<char> {
    match ai {
        AiState::Active => "▶"@,
        _ => "■"@,
    }
}

/// The color of an AI agent's mark: green while it works, cyan when it is
/// idle or waiting.
pub open spec fn ai_color(ai: AiState) -> usize {
    match ai {
        AiState::Active => COLOR_GREEN,
        _ => COLOR_CYAN,
    }
}

/// The mark before a project's name: a diamond when its session asks for
/// attention; else the mark of the session's AI agent, if it has one; else a
/// filled dot for a running or exited session and a hollow one for a project
/// without a session.
pub open spec fn status_dot(needs_attention: bool, ai: Option<AiState>, status: StatusView) -> Seq<char> {
    if needs_attention {
        "◆"@
    } else {
        match ai {
            Some(a) => ai_mark(a),
            None => match status {
                StatusView::NotStarted => "○"@,
                _ => "●"@,
            },
        }
    }
}

/// The tab count part of a full row: ` [N]` for a running session.
pub open spec fn tab_part(status: StatusView) -> Seq<char> {
    match status {
        StatusView::Running { tab_count, .. } => " ["@ + decimal(tab_count as nat) + "]"@,
        _ => seq![],
    }
}

/// The command part of a full row: ` cmd` for the current session when
/// its focused pane runs a command.
pub open spec fn command_part(status: StatusView) -> Seq<char> {
    match status {
        StatusView::Running { is_current: true, active_command: Some(cmd), .. } => " "@ + cmd,
        _ => seq![],
    }
}

/// The text of a project's row: ` <mark> <name>`, and in full verbosity the
/// tab count and the command.
pub open spec fn row_text(p: ProjectView, needs_attention: bool, ai: Option<AiState>, verbosity: Verbosity) -> Seq<char> {
    let head = " "@ + status_dot(needs_attention, ai, p.status) + " "@ + p.name;
    match verbosity {
        Verbosity::Minimal => head,
        Verbosity::Full => head + tab_part(p.status) + command_part(p.status),
    }
}

/// `line` cut to `cols` columns: a line longer than that keeps its first
/// `cols - 1` characters (none when `cols` is 0) and ends with an ellipsis.
pub open spec fn fit_with_ellipsis(line: Seq<char>, cols: usize) -> Seq<char> {
    if line.len() > cols {
        line.take(if cols == 0 {
            0
        } else {
            cols - 1
        }) + "…"@
    } else {
        line
    }
}

/// `line` cut to its first `cols` characters.
pub open spec fn fit(line: Seq<char>, cols: usize) -> Seq<char> {
    if line.len() > cols {
        line.take(cols as int)
    } else {
        line
    }
}

/// The session of this status is the current one.
pub open spec fn is_current_session(status: StatusView) -> bool {
    status matches StatusView::Running { is_current: true, .. }
}

/// The colorings of a project's row, whose displayed text is `display`:
/// the attention mark red; else, for the current session, the whole row
/// green, but for the mark of an idle or waiting AI agent, which is cyan;
/// else the mark of the session's AI agent in its color, or the status mark
/// green, yellow or gray for a running, exited or not started session. In
/// full verbosity, for a running session that is not the current one, the
/// tab count gray, as far as it is displayed.
pub open spec fn row_colors(
    p: ProjectView,
    needs_attention: bool,
    ai: Option<AiState>,
    verbosity: Verbosity,
    display: Seq<char>,
) -> Seq<Coloring> {
    let first = if needs_attention {
        seq![Coloring::Range { level: COLOR_RED, start: 1, end: 2 }]
    } else if is_current_session(p.status) {
        match ai {
            Some(a) => if a == AiState::Active {
                seq![Coloring::Range { level: COLOR_GREEN, start: 0, end: display.len() as usize }]
            } else {
                seq![
                    Coloring::Range { level: COLOR_CYAN, start: 1, end: 2 },
                    Coloring::Range { level: COLOR_GREEN, start: 2, end: display.len() as usize },
                ]
            },
            None => seq![Coloring::Range { level: COLOR_GREEN, start: 0, end: display.len() as usize }],
        }
    } else {
        match ai {
            Some(a) => seq![Coloring::Range { level: ai_color(a), start: 1, end: 2 }],
            None => match p.status {
                StatusView::Running { .. } => seq![Coloring::Range { level: COLOR_GREEN, start: 1, end: 2 }],
                StatusView::Exited => seq![Coloring::Range { level: COLOR_YELLOW, start: 1, end: 2 }],
                StatusView::NotStarted => seq![Coloring::Range { level: COLOR_GRAY, start: 1, end: 2 }],
            },
        }
    };
    let tab_count_color = if verbosity == Verbosity::Full && !is_current_session(p.status) {
        match p.status {
            StatusView::Running { tab_count, .. } => {
                let bracket_start = 3 + p.name.len() + 1;
                let bracket_end = bracket_start + decimal(tab_count as nat).len() + 2 + 1;
                if display.len() > bracket_start {
                    seq![
                        Coloring::Range {
                            level: COLOR_GRAY,
                            start: bracket_start as usize,
                            end: if bracket_end <= display.len() {
                                bracket_end as usize
                            } else {
                                display.len() as usize
                            },
                        },
                    ]
                } else {
                    seq![]
                }
            },
            _ => seq![],
        }
    } else {
        seq![]
    };
    first + tab_count_color
}

/// The styled row of a project.
pub open spec fn project_row(
    p: ProjectView,
    needs_attention: bool,
    ai: Option<AiState>,
    verbosity: Verbosity,
    is_selected: bool,
    cols: usize,
) -> StyledView {
    let display = fit_with_ellipsis(row_text(p, needs_attention, ai, verbosity), cols);
    StyledView {
        content: display,
        selected: is_selected,
        colors: row_colors(p, needs_attention, ai, verbosity, display),
    }
}

/// The decimal representation of `n` (see `decimal`).
fn usize_decimal(n: usize) -> (s: String)
    ensures
        s@ == decimal(n as nat),
{
    decimal_string(n as u64)
}

/// `line` cut to `cols` columns with an ellipsis (see `fit_with_ellipsis`).
pub fn fit_line_with_ellipsis(line: String, cols: usize) -> (r: String)
    ensures
        r@ == fit_with_ellipsis(line@, cols),
{
    if line.as_str().unicode_len() > cols {
        let keep = if cols == 0 {
            0
        } else {
            cols - 1
        };
        line.as_str().substring_char(0, keep).to_owned().concat("…")
    } else {
        line
    }
}

/// `line` cut to its first `cols` characters (see `fit`).
pub fn fit_line(line: &str, cols: usize) -> (r: String)
    ensures
        r@ == fit(line@, cols),
{
    if line.unicode_len() > cols {
        line.substring_char(0, cols).to_owned()
    } else {
        line.to_owned()
    }
}

/// The styled row of a project (see `project_row`).
pub fn render_project_row(
    project: &Project,
    needs_attention: bool,
    ai: Option<AiState>,
    verbosity: Verbosity,
    is_selected: bool,
    cols: usize,
) -> (r: StyledText)
    ensures
        r.deep_view() == project_row(project@, needs_attention, ai, verbosity, is_selected, cols),
{
    let status_dot = if needs_attention {
        "◆"
    } else {
        match ai {
            Some(AiState::Active) => "▶",
            Some(_) => "■",
            None => match &project.status {
                SessionStatus::Running { .. } => "●",
                SessionStatus::Exited => "●",
                SessionStatus::NotStarted => "○",
            },
        }
    };
    let head = String::from_str(" ").concat(status_dot).concat(" ").concat(project.name.as_str());
    let line = match verbosity {
        Verbosity::Minimal => head,
        Verbosity::Full => {
            let mut parts = head;
            if let SessionStatus::Running { tab_count, .. } = &project.status {
                let count = usize_decimal(*tab_count);
                parts = parts.concat(" [").concat(count.as_str()).concat("]");
            }
            if let SessionStatus::Running { is_current: true, active_command: Some(cmd), .. } = &project.status {
                parts = parts.concat(" ").concat(cmd.as_str());
            }
            parts
        },
    };
    proof {
        assert(line@ =~= row_text(project@, needs_attention, ai, verbosity));
    }
    let display_line = fit_line_with_ellipsis(line, cols);
    let display_len = display_line.as_str().unicode_len();
    let is_current = match &project.status {
        SessionStatus::Running { is_current: true, .. } => true,
        _ => false,
    };
    let mut colors: Vec<Coloring> = Vec::new();
    if needs_attention {
        colors.push(Coloring::Range { level: COLOR_RED, start: 1, end: 2 });
    } else if is_current {
        match ai {
            Some(AiState::Idle) | Some(AiState::Waiting) => {
                colors.push(Coloring::Range { level: COLOR_CYAN, start: 1, end: 2 });
                colors.push(Coloring::Range { level: COLOR_GREEN, start: 2, end: display_len });
            },
            _ => {
                colors.push(Coloring::Range { level: COLOR_GREEN, start: 0, end: display_len });
            },
        }
    } else if let Some(a) = ai {
        let level = match a {
            AiState::Active => COLOR_GREEN,
            _ => COLOR_CYAN,
        };
        colors.push(Coloring::Range { level, start: 1, end: 2 });
    } else {
        match &project.status {
            SessionStatus::Running { .. } => {
                colors.push(Coloring::Range { level: COLOR_GREEN, start: 1, end: 2 });
            },
            SessionStatus::Exited => {
                colors.push(Coloring::Range { level: COLOR_YELLOW, start: 1, end: 2 });
            },
            SessionStatus::NotStarted => {
                colors.push(Coloring::Range { level: COLOR_GRAY, start: 1, end: 2 });
            },
        }
    }
    if verbosity == Verbosity::Full && !is_current {
        if let SessionStatus::Running { tab_count, is_current: running_current, active_command } = &project.status {
            let name_len = project.name.as_str().unicode_len();
            let bracket_str = String::from_str("[").concat(usize_decimal(*tab_count).as_str()).concat("]");
            let bracket_len = bracket_str.as_str().unicode_len();
            proof {
                reveal_strlit("[");
                reveal_strlit("]");
                assert(bracket_len == decimal(*tab_count as nat).len() + 2);
                assert(name_len == project@.name.len());
            }
            if name_len < display_len && display_len - name_len > 4 {
                let bracket_start = name_len + 4;
                let actual_end = if display_len - bracket_start > bracket_len {
                    bracket_start + bracket_len + 1
                } else {
                    display_len
                };
                colors.push(Coloring::Range { level: COLOR_GRAY, start: bracket_start, end: actual_end });
            }
            if *running_current {
                if let Some(cmd) = active_command {
                    let cmd_start = name_len + 4 + bracket_len + 1;
                    let cmd_end = cmd_start + cmd.as_str().unicode_len() + 1;
                    if display_len > cmd_start {
                        let actual_end = if cmd_end < display_len {
                            cmd_end
                        } else {
                            display_len
                        };
                        colors.push(Coloring::Range { level: COLOR_BLUE, start: cmd_start, end: actual_end });
                    }
                }
            }
        }
    }
    let r = StyledText { content: display_line, selected: is_selected, colors };
    proof {
        assert(r.colors@ =~= row_colors(project@, needs_attention, ai, verbosity, r.content@));
    }
    r
}

/// Opening of the layout of a new tab with the sidebar, up to the scan directory.
pub const TAB_LAYOUT_HEAD: &'static str = r#"
layout {
    pane size=1 borderless=true {
        plugin location="zellij:tab-bar"
    }
    pane split_direction="vertical" {
        pane size="15%" name="Projects" {
            plugin location="file:~/.config/zellij/plugins/zellij-project-sidebar.wasm" {
                scan_dir ""#;

/// The layout text between the scan directory and the session layout.
pub const TAB_LAYOUT_MIDDLE: &'static str = r#""
                session_layout ""#;

/// The end of the layout of a new tab with the sidebar.
pub const TAB_LAYOUT_TAIL: &'static str = r#""
                is_primary "false"
            }
        }
        pane
    }
    pane size=1 borderless=true {
        plugin location="file:~/.config/zellij/plugins/zellij-attention.wasm" {
            enabled "true"
            waiting_icon "⏳"
            completed_icon "✅"
        }
    }
}
"#;

/// Opening of the layout of a new tab with a sidebar in the configured
/// mode, up to the sidebar's settings.
pub const CONFIGURED_TAB_HEAD: &'static str = r#"
layout {
    pane size=1 borderless=true {
        plugin location="zellij:tab-bar"
    }
    pane split_direction="vertical" {
        pane size="15%" name="Projects" {
            plugin location="file:~/.config/zellij/plugins/zellij-project-sidebar.wasm" {"#;

/// The start of a configured project's setting in a layout, up to its number.
pub const PROJECT_ENTRY_HEAD: &'static str = "\n                project_";

/// The start of the session layout setting in a configured tab's layout.
pub const SESSION_LAYOUT_ENTRY_HEAD: &'static str = "\n                session_layout \"";

/// The end of the layout of a new tab with a sidebar in the configured mode.
pub const CONFIGURED_TAB_TAIL: &'static str = r#"
                is_primary "false"
            }
        }
        pane
    }
    pane size=1 borderless=true {
        plugin location="file:~/.config/zellij/plugins/zellij-attention.wasm" {
            enabled "true"
            waiting_icon "⏳"
            completed_icon "✅"
        }
    }
}
"#;

/// The settings `project_0 "<path>"`, `project_1 "<path>"`, ... for the
/// configured projects' paths, one per line.
pub open spec fn project_entries(paths: Seq<Seq<char>>) -> Seq<char>
    decreases paths.len(),
{
    if paths.len() == 0 {
        seq![]
    } else {
        project_entries(paths.drop_last()) + PROJECT_ENTRY_HEAD@ + decimal((paths.len() - 1) as nat) + " \""@
            + paths.last() + "\""@
    }
}

/// The paths of the projects.
pub open spec fn project_paths(projects: Seq<ProjectView>) -> Seq<Seq<char>> {
    projects.map_values(|p: ProjectView| p.path)
}

/// The layout of a new tab, a tab bar, a secondary sidebar, a pane and a
/// status bar. In discovery mode the sidebar has the same scan directory
/// and session layout (empty when unset); in the configured mode it has the
/// same projects, by path, and the session layout when one is set.
pub open spec fn tab_layout(
    use_discovery: bool,
    scan_dir: Option<Seq<char>>,
    session_layout: Option<Seq<char>>,
    paths: Seq<Seq<char>>,
) -> Seq<char> {
    if use_discovery {
        let dir = match scan_dir {
            Some(d) => d,
            None => seq![],
        };
        let layout = match session_layout {
            Some(l) => l,
            None => seq![],
        };
        TAB_LAYOUT_HEAD@ + dir + TAB_LAYOUT_MIDDLE@ + layout + TAB_LAYOUT_TAIL@
    } else {
        let layout_entry = match session_layout {
            Some(l) => SESSION_LAYOUT_ENTRY_HEAD@ + l + "\""@,
            None => seq![],
        };
        CONFIGURED_TAB_HEAD@ + project_entries(paths) + layout_entry + CONFIGURED_TAB_TAIL@
    }
}

/// The settings of the configured projects (see `project_entries`).
fn project_entries_text(projects: &Vec<Project>) -> (r: String)
    ensures
        r@ == project_entries(project_paths(projects.deep_view())),
{
    let ghost paths = project_paths(projects.deep_view());
    let n = projects.len();
    let mut r = String::new();
    let mut i: usize = 0;
    proof {
        assert(paths.take(0) =~= Seq::<Seq<char>>::empty());
    }
    while i < n
        invariant
            n == projects.len(),
            paths == project_paths(projects.deep_view()),
            paths.len() == n,
            i <= n,
            r@ == project_entries(paths.take(i as int)),
        decreases n - i,
    {
        let number = decimal_string(i as u64);
        r = r.concat(PROJECT_ENTRY_HEAD).concat(number.as_str()).concat(" \"").concat(
            projects[i].path.as_str(),
        ).concat("\"");
        proof {
            let t = paths.take(i + 1);
            assert(t.drop_last() =~= paths.take(i as int));
            assert(t.last() == projects[i as int].path@);
        }
        i = i + 1;
    }
    proof {
        assert(paths.take(n as int) =~= paths);
    }
    r
}

/// The layout of a new tab (see `tab_layout`).
pub fn new_tab_layout(
    use_discovery: bool,
    scan_dir: &Option<String>,
    session_layout: &Option<String>,
    projects: &Vec<Project>,
) -> (r: String)
    ensures
        r@ == tab_layout(
            use_discovery,
            scan_dir.deep_view(),
            session_layout.deep_view(),
            project_paths(projects.deep_view()),
        ),
{
    if use_discovery {
        let dir = match scan_dir {
            Some(d) => d.as_str(),
            None => "",
        };
        let layout = match session_layout {
            Some(l) => l.as_str(),
            None => "",
        };
        proof {
            reveal_strlit("");
        }
        String::from_str(TAB_LAYOUT_HEAD).concat(dir).concat(TAB_LAYOUT_MIDDLE).concat(layout).concat(
            TAB_LAYOUT_TAIL,
        )
    } else {
        let entries = project_entries_text(projects);
        let with_projects = String::from_str(CONFIGURED_TAB_HEAD).concat(entries.as_str());
        let with_layout = match session_layout {
            Some(l) => with_projects.concat(SESSION_LAYOUT_ENTRY_HEAD).concat(l.as_str()).concat("\""),
            None => with_projects,
        };
        with_layout.concat(CONFIGURED_TAB_TAIL)
    }
}

/// Opening of the key binding configuration, up to the plugin id.
pub const KEYBINDS_HEAD: &'static str = r#"
keybinds {
    shared {
        bind "Super o" {
            MessagePluginId "#;

/// The key binding text between the two plugin ids.
pub const KEYBINDS_MIDDLE: &'static str = r#" {
                name "toggle_sidebar"
            }
        }
        bind "Super t" {
            MessagePluginId "#;

/// The end of the key binding configuration.
pub const KEYBINDS_TAIL: &'static str = r#" {
                name "new_tab_with_sidebar"
            }
        }
    }
}
"#;

/// The key binding configuration that sends this plugin the messages
/// `toggle_sidebar` on Super+o and `new_tab_with_sidebar` on Super+t.
pub open spec fn keybind_config(plugin_id: u32) -> Seq<char> {
    KEYBINDS_HEAD@ + decimal(plugin_id as nat) + KEYBINDS_MIDDLE@ + decimal(plugin_id as nat) + KEYBINDS_TAIL@
}

/// The key binding configuration for the plugin of this id (see `keybind_config`).
pub fn toggle_keybind_config(plugin_id: u32) -> (r: String)
    ensures
        r@ == keybind_config(plugin_id),
{
    let id = decimal_string(plugin_id as u64);
    String::from_str(KEYBINDS_HEAD).concat(id.as_str()).concat(KEYBINDS_MIDDLE).concat(id.as_str()).concat(
        KEYBINDS_TAIL,
    )
}

} // verus!
