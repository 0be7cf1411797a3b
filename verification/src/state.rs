//! The sidebar's state and how each event changes it.
use vstd::prelude::*;
use crate::config::lookup;
use crate::discovery::{discovered_dirs_of, parse_scan_output};
use crate::ai::{ai_after_files, ai_map, parse_ai_state, AI_ACTIVE_PREFIX, AI_IDLE_PREFIX, AI_POLL_SECONDS,
    AI_WAITING_PREFIX};
use crate::model::{Action, AiState, ActionView, EventView, KeyCode, KeyEvent, MouseEvent, PluginEvent, Project,
    ProjectView, RenderLine, RenderLineView, SessionData, SessionStatus, SessionView, StatusView, Verbosity};
use crate::sessions::{running_status, running_status_of};
use crate::sessions::{fill_statuses, statuses_after_update};
use crate::sorting::{insert_project, keys_of};
use crate::sorting::{lemma_sort_by_name_len, sort_by_name};
use crate::store::{entry_get, keys_sorted, Entries, NameSet, StatusCache};
use crate::config::{configured_projects, load_configured_projects, lookup_value, Config};
use crate::model::{Coloring, Draw, DrawView, EventKind, Permission, StyledText, StyledView};
use crate::render::{fit, fit_line, new_tab_layout, project_paths, project_row, render_project_row, tab_layout, COLOR_BLUE,
    COLOR_GRAY};
use crate::strings::{is_subsequence, lowercase, push_char, str_eq, strip_prefix, subsequence_of,
    to_lowercase, without_last_char};

verus! {

/// Whether `name` matches the search `query`: the lowercased query's
/// characters appear in order in the lowercased name (so a query that
/// lowercases to nothing, as the empty one, matches every name).
pub open spec fn fuzzy_match(name: Seq<char>, query: Seq<char>) -> bool {
    is_subsequence(lowercase(query), lowercase(name))
}

/// Fuzzy subsequence match: all query characters appear in order in the
/// name, ignoring case (see `fuzzy_match`); the empty query matches every
/// name.
pub fn fuzzy_matches(name: &str, query: &str) -> (r: bool)
    ensures
        r == fuzzy_match(name@, query@),
        query@.len() == 0 ==> r,
{
    let query_lower = to_lowercase(query);
    if query_lower.as_str().is_empty() {
        return true;
    }
    let name_lower = to_lowercase(name);
    subsequence_of(query_lower.as_str(), name_lower.as_str())
}

/// The key of a command's context that tells which command it was.
pub const CMD_KEY: &'static str = "cmd";

/// The context value of the directory scan.
pub const CMD_SCAN_DIR: &'static str = "scan_dir";

/// The command that lists the directories directly in `dir`, hidden ones left out.
pub open spec fn scan_args(dir: Seq<char>) -> Seq<Seq<char>> {
    seq![
        "find"@,
        dir,
        "-maxdepth"@,
        "1"@,
        "-mindepth"@,
        "1"@,
        "-type"@,
        "d"@,
        "-not"@,
        "-name"@,
        ".*"@,
    ]
}

/// `v` with `s` appended.
fn push_str(v: &mut Vec<String>, s: &str)
    ensures
        final(v).deep_view() == old(v).deep_view().push(s@),
{
    let ghost before = v.deep_view();
    v.push(String::from_str(s));
    assert(v.deep_view() =~= before.push(s@));
}

/// The arguments of the directory scan (see `scan_args`).
fn scan_command(dir: &String) -> (r: Vec<String>)
    ensures
        r.deep_view() == scan_args(dir@),
{
    let mut v: Vec<String> = Vec::new();
    push_str(&mut v, "find");
    push_str(&mut v, dir.as_str());
    push_str(&mut v, "-maxdepth");
    push_str(&mut v, "1");
    push_str(&mut v, "-mindepth");
    push_str(&mut v, "1");
    push_str(&mut v, "-type");
    push_str(&mut v, "d");
    push_str(&mut v, "-not");
    push_str(&mut v, "-name");
    push_str(&mut v, ".*");
    assert(v.deep_view() =~= scan_args(dir@));
    v
}

/// A command's result is that of a scan that failed.
pub open spec fn failed_scan(exit_code: Option<i32>, context: Seq<(Seq<char>, Seq<char>)>) -> bool {
    lookup(context, CMD_KEY@) == Some(CMD_SCAN_DIR@) && exit_code != Some(0i32)
}

/// Whether a command's result is that of a scan that failed (see `failed_scan`).
pub fn is_failed_scan(exit_code: Option<i32>, context: &Vec<(String, String)>) -> (r: bool)
    ensures
        r == failed_scan(exit_code, context.deep_view()),
{
    let is_scan = match lookup_value(context, CMD_KEY) {
        Some(v) => str_eq(v.as_str(), CMD_SCAN_DIR),
        None => false,
    };
    is_scan && exit_code != Some(0i32)
}

/// The pipe message prefix that flags a session for attention.
pub const ATTENTION_PREFIX: &'static str = "sidebar::attention::";

/// The pipe message prefix that clears a session's attention flag.
pub const CLEAR_PREFIX: &'static str = "sidebar::clear::";

/// What an event does: the next state, the requests to the host, and
/// whether the sidebar should be drawn again.
pub struct Reaction {
    pub state: StateView,
    pub actions: Seq<ActionView>,
    pub redraw: bool,
}

/// A reaction that changes the state and asks nothing of the host.
pub open spec fn quiet(state: StateView, redraw: bool) -> Reaction {
    Reaction { state, actions: seq![], redraw }
}

/// The first running session named `name`.
pub open spec fn session_named(sessions: Seq<SessionView>, name: Seq<char>) -> Option<SessionView>
    decreases sessions.len(),
{
    if sessions.len() == 0 {
        None
    } else if sessions[0].name == name {
        Some(sessions[0])
    } else {
        session_named(sessions.drop_first(), name)
    }
}

/// The status of a configured project after a session update: that of the
/// first running session of its name; else exited if a session of its name
/// can be resurrected; else not started.
pub open spec fn configured_status(sessions: Seq<SessionView>, resurrectable: Seq<Seq<char>>, name: Seq<char>) -> StatusView {
    match session_named(sessions, name) {
        Some(s) => running_status(s),
        None => if resurrectable.contains(name) {
            StatusView::Exited
        } else {
            StatusView::NotStarted
        },
    }
}

/// The status of a configured project after a session update (see `configured_status`).
fn configured_status_of(sessions: &Vec<SessionData>, resurrectable: &Vec<String>, name: &String) -> (r: SessionStatus)
    ensures
        r@ == configured_status(sessions.deep_view(), resurrectable.deep_view(), name@),
{
    let ghost ss = sessions.deep_view();
    let n = sessions.len();
    let mut i: usize = 0;
    proof {
        assert(ss.skip(0) =~= ss);
    }
    while i < n
        invariant
            n == ss.len(),
            ss == sessions.deep_view(),
            i <= n,
            session_named(ss, name@) == session_named(ss.skip(i as int), name@),
        decreases n - i,
    {
        proof {
            assert(ss.skip(i as int)[0] == ss[i as int]);
            assert(ss.skip(i as int).drop_first() =~= ss.skip(i + 1));
        }
        if sessions[i].name == *name {
            return running_status_of(&sessions[i]);
        }
        i = i + 1;
    }
    proof {
        assert(ss.skip(i as int).len() == 0);
    }
    let ghost rs = resurrectable.deep_view();
    let m = resurrectable.len();
    let mut j: usize = 0;
    while j < m
        invariant
            m == rs.len(),
            rs == resurrectable.deep_view(),
            ss == sessions.deep_view(),
            session_named(ss, name@) is None,
            j <= m,
            forall|k: int| 0 <= k < j ==> rs[k] != name@,
        decreases m - j,
    {
        if resurrectable[j] == *name {
            assert(rs[j as int] == name@);
            assert(rs.contains(name@));
            return SessionStatus::Exited;
        }
        j = j + 1;
    }
    SessionStatus::NotStarted
}

/// Text drawn gray at the start of row `y`.
pub open spec fn gray_text(content: Seq<char>, y: usize, cols: usize) -> DrawView {
    DrawView::Text {
        text: StyledView { content, selected: false, colors: seq![Coloring::All { level: COLOR_GRAY }] },
        x: 0,
        y,
        width: cols,
    }
}

/// Draws `content` gray at the start of row `y` (see `gray_text`).
fn gray_draw(content: String, y: usize, cols: usize) -> (d: Draw)
    ensures
        d.deep_view() == gray_text(content@, y, cols),
{
    let mut colors: Vec<Coloring> = Vec::new();
    colors.push(Coloring::All { level: COLOR_GRAY });
    let d = Draw::Text { text: StyledText { content, selected: false, colors }, x: 0, y, width: cols };
    assert(d.deep_view() =~= gray_text(content@, y, cols)) by {
        assert(colors@ =~= seq![Coloring::All { level: COLOR_GRAY }]);
    }
    d
}

/// The permissions asked for: reading and changing the application state
/// and reconfiguring; running commands too in discovery mode.
pub open spec fn permissions_for(use_discovery: bool) -> Seq<Permission> {
    seq![Permission::ReadApplicationState, Permission::ChangeApplicationState, Permission::Reconfigure] + if use_discovery {
        seq![Permission::RunCommands]
    } else {
        seq![]
    }
}

/// The events subscribed to: session updates, permission results, keys and
/// mouse; command results too in discovery mode; and the timer that
/// paces the reading of the shared AI state files.
pub open spec fn events_for(use_discovery: bool) -> Seq<EventKind> {
    seq![EventKind::SessionUpdate, EventKind::PermissionRequestResult, EventKind::Key, EventKind::Mouse] + (if use_discovery {
        seq![EventKind::RunCommandResult]
    } else {
        seq![]
    }) + seq![EventKind::Timer]
}

/// What loading asks the host: the permissions, the subscriptions, and a
/// selectable pane so that the user can answer the permission request.
pub open spec fn load_actions(use_discovery: bool) -> Seq<ActionView> {
    seq![
        ActionView::RequestPermissions(permissions_for(use_discovery)),
        ActionView::Subscribe(events_for(use_discovery)),
        ActionView::SetSelectable(true),
    ]
}

/// What loading asks the host (see `load_actions`).
fn load_requests(use_discovery: bool) -> (actions: Vec<Action>)
    ensures
        actions.deep_view() == load_actions(use_discovery),
{
    let mut permissions: Vec<Permission> = Vec::new();
    permissions.push(Permission::ReadApplicationState);
    permissions.push(Permission::ChangeApplicationState);
    permissions.push(Permission::Reconfigure);
    if use_discovery {
        permissions.push(Permission::RunCommands);
    }
    let mut events: Vec<EventKind> = Vec::new();
    events.push(EventKind::SessionUpdate);
    events.push(EventKind::PermissionRequestResult);
    events.push(EventKind::Key);
    events.push(EventKind::Mouse);
    if use_discovery {
        events.push(EventKind::RunCommandResult);
    }
    events.push(EventKind::Timer);
    assert(permissions@ =~= permissions_for(use_discovery));
    assert(events@ =~= events_for(use_discovery));
    let mut actions: Vec<Action> = Vec::new();
    actions.push(Action::RequestPermissions(permissions));
    actions.push(Action::Subscribe(events));
    actions.push(Action::SetSelectable(true));
    assert(actions.deep_view() =~= load_actions(use_discovery));
    actions
}

/// The sidebar's state, as values.
pub struct StateView {
    pub permissions_granted: bool,
    pub projects: Seq<ProjectView>,
    /// Index into the list of shown projects.
    pub selected_index: usize,
    pub scroll_offset: usize,
    pub initial_load_complete: bool,
    pub is_focused: bool,
    pub is_hidden: bool,
    pub verbosity: Verbosity,
    pub search_query: Seq<char>,
    /// Browsing all projects to find or start one.
    pub browse_mode: bool,
    pub scan_dir: Option<Seq<char>>,
    /// Projects are discovered in `scan_dir` rather than configured one by one.
    pub use_discovery: bool,
    pub discovered_dirs: Seq<(Seq<char>, Seq<char>)>,
    pub scan_complete: bool,
    pub has_session_data: bool,
    pub session_layout: Option<Seq<char>>,
    /// This instance registers the global key bindings.
    pub is_primary: bool,
    /// Sessions that ask for the user's attention.
    pub attention: Set<Seq<char>>,
    /// Session statuses by name, in name order.
    pub cache: Entries,
    /// What the AI agent of each session it knows of is doing.
    pub ai: Map<Seq<char>, AiState>,
}

/// The status stored for `name`, or `NotStarted`.
pub open spec fn status_in(cache: Entries, name: Seq<char>) -> StatusView {
    match entry_get(cache, name) {
        Some(s) => s,
        None => StatusView::NotStarted,
    }
}

/// The project a discovered directory gives: its name, its path, and the
/// stored status of the session of that name.
pub open spec fn project_of_dir(cache: Entries, d: (Seq<char>, Seq<char>)) -> ProjectView {
    ProjectView { name: d.0, path: d.1, status: status_in(cache, d.0) }
}

/// The projects of the discovered directories, in discovery order.
pub open spec fn dir_projects(cache: Entries, dirs: Seq<(Seq<char>, Seq<char>)>) -> Seq<ProjectView> {
    dirs.map_values(|d: (Seq<char>, Seq<char>)| project_of_dir(cache, d))
}

/// A project for each stored session that is not `NotStarted`, in key
/// order, with an empty path.
pub open spec fn live_projects(cache: Entries) -> Seq<ProjectView>
    decreases cache.len(),
{
    if cache.len() == 0 {
        seq![]
    } else {
        let before = live_projects(cache.drop_last());
        if cache.last().1 is NotStarted {
            before
        } else {
            before.push(ProjectView { name: cache.last().0, path: seq![], status: cache.last().1 })
        }
    }
}

/// The position, in `shown`, of the first shown project named `name`.
pub open spec fn position_named(projects: Seq<ProjectView>, shown: Seq<usize>, name: Seq<char>) -> Option<nat>
    decreases shown.len(),
{
    if shown.len() == 0 {
        None
    } else if projects[shown[0] as int].name == name {
        Some(0)
    } else {
        match position_named(projects, shown.drop_first(), name) {
            Some(p) => Some(p + 1),
            None => None,
        }
    }
}

/// The position of the value `v` in `s`, if it occurs.
pub open spec fn position_of(s: Seq<usize>, v: usize) -> Option<nat>
    decreases s.len(),
{
    if s.len() == 0 {
        None
    } else if s[0] == v {
        Some(0)
    } else {
        match position_of(s.drop_first(), v) {
            Some(p) => Some(p + 1),
            None => None,
        }
    }
}

/// The text of the heading above the projects in browse mode.
pub open spec fn all_projects_heading() -> Seq<char> {
    "All projects"@
}

impl StateView {
    /// The selection points into the project list, or is 0; the status store
    /// keeps its keys in order.
    pub open spec fn wf(self) -> bool {
        &&& (self.selected_index == 0 || self.selected_index < self.projects.len())
        &&& self.projects.len() <= usize::MAX
        &&& keys_sorted(self.cache)
    }

    /// Whether a project is shown in the current mode: in browse mode those
    /// that match the search; in discovery mode otherwise those whose session
    /// runs or has exited; all of them in the configured mode.
    pub open spec fn shown(self, p: ProjectView) -> bool {
        if self.use_discovery {
            if self.browse_mode {
                fuzzy_match(p.name, self.search_query)
            } else {
                !(p.status is NotStarted)
            }
        } else {
            true
        }
    }

    /// The indices, in increasing order, of the shown projects among the first `n`.
    pub open spec fn filtered_upto(self, n: nat) -> Seq<usize>
        decreases n,
    {
        if n == 0 {
            seq![]
        } else {
            let before = self.filtered_upto((n - 1) as nat);
            if self.shown(self.projects[n - 1]) {
                before.push((n - 1) as usize)
            } else {
                before
            }
        }
    }

    /// The indices of the shown projects, in increasing order.
    pub open spec fn filtered(self) -> Seq<usize> {
        self.filtered_upto(self.projects.len())
    }

    /// The project index the selection points at, if it points at a shown project.
    pub open spec fn selected_project(self) -> Option<usize> {
        if self.selected_index < self.filtered().len() {
            Some(self.filtered()[self.selected_index as int])
        } else {
            None
        }
    }

    /// The selection brought back into the shown list: 0 when nothing is
    /// shown, else at most the last position.
    pub open spec fn clamped(self) -> StateView {
        let n = self.filtered().len();
        StateView {
            selected_index: if n == 0 {
                0
            } else if self.selected_index <= n - 1 {
                self.selected_index
            } else {
                (n - 1) as usize
            },
            ..self
        }
    }

    /// The state after rebuilding the project list from the discovered
    /// directories (discovery mode only): projects sorted by lowercased name,
    /// the selection kept on the same project name if it is still shown, then
    /// clamped; loading is complete once both the scan and session data are in.
    #[verifier::opaque]
    pub open spec fn rebuilt(self) -> StateView {
        if !self.use_discovery {
            self
        } else {
            let sorted = StateView {
                projects: sort_by_name(dir_projects(self.cache, self.discovered_dirs)),
                ..self
            };
            sorted.rebuild_tail(self.selected_name())
        }
    }

    /// The last steps of a rebuild: the selection put on the first shown
    /// project named `name`, if any, then clamped; loading complete once both
    /// the scan and the session data are in.
    pub open spec fn rebuild_tail(self, name: Option<Seq<char>>) -> StateView {
        let reselected = match name {
            Some(name) => match position_named(self.projects, self.filtered(), name) {
                Some(fi) => StateView { selected_index: fi as usize, ..self },
                None => self,
            },
            None => self,
        };
        let clamped = reselected.clamped();
        StateView {
            initial_load_complete: if self.scan_complete && self.has_session_data {
                true
            } else {
                self.initial_load_complete
            },
            ..clamped
        }
    }

    /// What the AI agent of the session named `name` is doing, if it is known.
    pub open spec fn ai_of(self, name: Seq<char>) -> Option<AiState> {
        if self.ai.dom().contains(name) {
            Some(self.ai[name])
        } else {
            None
        }
    }

    /// The name of the selected project, if the selection points at one.
    pub open spec fn selected_name(self) -> Option<Seq<char>> {
        match self.selected_project() {
            Some(i) => Some(self.projects[i as int].name),
            None => None,
        }
    }

    /// Each project with the status stored for its name, or `NotStarted`.
    pub open spec fn with_cached_statuses(self) -> StateView {
        StateView {
            projects: self.projects.map_values(
                |p: ProjectView| ProjectView { status: status_in(self.cache, p.name), ..p },
            ),
            ..self
        }
    }

    /// What switching to project `p` asks the host: switch to a running or
    /// exited session; start a new one in the project's directory otherwise,
    /// with the configured layout if there is one.
    pub open spec fn switch_action(self, p: ProjectView) -> ActionView {
        match p.status {
            StatusView::NotStarted => match self.session_layout {
                Some(layout) => ActionView::SwitchSessionWithLayout { name: p.name, layout, cwd: p.path },
                None => ActionView::SwitchSessionWithCwd { name: p.name, cwd: p.path },
            },
            _ => ActionView::SwitchSession { name: p.name },
        }
    }

    /// The state after activating the selected project: its attention flag
    /// cleared, browsing and the search ended, selection and scroll reset,
    /// the sidebar unfocused. Unchanged when nothing is selected.
    pub open spec fn activated(self) -> StateView {
        match self.selected_project() {
            None => self,
            Some(i) => StateView {
                attention: self.attention.remove(self.projects[i as int].name),
                browse_mode: false,
                search_query: seq![],
                selected_index: 0,
                scroll_offset: 0,
                is_focused: false,
                ..self
            },
        }
    }

    /// What activating the selected project asks the host: the switch, then
    /// making the sidebar unselectable.
    pub open spec fn activate_actions(self) -> Seq<ActionView> {
        match self.selected_project() {
            None => seq![],
            Some(i) => seq![self.switch_action(self.projects[i as int]), ActionView::SetSelectable(false)],
        }
    }

    /// What killing the selected session asks the host: nothing unless the
    /// selected project's session runs and is not the current one.
    pub open spec fn kill_actions(self) -> Seq<ActionView> {
        match self.selected_project() {
            Some(i) => match self.projects[i as int].status {
                StatusView::Running { is_current: false, .. } => seq![
                    ActionView::KillSession { name: self.projects[i as int].name },
                ],
                _ => seq![],
            },
            None => seq![],
        }
    }

    /// The notice given when Delete asks to kill the selected session and it
    /// is the current one, which is not killed.
    pub open spec fn kill_refused(self) -> Option<Seq<char>> {
        match self.selected_project() {
            Some(i) => match self.projects[i as int].status {
                StatusView::Running { is_current: true, .. } => Some(
                    "Cannot kill current session '"@ + self.projects[i as int].name + "'"@,
                ),
                _ => None,
            },
            None => None,
        }
    }

    /// The notice an event gives besides its reaction: a plain Delete out
    /// of browse mode on the current session's row (see `kill_refused`).
    pub open spec fn notice(self, e: EventView) -> Option<Seq<char>> {
        match e {
            EventView::Key(k) => if k.code == KeyCode::Delete && k.no_modifiers() && !self.browse_mode {
                self.kill_refused()
            } else {
                None
            },
            _ => None,
        }
    }

    /// The state after toggling the sidebar's focus: a focused sidebar gives
    /// up the focus and ends browsing and the search; an unfocused one takes it.
    pub open spec fn toggled(self) -> StateView {
        if self.is_focused {
            StateView { search_query: seq![], browse_mode: false, is_focused: false, ..self }
        } else {
            StateView { is_focused: true, ..self }
        }
    }

    /// What toggling the focus asks the host.
    pub open spec fn toggle_actions(self) -> Seq<ActionView> {
        if self.is_focused {
            seq![ActionView::SetSelectable(false)]
        } else {
            seq![ActionView::SetSelectable(true), ActionView::FocusSelf]
        }
    }

    /// What starting a scan asks the host: list the directories in
    /// `scan_dir`, tagged so that the result is recognised. Nothing without
    /// a `scan_dir`.
    pub open spec fn scan_actions(self) -> Seq<ActionView> {
        match self.scan_dir {
            Some(dir) => seq![
                ActionView::RunCommand { args: scan_args(dir), context: seq![(CMD_KEY@, CMD_SCAN_DIR@)] },
            ],
            None => seq![],
        }
    }

    /// What a pipe message named `name` does: toggle the sidebar's focus;
    /// open a new tab with the sidebar; flag a session for attention (a
    /// non-empty name after the prefix); clear a session's flag; record that
    /// a session's AI agent works, is idle or waits (a non-empty name after
    /// the prefix); focus and show the sidebar. Other names do nothing and
    /// ask for no redraw.
    pub open spec fn piped(self, name: Seq<char>) -> Reaction {
        if name == "toggle_sidebar"@ {
            Reaction { state: self.toggled(), actions: self.toggle_actions(), redraw: true }
        } else if name == "new_tab_with_sidebar"@ {
            Reaction {
                state: self,
                actions: seq![
                    ActionView::NewTabWithLayout {
                        layout: tab_layout(self.use_discovery, self.scan_dir, self.session_layout, project_paths(self.projects)),
                    },
                ],
                redraw: true,
            }
        } else if ATTENTION_PREFIX@.is_prefix_of(name) {
            let session = name.skip(ATTENTION_PREFIX@.len() as int);
            quiet(
                if session.len() > 0 {
                    StateView { attention: self.attention.insert(session), ..self }
                } else {
                    self
                },
                true,
            )
        } else if CLEAR_PREFIX@.is_prefix_of(name) {
            let session = name.skip(CLEAR_PREFIX@.len() as int);
            quiet(StateView { attention: self.attention.remove(session), ..self }, true)
        } else if AI_ACTIVE_PREFIX@.is_prefix_of(name) {
            quiet(self.with_ai(name.skip(AI_ACTIVE_PREFIX@.len() as int), AiState::Active), true)
        } else if AI_IDLE_PREFIX@.is_prefix_of(name) {
            quiet(self.with_ai(name.skip(AI_IDLE_PREFIX@.len() as int), AiState::Idle), true)
        } else if AI_WAITING_PREFIX@.is_prefix_of(name) {
            quiet(self.with_ai(name.skip(AI_WAITING_PREFIX@.len() as int), AiState::Waiting), true)
        } else if name == "focus_sidebar"@ {
            Reaction {
                state: StateView { is_focused: true, is_hidden: false, ..self },
                actions: seq![ActionView::SetSelectable(true), ActionView::ShowSelf],
                redraw: true,
            }
        } else {
            quiet(self, false)
        }
    }

    /// The state with the AI agent of session `session` doing `a`; unchanged
    /// when the session's name is empty.
    pub open spec fn with_ai(self, session: Seq<char>, a: AiState) -> StateView {
        if session.len() > 0 {
            StateView { ai: self.ai.insert(session, a), ..self }
        } else {
            self
        }
    }

    /// What reading the shared AI state files does: each file that names a
    /// state sets the state of its session (see `ai_after_files`); the timer
    /// is set again and the sidebar drawn again.
    pub open spec fn ai_files_read(self, files: Seq<(Seq<char>, Seq<char>)>) -> Reaction {
        Reaction {
            state: StateView { ai: ai_after_files(self.ai, files), ..self },
            actions: seq![ActionView::SetTimeout(AI_POLL_SECONDS)],
            redraw: true,
        }
    }

    /// The selection moved one shown project down, staying on the last one.
    pub open spec fn moved_down(self) -> StateView {
        let n = self.filtered().len();
        if n > 0 {
            StateView {
                selected_index: if self.selected_index + 1 <= n - 1 {
                    (self.selected_index + 1) as usize
                } else {
                    (n - 1) as usize
                },
                ..self
            }
        } else {
            self
        }
    }

    /// The selection moved one project up, staying on the first one.
    pub open spec fn moved_up(self) -> StateView {
        StateView {
            selected_index: if self.selected_index > 0 {
                (self.selected_index - 1) as usize
            } else {
                0
            },
            ..self
        }
    }

    /// The state with browsing set as given, the search emptied, and the
    /// selection and scroll reset.
    pub open spec fn with_browse(self, browse: bool) -> StateView {
        StateView { browse_mode: browse, search_query: seq![], selected_index: 0, scroll_offset: 0, ..self }
    }

    /// What granted permissions do: the sidebar stops being selectable,
    /// registers its key bindings if it is the primary instance, starts the
    /// scan in discovery mode, and sets the timer for reading the shared AI
    /// state files.
    pub open spec fn granted(self) -> Reaction {
        Reaction {
            state: StateView { permissions_granted: true, ..self },
            actions: seq![ActionView::SetSelectable(false)] + (if self.is_primary {
                seq![ActionView::RegisterKeybinds]
            } else {
                seq![]
            }) + (if self.use_discovery {
                self.scan_actions()
            } else {
                seq![]
            }) + seq![ActionView::SetTimeout(AI_POLL_SECONDS)],
            redraw: true,
        }
    }

    /// What a command's result does: a result tagged as the scan stores the
    /// listed directories when the command succeeded, marks the scan complete
    /// and rebuilds the projects; other results do nothing.
    pub open spec fn command_result(self, exit_code: Option<i32>, stdout: Seq<u8>, context: Seq<(Seq<char>, Seq<char>)>) -> Reaction {
        if lookup(context, CMD_KEY@) == Some(CMD_SCAN_DIR@) {
            let stored = if exit_code == Some(0i32) {
                StateView { discovered_dirs: discovered_dirs_of(stdout), ..self }
            } else {
                self
            };
            quiet(StateView { scan_complete: true, ..stored }.rebuilt(), true)
        } else {
            quiet(self, false)
        }
    }

    /// What a session update does. In discovery mode: the statuses are
    /// stored; once the scan is complete each project takes its stored
    /// status, before that the projects are the live sessions. In the
    /// configured mode each project takes the status of its session. Loading
    /// is then complete.
    pub open spec fn session_update(self, sessions: Seq<SessionView>, resurrectable: Seq<Seq<char>>) -> Reaction {
        if self.use_discovery {
            let stored = StateView {
                cache: statuses_after_update(sessions, resurrectable),
                has_session_data: true,
                ..self
            };
            if self.scan_complete {
                quiet(StateView { initial_load_complete: true, ..stored.with_cached_statuses() }, true)
            } else {
                let live = StateView { projects: sort_by_name(live_projects(stored.cache)), ..stored }.clamped();
                quiet(StateView { initial_load_complete: true, ..live }, true)
            }
        } else {
            quiet(
                StateView {
                    projects: self.projects.map_values(
                        |p: ProjectView|
                            ProjectView { status: configured_status(sessions, resurrectable, p.name), ..p },
                    ),
                    initial_load_complete: true,
                    ..self
                },
                true,
            )
        }
    }

    /// What a left click on screen row `line` does: on a project's row or
    /// the detail line under it (below the search bar, counted from the
    /// scroll offset) it selects and activates that project; elsewhere it
    /// only asks for a redraw.
    pub open spec fn clicked(self, line: isize) -> Reaction {
        let click_y = line as usize;
        let y_offset: usize = if self.browse_mode {
            1
        } else {
            0
        };
        if click_y < y_offset {
            quiet(self, true)
        } else {
            let lines = self.render_lines();
            let idx = self.scroll_offset + (click_y - y_offset);
            if idx < lines.len() {
                match lines[idx] {
                    RenderLineView::ProjectRow(p) => match position_of(self.filtered(), p) {
                        Some(fi) => {
                            let chosen = StateView { selected_index: fi as usize, ..self };
                            Reaction { state: chosen.activated(), actions: chosen.activate_actions(), redraw: true }
                        },
                        None => quiet(self, true),
                    },
                    RenderLineView::Detail(p) => match position_of(self.filtered(), p) {
                        Some(fi) => {
                            let chosen = StateView { selected_index: fi as usize, ..self };
                            Reaction { state: chosen.activated(), actions: chosen.activate_actions(), redraw: true }
                        },
                        None => quiet(self, true),
                    },
                    RenderLineView::Header(_) => quiet(self, true),
                }
            } else {
                quiet(self, true)
            }
        }
    }

    /// What a mouse event does. A left click below the search bar on a
    /// project's row selects and activates it; scrolling moves the selection.
    pub open spec fn mouse(self, m: MouseEvent) -> Reaction {
        match m {
            MouseEvent::LeftClick { line, .. } => self.clicked(line),
            MouseEvent::ScrollUp => quiet(self.moved_up(), true),
            MouseEvent::ScrollDown => quiet(self.moved_down(), true),
            MouseEvent::Other => quiet(self, false),
        }
    }

    /// What a key press does, with no modifier held unless said: Down and Up
    /// move the selection; Enter activates it; Esc leaves browse mode, or
    /// else unfocuses the sidebar; Backspace deletes the last search
    /// character; Delete kills the selected session (not while browsing);
    /// Alt+r rescans; `/` enters browse mode (discovery only); other
    /// characters extend the search while browsing. Other keys do nothing and
    /// ask for no redraw.
    pub open spec fn key(self, k: KeyEvent) -> Reaction {
        let plain = k.no_modifiers();
        match k.code {
            KeyCode::Down if plain => quiet(self.moved_down(), true),
            KeyCode::Up if plain => quiet(self.moved_up(), true),
            KeyCode::Enter if plain => Reaction {
                state: self.activated(),
                actions: self.activate_actions(),
                redraw: true,
            },
            KeyCode::Esc if plain => if self.browse_mode {
                quiet(self.with_browse(false), true)
            } else {
                Reaction {
                    state: StateView { is_focused: false, ..self },
                    actions: seq![ActionView::SetSelectable(false)],
                    redraw: true,
                }
            },
            KeyCode::Backspace if plain => if self.browse_mode && self.search_query.len() > 0 {
                quiet(
                    StateView {
                        search_query: self.search_query.drop_last(),
                        selected_index: 0,
                        scroll_offset: 0,
                        ..self
                    },
                    true,
                )
            } else {
                quiet(self, true)
            },
            KeyCode::Delete if plain => Reaction {
                state: self,
                actions: if !self.browse_mode {
                    self.kill_actions()
                } else {
                    seq![]
                },
                redraw: true,
            },
            KeyCode::Char(c) if c == 'r' && k.alt => if self.use_discovery {
                Reaction {
                    state: StateView { scan_complete: false, ..self },
                    actions: self.scan_actions(),
                    redraw: true,
                }
            } else {
                quiet(self, true)
            },
            KeyCode::Char(c) if c == '/' && plain && !self.browse_mode => if self.use_discovery {
                quiet(self.with_browse(true), true)
            } else {
                quiet(self, true)
            },
            KeyCode::Char(c) if plain && self.browse_mode => quiet(
                StateView {
                    search_query: self.search_query.push(c),
                    selected_index: 0,
                    scroll_offset: 0,
                    ..self
                },
                true,
            ),
            _ => quiet(self, false),
        }
    }

    /// What an event does.
    pub open spec fn reaction(self, e: EventView) -> Reaction {
        match e {
            EventView::PermissionGranted => self.granted(),
            EventView::PermissionDenied => quiet(self, false),
            EventView::RunCommandResult { exit_code, stdout, context } => self.command_result(
                exit_code,
                stdout,
                context,
            ),
            EventView::SessionUpdate { sessions, resurrectable } => self.session_update(sessions, resurrectable),
            EventView::Mouse(m) => self.mouse(m),
            EventView::Key(k) => self.key(k),
            EventView::AiStateFiles(files) => self.ai_files_read(files),
            EventView::Other => quiet(self, false),
        }
    }

    /// The scroll offset moved so that the selected project's row, if it is
    /// among `lines`, is within `visible_rows` rows from it (see
    /// `scroll_to_show`); unchanged when no row is visible.
    pub open spec fn scrolled(self, lines: Seq<RenderLineView>, visible_rows: usize) -> StateView {
        StateView {
            scroll_offset: if visible_rows == 0 {
                self.scroll_offset
            } else {
                match self.selected_project() {
                    None => self.scroll_offset,
                    Some(sel) => match row_of(lines, sel) {
                        None => self.scroll_offset,
                        Some(y) => scroll_to_show(self.scroll_offset, y, visible_rows),
                    },
                }
            },
            ..self
        }
    }

    /// The state after loading the configuration: the verbosity (`minimal`,
    /// else full; unchanged when unset), the scan directory, whose presence
    /// turns discovery on, the session layout, whether this is the primary
    /// instance (unless `is_primary` is `false`), and, without discovery, the
    /// projects configured one by one added to the list.
    #[verifier::opaque]
    pub open spec fn loaded(self, cfg: Config) -> StateView {
        let scan_dir = lookup(cfg, "scan_dir"@);
        let use_discovery = scan_dir is Some;
        StateView {
            verbosity: match lookup(cfg, "verbosity"@) {
                Some(v) => if v == "minimal"@ {
                    Verbosity::Minimal
                } else {
                    Verbosity::Full
                },
                None => self.verbosity,
            },
            scan_dir,
            session_layout: lookup(cfg, "session_layout"@),
            is_primary: match lookup(cfg, "is_primary"@) {
                Some(v) => v != "false"@,
                None => true,
            },
            use_discovery,
            projects: if use_discovery {
                self.projects
            } else {
                self.projects + configured_projects(cfg)
            },
            ..self
        }
    }

    /// The hint in the footer.
    pub open spec fn footer_hint(self) -> Seq<char> {
        if !self.is_focused {
            " ⌘O to toggle"@
        } else if self.browse_mode {
            " ↵:open esc:back"@
        } else if self.use_discovery {
            " ↵:go /:browse del:kill"@
        } else {
            " ↵:switch del:kill"@
        }
    }

    /// The hint in the footer when no project is shown.
    pub open spec fn empty_hint(self) -> Seq<char> {
        if self.is_focused && self.use_discovery {
            " /:browse"@
        } else if !self.is_focused {
            " ⌘O to toggle"@
        } else {
            seq![]
        }
    }

    /// The search bar's text.
    pub open spec fn search_line(self) -> Seq<char> {
        if self.search_query.len() == 0 {
            " / search..."@
        } else {
            " / "@ + self.search_query
        }
    }

    /// How a line of the project list is drawn at row `y`: a heading gray
    /// after a rule, a project as its styled row, a detail line gray.
    pub open spec fn line_draw(self, line: RenderLineView, y: usize, cols: usize) -> DrawView {
        match line {
            RenderLineView::Header(title) => gray_text(fit(" ─ "@ + title, cols), y, cols),
            RenderLineView::Detail(_) => gray_text(fit(AI_DETAIL@, cols), y, cols),
            RenderLineView::ProjectRow(p) => DrawView::Text {
                text: project_row(
                    self.projects[p as int],
                    self.attention.contains(self.projects[p as int].name),
                    self.ai_of(self.projects[p as int].name),
                    self.verbosity,
                    self.selected_project() == Some(p),
                    cols,
                ),
                x: 0,
                y,
                width: cols,
            },
        }
    }

    /// What a render of `rows` by `cols` draws, and the state after it: a
    /// message while waiting for permissions, while loading, or without
    /// projects; else the search bar when browsing, the visible lines of the
    /// project list (scrolled to show the selection), and the footer hint.
    pub open spec fn drawn(self, rows: usize, cols: usize) -> (StateView, Seq<DrawView>) {
        if !self.permissions_granted {
            (self, seq![DrawView::Message("Waiting for permissions..."@)])
        } else if !self.initial_load_complete {
            (self, seq![DrawView::Message(if self.use_discovery { "Scanning..."@ } else { "Loading..."@ })])
        } else if self.projects.len() == 0 {
            (
                self,
                seq![
                    DrawView::Message(
                        if self.use_discovery {
                            "No projects found."@
                        } else {
                            "No projects configured."@
                        },
                    ),
                ],
            )
        } else {
            let y_offset: usize = if self.browse_mode {
                1
            } else {
                0
            };
            let search = if self.browse_mode {
                let display = fit(self.search_line(), cols);
                seq![
                    DrawView::Text {
                        text: StyledView {
                            content: display,
                            selected: false,
                            colors: seq![Coloring::Range { level: COLOR_BLUE, start: 0, end: display.len() as usize }],
                        },
                        x: 0,
                        y: 0,
                        width: cols,
                    },
                ]
            } else {
                seq![]
            };
            let lines = self.render_lines();
            let footer_y: usize = if rows > 0 {
                (rows - 1) as usize
            } else {
                0
            };
            if lines.len() == 0 {
                let msg = if self.browse_mode {
                    " No matches"@
                } else {
                    " No active sessions"@
                };
                let hint = self.empty_hint();
                let footer = if footer_y > y_offset && hint.len() > 0 {
                    seq![gray_text(hint, footer_y, cols)]
                } else {
                    seq![]
                };
                (self, search + seq![gray_text(msg, y_offset, cols)] + footer)
            } else {
                let content_area: usize = if footer_y > y_offset {
                    (footer_y - y_offset) as usize
                } else {
                    0
                };
                let s1 = self.scrolled(lines, content_area);
                let start = s1.scroll_offset;
                let end = if start + content_area <= lines.len() {
                    start + content_area
                } else {
                    lines.len() as int
                };
                let count = if end > start {
                    end - start
                } else {
                    0
                };
                let body = Seq::new(
                    count as nat,
                    |i: int| s1.line_draw(lines[start + i], (i + y_offset) as usize, cols),
                );
                let footer = if footer_y > 0 {
                    seq![gray_text(fit(self.footer_hint(), cols), footer_y, cols)]
                } else {
                    seq![]
                };
                (s1, search + body + footer)
            }
        }
    }

    /// The lines of the projects `shown`, in order: each project's row,
    /// followed by a detail line when the AI agent of its session is known.
    pub open spec fn project_lines(self, shown: Seq<usize>) -> Seq<RenderLineView>
        decreases shown.len(),
    {
        if shown.len() == 0 {
            seq![]
        } else {
            let p = shown.last();
            let with_row = self.project_lines(shown.drop_last()).push(RenderLineView::ProjectRow(p));
            if self.ai_of(self.projects[p as int].name) is Some {
                with_row.push(RenderLineView::Detail(p))
            } else {
                with_row
            }
        }
    }

    /// The lines of the project list: the "All projects" heading when
    /// browsing finds something, then for each shown project its row and,
    /// when the AI agent of its session is known, a detail line.
    pub open spec fn render_lines(self) -> Seq<RenderLineView> {
        let rows = self.project_lines(self.filtered());
        if self.use_discovery && self.browse_mode && self.filtered().len() > 0 {
            seq![RenderLineView::Header(all_projects_heading())] + rows
        } else {
            rows
        }
    }
}

/// The text of the detail line under a project whose session's AI agent
/// is known.
pub const AI_DETAIL: &'static str = "   ai agent";

/// Each project row or detail line of `project_lines(shown)` is that of a
/// project of `shown`, and a non-empty `shown` gives lines.
pub proof fn lemma_project_lines(v: StateView, shown: Seq<usize>)
    ensures
        forall|k: int|
            0 <= k < v.project_lines(shown).len() ==> match #[trigger] v.project_lines(shown)[k] {
                RenderLineView::ProjectRow(p) => shown.contains(p),
                RenderLineView::Detail(p) => shown.contains(p),
                RenderLineView::Header(_) => false,
            },
        shown.len() > 0 ==> v.project_lines(shown).len() > 0,
        v.project_lines(shown).len() >= shown.len(),
    decreases shown.len(),
{
    if shown.len() > 0 {
        let before = shown.drop_last();
        lemma_project_lines(v, before);
        let lines = v.project_lines(shown);
        assert forall|k: int| 0 <= k < lines.len() implies match #[trigger] lines[k] {
            RenderLineView::ProjectRow(p) => shown.contains(p),
            RenderLineView::Detail(p) => shown.contains(p),
            RenderLineView::Header(_) => false,
        } by {
            if k < v.project_lines(before).len() {
                assert(lines[k] == v.project_lines(before)[k]);
                match lines[k] {
                    RenderLineView::ProjectRow(p) => {
                        let j = choose|j: int| 0 <= j < before.len() && before[j] == p;
                        assert(shown[j] == p);
                    },
                    RenderLineView::Detail(p) => {
                        let j = choose|j: int| 0 <= j < before.len() && before[j] == p;
                        assert(shown[j] == p);
                    },
                    _ => {},
                }
            } else {
                assert(shown[shown.len() - 1] == shown.last());
            }
        }
    }
}

/// The position of the row of project `sel` among `lines`.
pub open spec fn row_of(lines: Seq<RenderLineView>, sel: usize) -> Option<nat>
    decreases lines.len(),
{
    if lines.len() == 0 {
        None
    } else if lines[0] == RenderLineView::ProjectRow(sel) {
        Some(0)
    } else {
        match row_of(lines.drop_first(), sel) {
            Some(p) => Some(p + 1),
            None => None,
        }
    }
}

/// The scroll offset that keeps line `y` within `rows` visible rows:
/// scrolled up to `y` if it is above, down to end at `y` if it is below.
pub open spec fn scroll_to_show(offset: usize, y: nat, rows: usize) -> usize {
    let up = if y < offset {
        y as usize
    } else {
        offset
    };
    if y >= up + rows {
        (y - rows + 1) as usize
    } else {
        up
    }
}

/// The shown project indices among the first `n`: increasing, in range, and
/// exactly the shown ones.
pub proof fn lemma_filtered_upto(v: StateView, n: nat)
    requires
        n <= v.projects.len() <= usize::MAX,
    ensures
        v.filtered_upto(n).len() <= n,
        forall|a: int| 0 <= a < v.filtered_upto(n).len() ==> #[trigger] v.filtered_upto(n)[a] < n,
        forall|a: int, b: int|
            0 <= a < b < v.filtered_upto(n).len() ==> v.filtered_upto(n)[a] < v.filtered_upto(n)[b],
        forall|a: int|
            0 <= a < v.filtered_upto(n).len() ==> v.shown(v.projects[#[trigger] v.filtered_upto(n)[a] as int]),
        forall|i: int| 0 <= i < n && v.shown(v.projects[i]) ==> #[trigger] v.filtered_upto(n).contains(i as usize),
    decreases n,
{
    if n > 0 {
        lemma_filtered_upto(v, (n - 1) as nat);
        let before = v.filtered_upto((n - 1) as nat);
        assert forall|i: int| 0 <= i < n && v.shown(v.projects[i]) implies #[trigger] v.filtered_upto(n).contains(i as usize) by {
            if i < n - 1 {
                assert(before.contains(i as usize));
                let k = choose|k: int| 0 <= k < before.len() && before[k] == i as usize;
                assert(v.filtered_upto(n)[k] == i as usize);
            } else {
                assert(v.filtered_upto(n)[before.len() as int] == i as usize);
            }
        }
    }
}

/// The shown project indices: increasing, in range, exactly the shown ones.
pub proof fn lemma_filtered(v: StateView)
    requires
        v.projects.len() <= usize::MAX,
    ensures
        v.filtered().len() <= v.projects.len(),
        forall|a: int| 0 <= a < v.filtered().len() ==> #[trigger] v.filtered()[a] < v.projects.len(),
        forall|a: int, b: int| 0 <= a < b < v.filtered().len() ==> v.filtered()[a] < v.filtered()[b],
        forall|a: int| 0 <= a < v.filtered().len() ==> v.shown(v.projects[#[trigger] v.filtered()[a] as int]),
        forall|i: int|
            0 <= i < v.projects.len() && v.shown(v.projects[i]) ==> #[trigger] v.filtered().contains(i as usize),
{
    lemma_filtered_upto(v, v.projects.len());
}



/// The steps of `rebuild_projects` make up `rebuilt`.
proof fn lemma_rebuilt_steps(v0: StateView, sorted: StateView, fin: StateView)
    requires
        v0.use_discovery,
        sorted == (StateView { projects: sort_by_name(dir_projects(v0.cache, v0.discovered_dirs)), ..v0 }),
        fin == sorted.rebuild_tail(v0.selected_name()),
    ensures
        fin == v0.rebuilt(),
{
    reveal(StateView::rebuilt);
}

/// `position_named` finds the first match.
pub proof fn lemma_position_named_first(ps: Seq<ProjectView>, shown: Seq<usize>, name: Seq<char>, i: int)
    requires
        0 <= i < shown.len(),
        ps[shown[i] as int].name == name,
        forall|a: int| 0 <= a < i ==> ps[#[trigger] shown[a] as int].name != name,
    ensures
        position_named(ps, shown, name) == Some(i as nat),
    decreases i,
{
    if i > 0 {
        let t = shown.drop_first();
        assert forall|a: int| 0 <= a < i - 1 implies ps[#[trigger] t[a] as int].name != name by {
            assert(t[a] == shown[a + 1]);
        }
        lemma_position_named_first(ps, t, name, i - 1);
    }
}

/// `position_named` finds nothing when no shown project has the name.
pub proof fn lemma_position_named_none(ps: Seq<ProjectView>, shown: Seq<usize>, name: Seq<char>)
    requires
        forall|a: int| 0 <= a < shown.len() ==> ps[#[trigger] shown[a] as int].name != name,
    ensures
        position_named(ps, shown, name) is None,
    decreases shown.len(),
{
    if shown.len() > 0 {
        let t = shown.drop_first();
        assert forall|a: int| 0 <= a < t.len() implies ps[#[trigger] t[a] as int].name != name by {
            assert(t[a] == shown[a + 1]);
        }
        lemma_position_named_none(ps, t, name);
    }
}

/// `live_projects` has at most one project per entry.
pub proof fn lemma_live_projects_len(cache: Entries)
    ensures
        live_projects(cache).len() <= cache.len(),
    decreases cache.len(),
{
    if cache.len() > 0 {
        lemma_live_projects_len(cache.drop_last());
    }
}


/// The position of the row of project `sel` among `lines` (see `row_of`).
fn find_row(render_lines: &Vec<RenderLine>, sel: usize) -> (r: Option<usize>)
    ensures
        match r {
            Some(y) => row_of(render_lines.deep_view(), sel) == Some(y as nat) && y < render_lines@.len(),
            None => row_of(render_lines.deep_view(), sel) is None,
        },
{
    let ghost lines = render_lines.deep_view();
    let n = render_lines.len();
    let mut y: usize = 0;
    proof {
        assert(lines.skip(0) =~= lines);
    }
    while y < n
        invariant
            n == lines.len(),
            lines == render_lines.deep_view(),
            y <= n,
            row_of(lines, sel) == match row_of(lines.skip(y as int), sel) {
                Some(p) => Some((p + y) as nat),
                None => None,
            },
        decreases n - y,
    {
        let found = match &render_lines[y] {
            RenderLine::ProjectRow(idx) => *idx == sel,
            RenderLine::Detail(_) => false,
            RenderLine::Header(_) => false,
        };
        proof {
            assert(lines.skip(y as int)[0] == lines[y as int]);
            assert(lines.skip(y as int).drop_first() =~= lines.skip(y + 1));
        }
        if found {
            return Some(y);
        }
        y = y + 1;
    }
    proof {
        assert(lines.skip(y as int).len() == 0);
    }
    None
}

/// The shown projects depend only on the projects, the mode and the search.
pub proof fn lemma_filtered_same(a: StateView, b: StateView, n: nat)
    requires
        a.projects == b.projects,
        a.use_discovery == b.use_discovery,
        a.browse_mode == b.browse_mode,
        a.search_query == b.search_query,
        a.ai == b.ai,
    ensures
        a.filtered_upto(n) == b.filtered_upto(n),
        a.filtered() == b.filtered(),
        a.render_lines() == b.render_lines(),
        a.selected_index == b.selected_index ==> a.selected_project() == b.selected_project(),
    decreases n,
{
    if n > 0 {
        lemma_filtered_same(a, b, (n - 1) as nat);
    }
    lemma_filtered_upto_same(a, b, a.projects.len());
    lemma_project_lines_same(a, b, a.filtered());
}

/// The lines of the shown projects depend only on the projects and the AI
/// states.
proof fn lemma_project_lines_same(a: StateView, b: StateView, shown: Seq<usize>)
    requires
        a.projects == b.projects,
        a.ai == b.ai,
    ensures
        a.project_lines(shown) == b.project_lines(shown),
    decreases shown.len(),
{
    if shown.len() > 0 {
        lemma_project_lines_same(a, b, shown.drop_last());
    }
}

proof fn lemma_filtered_upto_same(a: StateView, b: StateView, n: nat)
    requires
        a.projects == b.projects,
        a.use_discovery == b.use_discovery,
        a.browse_mode == b.browse_mode,
        a.search_query == b.search_query,
    ensures
        a.filtered_upto(n) == b.filtered_upto(n),
    decreases n,
{
    if n > 0 {
        lemma_filtered_upto_same(a, b, (n - 1) as nat);
    }
}

/// The fields that loading sets make up `loaded`.
proof fn lemma_loaded(v0: StateView, fin: StateView, cfg: Config)
    requires
        fin.verbosity == match lookup(cfg, "verbosity"@) {
            Some(v) => if v == "minimal"@ {
                Verbosity::Minimal
            } else {
                Verbosity::Full
            },
            None => v0.verbosity,
        },
        fin.scan_dir == lookup(cfg, "scan_dir"@),
        fin.session_layout == lookup(cfg, "session_layout"@),
        fin.is_primary == match lookup(cfg, "is_primary"@) {
            Some(v) => v != "false"@,
            None => true,
        },
        fin.use_discovery == (fin.scan_dir is Some),
        fin.projects == if fin.use_discovery {
            v0.projects
        } else {
            v0.projects + configured_projects(cfg)
        },
        fin == (StateView {
            verbosity: fin.verbosity,
            scan_dir: fin.scan_dir,
            session_layout: fin.session_layout,
            is_primary: fin.is_primary,
            use_discovery: fin.use_discovery,
            projects: fin.projects,
            ..v0
        }),
    ensures
        fin == v0.loaded(cfg),
{
    reveal(StateView::loaded);
}

/// The sidebar.
pub struct State {
    permissions_granted: bool,
    projects: Vec<Project>,
    selected_index: usize,
    scroll_offset: usize,
    initial_load_complete: bool,
    is_focused: bool,
    is_hidden: bool,
    verbosity: Verbosity,
    search_query: String,
    browse_mode: bool,
    scan_dir: Option<String>,
    use_discovery: bool,
    discovered_dirs: Vec<(String, String)>,
    scan_complete: bool,
    has_session_data: bool,
    session_layout: Option<String>,
    is_primary: bool,
    attention_sessions: NameSet,
    cached_statuses: StatusCache,
    ai_active: NameSet,
    ai_idle: NameSet,
    ai_waiting: NameSet,
}

impl View for State {
    type V = StateView;

    closed spec fn view(&self) -> StateView {
        StateView {
            permissions_granted: self.permissions_granted,
            projects: self.projects.deep_view(),
            selected_index: self.selected_index,
            scroll_offset: self.scroll_offset,
            initial_load_complete: self.initial_load_complete,
            is_focused: self.is_focused,
            is_hidden: self.is_hidden,
            verbosity: self.verbosity,
            search_query: self.search_query@,
            browse_mode: self.browse_mode,
            scan_dir: self.scan_dir.deep_view(),
            use_discovery: self.use_discovery,
            discovered_dirs: self.discovered_dirs.deep_view(),
            scan_complete: self.scan_complete,
            has_session_data: self.has_session_data,
            session_layout: self.session_layout.deep_view(),
            is_primary: self.is_primary,
            attention: self.attention_sessions@,
            cache: self.cached_statuses@,
            ai: ai_map(self.ai_active@, self.ai_idle@, self.ai_waiting@),
        }
    }
}

impl Default for State {
    fn default() -> (s: State)
        ensures
            s@ == (StateView {
                permissions_granted: false,
                projects: seq![],
                selected_index: 0,
                scroll_offset: 0,
                initial_load_complete: false,
                is_focused: false,
                is_hidden: false,
                verbosity: Verbosity::Full,
                search_query: seq![],
                browse_mode: false,
                scan_dir: None,
                use_discovery: false,
                discovered_dirs: seq![],
                scan_complete: false,
                has_session_data: false,
                session_layout: None,
                is_primary: true,
                attention: Set::empty(),
                cache: seq![],
                ai: Map::empty(),
            }),
            s.wf(),
    {
        let s = State {
            permissions_granted: false,
            projects: Vec::new(),
            selected_index: 0,
            scroll_offset: 0,
            initial_load_complete: false,
            is_focused: false,
            is_hidden: false,
            verbosity: Verbosity::default(),
            search_query: String::new(),
            browse_mode: false,
            scan_dir: None,
            use_discovery: false,
            discovered_dirs: Vec::new(),
            scan_complete: false,
            has_session_data: false,
            session_layout: None,
            is_primary: true,
            attention_sessions: NameSet::new(),
            cached_statuses: StatusCache::new(),
            ai_active: NameSet::new(),
            ai_idle: NameSet::new(),
            ai_waiting: NameSet::new(),
        };
        proof {
            assert(s@.ai =~= Map::<Seq<char>, AiState>::empty());
            assert(s@.projects =~= Seq::<ProjectView>::empty());
            assert(s@.discovered_dirs =~= Seq::<(Seq<char>, Seq<char>)>::empty());
        }
        s
    }
}

impl State {
    /// The state is well formed (see `StateView::wf`).
    pub closed spec fn wf(&self) -> bool {
        &&& self@.wf()
        &&& self.cached_statuses.wf()
    }

    /// Whether the state is well formed: the selection points into the
    /// project list (or is 0) and the statuses are kept in key order. Every
    /// state made by `default` and changed by the methods here is.
    pub fn is_well_formed(&self) -> (r: bool)
        ensures
            r == self.wf(),
    {
        let n = self.projects.len();
        (self.selected_index == 0 || self.selected_index < n) && self.cached_statuses.keys_in_order()
    }

    /// Well formed but for the selection, which may point past the projects.
    pub closed spec fn wf_but_selection(&self) -> bool {
        &&& self@.projects.len() <= usize::MAX
        &&& keys_sorted(self@.cache)
        &&& self.cached_statuses.wf()
    }

    /// What a well formed state gives its callers: its view is well formed
    /// (the selection points into the project list or is 0, the statuses
    /// are stored in key order), and it is well formed but for the
    /// selection, as `clamp_selection` asks.
    pub proof fn lemma_wf(&self)
        requires
            self.wf(),
        ensures
            self@.wf(),
            self.wf_but_selection(),
    {
    }

    /// What a state well formed but for the selection gives its callers: the
    /// project list's length fits a `usize` and the statuses are stored in
    /// key order.
    pub proof fn lemma_wf_but_selection(&self)
        requires
            self.wf_but_selection(),
        ensures
            self@.projects.len() <= usize::MAX,
            keys_sorted(self@.cache),
    {
    }

    /// Indices into the project list of the projects visible in the current
    /// mode, in increasing order.
    pub fn filtered_indices(&self) -> (r: Vec<usize>)
        ensures
            r@ == self@.filtered(),
    {
        let ghost v = self@;
        let n = self.projects.len();
        let mut out: Vec<usize> = Vec::new();
        let mut i: usize = 0;
        while i < n
            invariant
                v == self@,
                n == v.projects.len(),
                i <= n,
                out@ == v.filtered_upto(i as nat),
            decreases n - i,
        {
            let p = &self.projects[i];
            proof {
                assert(v.projects[i as int] == p@);
            }
            let shown = if self.use_discovery {
                if self.browse_mode {
                    fuzzy_matches(p.name.as_str(), self.search_query.as_str())
                } else {
                    !p.status.is_not_started()
                }
            } else {
                true
            };
            if shown {
                out.push(i);
            }
            i = i + 1;
        }
        out
    }

    /// The project index the selection points at (see `selected_project`).
    pub fn selected_project_index(&self) -> (r: Option<usize>)
        ensures
            r == self@.selected_project(),
    {
        let filtered = self.filtered_indices();
        if self.selected_index < filtered.len() {
            Some(filtered[self.selected_index])
        } else {
            None
        }
    }


    /// The position in `shown` of the first project named `name`.
    fn position_named_in(projects: &Vec<Project>, shown: &Vec<usize>, name: &String) -> (r: Option<usize>)
        requires
            forall|a: int| 0 <= a < shown@.len() ==> #[trigger] shown@[a] < projects@.len(),
        ensures
            match r {
                Some(p) => position_named(projects.deep_view(), shown@, name@) == Some(p as nat),
                None => position_named(projects.deep_view(), shown@, name@) is None,
            },
    {
        let n = shown.len();
        let mut i: usize = 0;
        let ghost ps = projects.deep_view();
        while i < n
            invariant
                n == shown@.len(),
                ps == projects.deep_view(),
                i <= n,
                forall|a: int| 0 <= a < shown@.len() ==> #[trigger] shown@[a] < projects@.len(),
                forall|a: int| 0 <= a < i ==> ps[#[trigger] shown@[a] as int].name != name@,
            decreases n - i,
        {
            proof {
                assert(ps[shown@[i as int] as int] == projects@[shown@[i as int] as int]@);
            }
            if projects[shown[i]].name == *name {
                proof {
                    lemma_position_named_first(ps, shown@, name@, i as int);
                }
                return Some(i);
            }
            i = i + 1;
        }
        proof {
            lemma_position_named_none(ps, shown@, name@);
        }
        None
    }

    /// A project for each discovered directory, with its stored status,
    /// sorted by lowercased name.
    #[verifier::spinoff_prover]
    fn sorted_dir_projects(&self) -> (out: Vec<Project>)
        requires
            self.cached_statuses.wf(),
        ensures
            out.deep_view() == sort_by_name(dir_projects(self@.cache, self@.discovered_dirs)),
    {
        let ghost v0 = self@;
        let ghost dirs = dir_projects(v0.cache, v0.discovered_dirs);
        let n = self.discovered_dirs.len();
        let mut out: Vec<Project> = Vec::new();
        let mut keys: Vec<String> = Vec::new();
        let mut i: usize = 0;
        proof {
            assert(dirs.take(0) =~= Seq::<ProjectView>::empty());
            assert(out.deep_view() =~= sort_by_name(dirs.take(0)));
            assert(keys.deep_view() =~= keys_of(out.deep_view()));
        }
        while i < n
            invariant
                v0 == self@,
                n == v0.discovered_dirs.len(),
                dirs == dir_projects(v0.cache, v0.discovered_dirs),
                i <= n,
                out.deep_view() == sort_by_name(dirs.take(i as int)),
                keys.deep_view() == keys_of(out.deep_view()),
            decreases n - i,
        {
            let name = &self.discovered_dirs[i].0;
            let path = &self.discovered_dirs[i].1;
            let status = match self.cached_statuses.get(name.as_str()) {
                Some(s) => s,
                None => SessionStatus::NotStarted,
            };
            let p = Project { name: name.clone(), path: path.clone(), status };
            proof {
                assert(v0.discovered_dirs[i as int] == (name@, path@));
                assert(p@ == dirs[i as int]);
                assert(dirs.take(i + 1).drop_last() =~= dirs.take(i as int));
                assert(dirs.take(i + 1).last() == dirs[i as int]);
            }
            insert_project(&mut out, &mut keys, p);
            i = i + 1;
        }
        proof {
            assert(dirs.take(n as int) =~= dirs);
        }
        out
    }

    /// Puts the selection on the first shown project named `name`, if any.
    fn reselect_by_name(&mut self, name: &String)
        requires
            old(self).wf_but_selection(),
        ensures
            final(self).wf_but_selection(),
            final(self)@ == match position_named(old(self)@.projects, old(self)@.filtered(), name@) {
                Some(fi) => StateView { selected_index: fi as usize, ..old(self)@ },
                None => old(self)@,
            },
    {
        proof {
            lemma_filtered(self@);
        }
        let filtered = self.filtered_indices();
        match Self::position_named_in(&self.projects, &filtered, name) {
            Some(fi) => {
                self.selected_index = fi;
            },
            None => {},
        }
    }

    /// Rebuilds the project list from the discovered directories, keeping the
    /// selection on the same project name where it can (see `rebuilt`).
    #[verifier::spinoff_prover]
    pub fn rebuild_projects(&mut self)
        requires
            old(self).wf(),
        ensures
            final(self).wf(),
            final(self)@ == old(self)@.rebuilt(),
    {
        if !self.use_discovery {
            proof {
                reveal(StateView::rebuilt);
            }
            return;
        }
        let ghost v0 = self@;
        let selected_name: Option<String> = match self.selected_project_index() {
            Some(idx) => {
                assert(idx < self.projects@.len()) by {
                    lemma_filtered(v0);
                }
                Some(self.projects[idx].name.clone())
            },
            None => None,
        };
        assert(selected_name.deep_view() == v0.selected_name());
        let out = self.sorted_dir_projects();
        self.projects = out;
        // The length, read as a `usize`, bounds the list as `wf` asks.
        let _count = self.projects.len();
        let ghost sorted = self@;
        assert(sorted == StateView {
            projects: sort_by_name(dir_projects(v0.cache, v0.discovered_dirs)),
            ..v0
        });
        self.finish_rebuild(selected_name);
        proof {
            lemma_rebuilt_steps(v0, sorted, self@);
        }
    }

    /// Reselects the project named `selected_name`, clamps the selection, and
    /// marks loading complete once the scan and session data are in.
    fn finish_rebuild(&mut self, selected_name: Option<String>)
        requires
            old(self).wf_but_selection(),
        ensures
            final(self).wf(),
            final(self)@ == old(self)@.rebuild_tail(selected_name.deep_view()),
    {
        match selected_name {
            Some(name) => {
                self.reselect_by_name(&name);
            },
            None => {},
        }
        self.clamp_selection();
        if self.scan_complete && self.has_session_data {
            self.initial_load_complete = true;
        }
    }

    /// Gives each project the status stored for its name, or `NotStarted`.
    #[verifier::spinoff_prover]
    pub fn apply_cached_statuses(&mut self)
        requires
            old(self).wf(),
        ensures
            final(self).wf(),
            final(self)@ == old(self)@.with_cached_statuses(),
    {
        let ghost v0 = self@;
        let ghost target = v0.with_cached_statuses().projects;
        let n = self.projects.len();
        let mut out: Vec<Project> = Vec::new();
        let mut i: usize = 0;
        while i < n
            invariant
                v0 == self@,
                self.cached_statuses.wf(),
                n == v0.projects.len(),
                target == v0.with_cached_statuses().projects,
                i <= n,
                out.deep_view() == target.take(i as int),
            decreases n - i,
        {
            let p = &self.projects[i];
            let status = match self.cached_statuses.get(p.name.as_str()) {
                Some(s) => s,
                None => SessionStatus::NotStarted,
            };
            let q = Project { name: p.name.clone(), path: p.path.clone(), status };
            let ghost qv = q@;
            let ghost before = out.deep_view();
            proof {
                assert(v0.projects[i as int] == p@);
                assert(qv == target[i as int]);
            }
            out.push(q);
            proof {
                assert(out.deep_view() =~= before.push(qv));
                assert(out.deep_view() =~= target.take(i + 1));
            }
            i = i + 1;
        }
        proof {
            assert(target.take(n as int) =~= target);
        }
        self.projects = out;
        proof {
            assert(self@ =~= v0.with_cached_statuses());
        }
    }

    /// Replaces the stored statuses with those of a session update (see
    /// `statuses_after_update`).
    pub fn update_cached_statuses(&mut self, sessions: &Vec<SessionData>, resurrectable: &Vec<String>)
        requires
            old(self).wf(),
        ensures
            final(self).wf(),
            final(self)@ == (StateView {
                cache: statuses_after_update(sessions.deep_view(), resurrectable.deep_view()),
                ..old(self)@
            }),
    {
        fill_statuses(&mut self.cached_statuses, sessions, resurrectable);
    }

    /// Shows the live sessions while the scan runs: a project for each
    /// stored status that is not `NotStarted`, sorted by lowercased name,
    /// then the selection clamped.
    #[verifier::spinoff_prover]
    fn show_live_sessions(&mut self)
        requires
            old(self).wf(),
        ensures
            final(self).wf(),
            final(self)@ == (StateView {
                projects: sort_by_name(live_projects(old(self)@.cache)),
                ..old(self)@
            }).clamped(),
    {
        let ghost v0 = self@;
        let ghost live = live_projects(v0.cache);
        let n = self.cached_statuses.len();
        let mut out: Vec<Project> = Vec::new();
        let mut keys: Vec<String> = Vec::new();
        let mut i: usize = 0;
        proof {
            assert(v0.cache.take(0) =~= Seq::<(Seq<char>, StatusView)>::empty());
            assert(out.deep_view() =~= sort_by_name(live_projects(v0.cache.take(0))));
            assert(keys.deep_view() =~= keys_of(out.deep_view()));
        }
        while i < n
            invariant
                v0 == self@,
                self.cached_statuses.wf(),
                n == v0.cache.len(),
                i <= n,
                out.deep_view() == sort_by_name(live_projects(v0.cache.take(i as int))),
                keys.deep_view() == keys_of(out.deep_view()),
            decreases n - i,
        {
            let status = self.cached_statuses.status_at(i);
            let ghost prefix = v0.cache.take(i + 1);
            proof {
                assert(prefix.drop_last() =~= v0.cache.take(i as int));
                assert(prefix.last() == v0.cache[i as int]);
            }
            if !status.is_not_started() {
                let p = Project {
                    name: self.cached_statuses.key_at(i).clone(),
                    path: String::new(),
                    status: status.cloned(),
                };
                proof {
                    let before = live_projects(v0.cache.take(i as int));
                    assert(before.push(p@).drop_last() =~= before);
                }
                insert_project(&mut out, &mut keys, p);
            }
            i = i + 1;
        }
        proof {
            assert(v0.cache.take(n as int) =~= v0.cache);
            lemma_sort_by_name_len(live);
            lemma_live_projects_len(v0.cache);
        }
        self.projects = out;
        self.clamp_selection();
    }

    /// The lines of the project list (see `render_lines`).
    pub fn build_render_lines(&self) -> (r: Vec<RenderLine>)
        ensures
            r.deep_view() == self@.render_lines(),
    {
        let mut lines: Vec<RenderLine> = Vec::new();
        let filtered = self.filtered_indices();
        let total = self.projects.len();
        proof {
            assert(self@.projects.len() == total);
            lemma_filtered(self@);
        }
        let ghost shown = self@.filtered();
        let ghost head: Seq<RenderLineView> = if self.use_discovery && self.browse_mode && filtered.len() > 0 {
            seq![RenderLineView::Header(all_projects_heading())]
        } else {
            seq![]
        };
        if self.use_discovery && self.browse_mode && filtered.len() > 0 {
            lines.push(RenderLine::Header(String::from_str("All projects")));
        }
        assert(lines.deep_view() =~= head);
        proof {
            assert(shown.take(0) =~= Seq::<usize>::empty());
        }
        let n = filtered.len();
        let mut i: usize = 0;
        while i < n
            invariant
                n == filtered@.len(),
                filtered@ == shown,
                shown == self@.filtered(),
                forall|a: int| 0 <= a < shown.len() ==> #[trigger] shown[a] < self@.projects.len(),
                i <= n,
                lines.deep_view() == head + self@.project_lines(shown.take(i as int)),
            decreases n - i,
        {
            let p = filtered[i];
            proof {
                let t = shown.take(i + 1);
                assert(t.drop_last() =~= shown.take(i as int));
                assert(t.last() == p);
                assert(shown[i as int] == p);
            }
            let ghost before = lines.deep_view();
            lines.push(RenderLine::ProjectRow(p));
            assert(lines.deep_view() =~= before.push(RenderLineView::ProjectRow(p)));
            if self.ai_state(self.projects[p].name.as_str()).is_some() {
                let ghost mid = lines.deep_view();
                lines.push(RenderLine::Detail(p));
                assert(lines.deep_view() =~= mid.push(RenderLineView::Detail(p)));
            }
            proof {
                assert(self@.projects[p as int].name == self.projects@[p as int].name@);
            }
            i = i + 1;
        }
        assert(shown.take(n as int) =~= shown);
        assert(lines.deep_view() =~= self@.render_lines());
        lines
    }

    /// Scrolls so that the selected project's row is among the first
    /// `visible_rows` rows from the scroll offset (see `scroll_to_show`).
    #[verifier::spinoff_prover]
    pub fn ensure_selection_visible(&mut self, render_lines: &Vec<RenderLine>, visible_rows: usize)
        requires
            old(self).wf(),
        ensures
            final(self).wf(),
            final(self)@ == old(self)@.scrolled(render_lines.deep_view(), visible_rows),
    {
        if visible_rows == 0 {
            return;
        }
        let selected = self.selected_project_index();
        let sel = match selected {
            None => {
                return;
            },
            Some(sel) => sel,
        };
        match find_row(render_lines, sel) {
            Some(y) => {
                let up = if y < self.scroll_offset {
                    y
                } else {
                    self.scroll_offset
                };
                let down = if y >= up && y - up >= visible_rows {
                    y - visible_rows + 1
                } else {
                    up
                };
                self.scroll_offset = down;
            },
            None => {},
        }
    }

    /// Activates the selected project (see `activated` and `activate_actions`).
    #[verifier::spinoff_prover]
    pub fn activate_selected_project(&mut self) -> (actions: Vec<Action>)
        requires
            old(self).wf(),
        ensures
            final(self).wf(),
            final(self)@ == old(self)@.activated(),
            actions.deep_view() == old(self)@.activate_actions(),
    {
        let mut actions: Vec<Action> = Vec::new();
        let ghost v0 = self@;
        if let Some(idx) = self.selected_project_index() {
            proof {
                lemma_filtered(v0);
            }
            let project = &self.projects[idx];
            let name = project.name.clone();
            self.attention_sessions.remove(name.as_str());
            let switch = match &project.status {
                SessionStatus::NotStarted => match &self.session_layout {
                    Some(layout) => Action::SwitchSessionWithLayout {
                        name: project.name.clone(),
                        layout: layout.clone(),
                        cwd: project.path.clone(),
                    },
                    None => Action::SwitchSessionWithCwd {
                        name: project.name.clone(),
                        cwd: project.path.clone(),
                    },
                },
                _ => Action::SwitchSession { name: project.name.clone() },
            };
            proof {
                assert(v0.projects[idx as int] == project@);
                assert(switch.deep_view() == v0.switch_action(v0.projects[idx as int]));
            }
            actions.push(switch);
            self.browse_mode = false;
            self.search_query = String::new();
            self.selected_index = 0;
            self.scroll_offset = 0;
            actions.push(Action::SetSelectable(false));
            self.is_focused = false;
            proof {
                assert(actions.deep_view() =~= v0.activate_actions());
                assert(self@ =~= v0.activated());
            }
        } else {
            assert(actions.deep_view() =~= v0.activate_actions());
        }
        actions
    }

    /// Kills the selected session if it runs and is not the current one
    /// (see `kill_actions`).
    pub fn kill_selected_session(&self) -> (actions: Vec<Action>)
        requires
            self.wf(),
        ensures
            actions.deep_view() == self@.kill_actions(),
    {
        let mut actions: Vec<Action> = Vec::new();
        if let Some(idx) = self.selected_project_index() {
            proof {
                lemma_filtered(self@);
            }
            let project = &self.projects[idx];
            proof {
                assert(self@.projects[idx as int] == project@);
            }
            match &project.status {
                SessionStatus::Running { is_current: false, .. } => {
                    actions.push(Action::KillSession { name: project.name.clone() });
                },
                _ => {},
            }
        }
        assert(actions.deep_view() =~= self@.kill_actions());
        actions
    }

    /// Toggles the sidebar's focus (see `toggled` and `toggle_actions`).
    pub fn toggle_visibility(&mut self) -> (actions: Vec<Action>)
        requires
            old(self).wf(),
        ensures
            final(self).wf(),
            final(self)@ == old(self)@.toggled(),
            actions.deep_view() == old(self)@.toggle_actions(),
    {
        let mut actions: Vec<Action> = Vec::new();
        if self.is_focused {
            self.search_query = String::new();
            self.browse_mode = false;
            actions.push(Action::SetSelectable(false));
            self.is_focused = false;
        } else {
            actions.push(Action::SetSelectable(true));
            actions.push(Action::FocusSelf);
            self.is_focused = true;
        }
        assert(actions.deep_view() =~= old(self)@.toggle_actions());
        assert(self@ =~= old(self)@.toggled());
        actions
    }

    /// Starts a scan of `scan_dir` (see `scan_actions`).
    pub fn trigger_scan(&self) -> (actions: Vec<Action>)
        ensures
            actions.deep_view() == self@.scan_actions(),
    {
        let mut actions: Vec<Action> = Vec::new();
        if let Some(dir) = &self.scan_dir {
            let mut context: Vec<(String, String)> = Vec::new();
            context.push((String::from_str(CMD_KEY), String::from_str(CMD_SCAN_DIR)));
            let args = scan_command(dir);
            actions.push(Action::RunCommand { args, context });
            proof {
                assert(context.deep_view() =~= seq![(CMD_KEY@, CMD_SCAN_DIR@)]) by {
                    assert(context.deep_view()[0] == (CMD_KEY@, CMD_SCAN_DIR@));
                }
            }
        }
        assert(actions.deep_view() =~= self@.scan_actions());
        actions
    }

    /// The layout of a new tab with the sidebar (see `tab_layout`): in the
    /// configured mode the new sidebar lists the same projects.
    pub fn create_tab_with_sidebar(&self) -> (action: Action)
        ensures
            action.deep_view() == (ActionView::NewTabWithLayout {
                layout: tab_layout(self@.use_discovery, self@.scan_dir, self@.session_layout, project_paths(self@.projects)),
            }),
    {
        Action::NewTabWithLayout {
            layout: new_tab_layout(self.use_discovery, &self.scan_dir, &self.session_layout, &self.projects),
        }
    }

    /// Handles a pipe message named `name` (see `piped`); returns whether
    /// to draw again and the requests to the host.
    #[verifier::spinoff_prover]
    pub fn pipe(&mut self, name: &str) -> (r: (bool, Vec<Action>))
        requires
            old(self).wf(),
        ensures
            final(self).wf(),
            final(self)@ == old(self)@.piped(name@).state,
            r.1.deep_view() == old(self)@.piped(name@).actions,
            r.0 == old(self)@.piped(name@).redraw,
    {
        let ghost v0 = self@;
        if str_eq(name, "toggle_sidebar") {
            let actions = self.toggle_visibility();
            return (true, actions);
        }
        if str_eq(name, "new_tab_with_sidebar") {
            let mut actions: Vec<Action> = Vec::new();
            actions.push(self.create_tab_with_sidebar());
            assert(actions.deep_view() =~= v0.piped(name@).actions);
            return (true, actions);
        }
        let actions: Vec<Action> = Vec::new();
        assert(actions.deep_view() =~= Seq::<ActionView>::empty());
        match strip_prefix(name, ATTENTION_PREFIX) {
            Some(session) => {
                if !session.as_str().is_empty() {
                    self.attention_sessions.insert(session);
                }
                return (true, actions);
            },
            None => {},
        }
        match strip_prefix(name, CLEAR_PREFIX) {
            Some(session) => {
                self.attention_sessions.remove(session.as_str());
                return (true, actions);
            },
            None => {},
        }
        match strip_prefix(name, AI_ACTIVE_PREFIX) {
            Some(session) => {
                self.record_ai(session, AiState::Active);
                return (true, actions);
            },
            None => {},
        }
        match strip_prefix(name, AI_IDLE_PREFIX) {
            Some(session) => {
                self.record_ai(session, AiState::Idle);
                return (true, actions);
            },
            None => {},
        }
        match strip_prefix(name, AI_WAITING_PREFIX) {
            Some(session) => {
                self.record_ai(session, AiState::Waiting);
                return (true, actions);
            },
            None => {},
        }
        if str_eq(name, "focus_sidebar") {
            let mut actions: Vec<Action> = Vec::new();
            actions.push(Action::SetSelectable(true));
            actions.push(Action::ShowSelf);
            self.is_focused = true;
            self.is_hidden = false;
            assert(actions.deep_view() =~= v0.piped(name@).actions);
            return (true, actions);
        }
        (false, actions)
    }

    /// Records that the AI agent of session `session` is doing `a`; nothing
    /// when the name is empty (see `with_ai`).
    fn record_ai(&mut self, session: String, a: AiState)
        requires
            old(self).wf(),
        ensures
            final(self).wf(),
            final(self)@ == old(self)@.with_ai(session@, a),
    {
        if session.as_str().is_empty() {
            return;
        }
        let ghost v0 = self@;
        let ghost name = session@;
        let ghost (a0, i0, w0) = (self.ai_active@, self.ai_idle@, self.ai_waiting@);
        match a {
            AiState::Active => {
                self.ai_idle.remove(session.as_str());
                self.ai_waiting.remove(session.as_str());
                self.ai_active.insert(session);
            },
            AiState::Idle => {
                self.ai_active.remove(session.as_str());
                self.ai_waiting.remove(session.as_str());
                self.ai_idle.insert(session);
            },
            AiState::Waiting => {
                self.ai_active.remove(session.as_str());
                self.ai_idle.remove(session.as_str());
                self.ai_waiting.insert(session);
            },
        }
        proof {
            assert(ai_map(self.ai_active@, self.ai_idle@, self.ai_waiting@) =~= ai_map(a0, i0, w0).insert(name, a));
            assert(self@ =~= v0.with_ai(name, a));
        }
    }

    /// Reads the shared AI state files (see `ai_files_read`): each file that
    /// names a state sets its session's state; sets the timer again.
    pub fn apply_ai_files(&mut self, files: &Vec<(String, String)>) -> (actions: Vec<Action>)
        requires
            old(self).wf(),
        ensures
            final(self).wf(),
            final(self)@ == old(self)@.ai_files_read(files.deep_view()).state,
            actions.deep_view() == old(self)@.ai_files_read(files.deep_view()).actions,
    {
        let ghost v0 = self@;
        let ghost fs = files.deep_view();
        let n = files.len();
        let mut i: usize = 0;
        proof {
            assert(fs.take(0) =~= Seq::<(Seq<char>, Seq<char>)>::empty());
            assert(self@ =~= StateView { ai: ai_after_files(v0.ai, fs.take(0)), ..v0 });
        }
        while i < n
            invariant
                n == fs.len(),
                fs == files.deep_view(),
                i <= n,
                self.wf(),
                self@ == (StateView { ai: ai_after_files(v0.ai, fs.take(i as int)), ..v0 }),
            decreases n - i,
        {
            let ghost before = self@;
            proof {
                let t = fs.take(i + 1);
                assert(t.drop_last() =~= fs.take(i as int));
                assert(t.last() == fs[i as int]);
                assert(fs[i as int] == (files[i as int].0@, files[i as int].1@));
            }
            match parse_ai_state(files[i].1.as_str()) {
                Some(a) => {
                    self.record_ai(files[i].0.clone(), a);
                },
                None => {},
            }
            i = i + 1;
        }
        proof {
            assert(fs.take(n as int) =~= fs);
        }
        let mut actions: Vec<Action> = Vec::new();
        actions.push(Action::SetTimeout(AI_POLL_SECONDS));
        assert(actions.deep_view() =~= v0.ai_files_read(fs).actions);
        actions
    }

    /// What the AI agent of session `name` is doing, if it is known.
    pub fn ai_state(&self, name: &str) -> (r: Option<AiState>)
        ensures
            r == self@.ai_of(name@),
    {
        if self.ai_active.contains(name) {
            Some(AiState::Active)
        } else if self.ai_idle.contains(name) {
            Some(AiState::Idle)
        } else if self.ai_waiting.contains(name) {
            Some(AiState::Waiting)
        } else {
            None
        }
    }

    /// The notice `event` gives besides its reaction (see `notice`).
    pub fn notice_for(&self, event: &PluginEvent) -> (r: Option<String>)
        requires
            self.wf(),
        ensures
            r.deep_view() == self@.notice(event.deep_view()),
    {
        match event {
            PluginEvent::Key(k) => {
                let is_delete = match k.code {
                    KeyCode::Delete => true,
                    _ => false,
                };
                if !is_delete || !k.has_no_modifiers() || self.browse_mode {
                    return None;
                }
                proof {
                    lemma_filtered(self@);
                }
                match self.selected_project_index() {
                    Some(i) => match &self.projects[i].status {
                        SessionStatus::Running { is_current: true, .. } => Some(
                            String::from_str("Cannot kill current session '").concat(
                                self.projects[i].name.as_str(),
                            ).concat("'"),
                        ),
                        _ => None,
                    },
                    None => None,
                }
            },
            _ => None,
        }
    }

    /// Reacts to granted permissions (see `granted`).
    fn on_permission_granted(&mut self) -> (actions: Vec<Action>)
        requires
            old(self).wf(),
        ensures
            final(self).wf(),
            final(self)@ == old(self)@.granted().state,
            actions.deep_view() == old(self)@.granted().actions,
    {
        let ghost v0 = self@;
        self.permissions_granted = true;
        let mut actions: Vec<Action> = Vec::new();
        actions.push(Action::SetSelectable(false));
        if self.is_primary {
            actions.push(Action::RegisterKeybinds);
        }
        if self.use_discovery {
            let mut scan = self.trigger_scan();
            actions.append(&mut scan);
        }
        actions.push(Action::SetTimeout(AI_POLL_SECONDS));
        assert(actions.deep_view() =~= v0.granted().actions);
        actions
    }

    /// Reacts to a command's result (see `command_result`); returns whether
    /// to draw again.
    #[verifier::spinoff_prover]
    fn on_command_result(&mut self, exit_code: Option<i32>, stdout: &Vec<u8>, context: &Vec<(String, String)>) -> (redraw: bool)
        requires
            old(self).wf(),
        ensures
            final(self).wf(),
            final(self)@ == old(self)@.command_result(exit_code, stdout@, context.deep_view()).state,
            redraw == old(self)@.command_result(exit_code, stdout@, context.deep_view()).redraw,
    {
        let is_scan = match crate::config::lookup_value(context, CMD_KEY) {
            Some(v) => str_eq(v.as_str(), CMD_SCAN_DIR),
            None => false,
        };
        if !is_scan {
            return false;
        }
        if exit_code == Some(0i32) {
            self.discovered_dirs = parse_scan_output(stdout);
        }
        self.scan_complete = true;
        self.rebuild_projects();
        true
    }

    /// Reacts to a session update (see `session_update`).
    #[verifier::spinoff_prover]
    fn on_session_update(&mut self, sessions: &Vec<SessionData>, resurrectable: &Vec<String>)
        requires
            old(self).wf(),
        ensures
            final(self).wf(),
            final(self)@ == old(self)@.session_update(sessions.deep_view(), resurrectable.deep_view()).state,
    {
        if self.use_discovery {
            self.update_cached_statuses(sessions, resurrectable);
            self.has_session_data = true;
            if self.scan_complete {
                self.apply_cached_statuses();
                self.initial_load_complete = true;
            } else {
                self.show_live_sessions();
                self.initial_load_complete = true;
            }
        } else {
            let ghost v0 = self@;
            let ghost target = v0.session_update(sessions.deep_view(), resurrectable.deep_view()).state.projects;
            let n = self.projects.len();
            let mut out: Vec<Project> = Vec::new();
            let mut i: usize = 0;
            while i < n
                invariant
                    v0 == self@,
                    n == v0.projects.len(),
                    !v0.use_discovery,
                    target == v0.session_update(sessions.deep_view(), resurrectable.deep_view()).state.projects,
                    i <= n,
                    out.deep_view() == target.take(i as int),
                decreases n - i,
            {
                let p = &self.projects[i];
                let status = configured_status_of(sessions, resurrectable, &p.name);
                let q = Project { name: p.name.clone(), path: p.path.clone(), status };
                let ghost qv = q@;
                let ghost before = out.deep_view();
                proof {
                    assert(v0.projects[i as int] == p@);
                    assert(qv == target[i as int]);
                }
                out.push(q);
                proof {
                    assert(out.deep_view() =~= before.push(qv));
                    assert(out.deep_view() =~= target.take(i + 1));
                }
                i = i + 1;
            }
            proof {
                assert(target.take(n as int) =~= target);
            }
            self.projects = out;
            self.initial_load_complete = true;
            proof {
                assert(self@ =~= v0.session_update(sessions.deep_view(), resurrectable.deep_view()).state);
            }
        }
    }

    /// The selection moved one shown project down (see `moved_down`).
    fn move_down(&mut self)
        requires
            old(self).wf(),
        ensures
            final(self).wf(),
            final(self)@ == old(self)@.moved_down(),
    {
        let filtered_len = self.filtered_indices().len();
        proof {
            lemma_filtered(self@);
        }
        if filtered_len > 0 {
            let next = self.selected_index + 1;
            self.selected_index = if next <= filtered_len - 1 {
                next
            } else {
                filtered_len - 1
            };
        }
    }

    /// The selection moved one project up (see `moved_up`).
    fn move_up(&mut self)
        requires
            old(self).wf(),
        ensures
            final(self).wf(),
            final(self)@ == old(self)@.moved_up(),
    {
        self.selected_index = self.selected_index.saturating_sub(1);
    }

    /// The position of project index `p` in the shown list.
    fn position_in(filtered: &Vec<usize>, p: usize) -> (r: Option<usize>)
        ensures
            match r {
                Some(i) => position_of(filtered@, p) == Some(i as nat) && i < filtered@.len(),
                None => position_of(filtered@, p) is None,
            },
    {
        let ghost f = filtered@;
        let n = filtered.len();
        let mut i: usize = 0;
        proof {
            assert(f.skip(0) =~= f);
        }
        while i < n
            invariant
                n == f.len(),
                f == filtered@,
                i <= n,
                position_of(f, p) == match position_of(f.skip(i as int), p) {
                    Some(q) => Some((q + i) as nat),
                    None => None,
                },
            decreases n - i,
        {
            proof {
                assert(f.skip(i as int)[0] == f[i as int]);
                assert(f.skip(i as int).drop_first() =~= f.skip(i + 1));
            }
            if filtered[i] == p {
                return Some(i);
            }
            i = i + 1;
        }
        proof {
            assert(f.skip(i as int).len() == 0);
        }
        None
    }

    /// The project index of a line, if it is a project's row or detail line.
    fn row_project(render_lines: &Vec<RenderLine>, idx: usize) -> (r: Option<usize>)
        requires
            idx < render_lines@.len(),
        ensures
            match render_lines.deep_view()[idx as int] {
                RenderLineView::ProjectRow(p) => r == Some(p),
                RenderLineView::Detail(p) => r == Some(p),
                RenderLineView::Header(_) => r is None,
            },
    {
        match &render_lines[idx] {
            RenderLine::ProjectRow(project_idx) => Some(*project_idx),
            RenderLine::Detail(project_idx) => Some(*project_idx),
            RenderLine::Header(_) => None,
        }
    }

    /// Reacts to a left click on screen row `line` (see `clicked`).
    #[verifier::spinoff_prover]
    #[verifier::rlimit(40)]
    fn on_left_click(&mut self, line: isize) -> (r: (bool, Vec<Action>))
        requires
            old(self).wf(),
        ensures
            final(self).wf(),
            final(self)@ == old(self)@.clicked(line).state,
            r.1.deep_view() == old(self)@.clicked(line).actions,
            r.0 == old(self)@.clicked(line).redraw,
    {
        let ghost v0 = self@;
        let none: Vec<Action> = Vec::new();
        assert(none.deep_view() =~= Seq::<ActionView>::empty());
        let click_y = line as usize;
        let y_offset: usize = if self.browse_mode {
            1
        } else {
            0
        };
        if click_y < y_offset {
            return (true, none);
        }
        let render_lines = self.build_render_lines();
        let below = click_y - y_offset;
        let n = render_lines.len();
        if below < n && self.scroll_offset < n - below {
            let render_idx = self.scroll_offset + below;
            if let Some(project_idx) = Self::row_project(&render_lines, render_idx) {
                let filtered = self.filtered_indices();
                if let Some(fi) = Self::position_in(&filtered, project_idx) {
                    proof {
                        lemma_filtered(v0);
                    }
                    self.selected_index = fi;
                    let actions = self.activate_selected_project();
                    return (true, actions);
                }
            }
        }
        (true, none)
    }

    /// Reacts to a mouse event (see `mouse`).
    #[verifier::spinoff_prover]
    fn on_mouse(&mut self, m: MouseEvent) -> (r: (bool, Vec<Action>))
        requires
            old(self).wf(),
        ensures
            final(self).wf(),
            final(self)@ == old(self)@.mouse(m).state,
            r.1.deep_view() == old(self)@.mouse(m).actions,
            r.0 == old(self)@.mouse(m).redraw,
    {
        let none: Vec<Action> = Vec::new();
        assert(none.deep_view() =~= Seq::<ActionView>::empty());
        match m {
            MouseEvent::LeftClick { line, .. } => self.on_left_click(line),
            MouseEvent::ScrollUp => {
                self.move_up();
                (true, none)
            },
            MouseEvent::ScrollDown => {
                self.move_down();
                (true, none)
            },
            MouseEvent::Other => (false, none),
        }
    }

    /// Reacts to a key press (see `key`).
    #[verifier::spinoff_prover]
    fn on_key(&mut self, k: KeyEvent) -> (r: (bool, Vec<Action>))
        requires
            old(self).wf(),
        ensures
            final(self).wf(),
            final(self)@ == old(self)@.key(k).state,
            r.1.deep_view() == old(self)@.key(k).actions,
            r.0 == old(self)@.key(k).redraw,
    {
        let ghost v0 = self@;
        let none: Vec<Action> = Vec::new();
        assert(none.deep_view() =~= Seq::<ActionView>::empty());
        let plain = k.has_no_modifiers();
        if plain && k.code == KeyCode::Down {
            self.move_down();
            (true, none)
        } else if plain && k.code == KeyCode::Up {
            self.move_up();
            (true, none)
        } else if plain && k.code == KeyCode::Enter {
            let actions = self.activate_selected_project();
            (true, actions)
        } else if plain && k.code == KeyCode::Esc {
            if self.browse_mode {
                self.browse_mode = false;
                self.search_query = String::new();
                self.selected_index = 0;
                self.scroll_offset = 0;
                (true, none)
            } else {
                let mut actions: Vec<Action> = Vec::new();
                actions.push(Action::SetSelectable(false));
                self.is_focused = false;
                assert(actions.deep_view() =~= v0.key(k).actions);
                (true, actions)
            }
        } else if plain && k.code == KeyCode::Backspace {
            if self.browse_mode && !self.search_query.as_str().is_empty() {
                self.search_query = without_last_char(&self.search_query);
                self.selected_index = 0;
                self.scroll_offset = 0;
            }
            (true, none)
        } else if plain && k.code == KeyCode::Delete {
            if !self.browse_mode {
                let actions = self.kill_selected_session();
                (true, actions)
            } else {
                (true, none)
            }
        } else {
            match k.code {
                KeyCode::Char(c) => {
                    if c == 'r' && k.has_alt() {
                        if self.use_discovery {
                            self.scan_complete = false;
                            let actions = self.trigger_scan();
                            (true, actions)
                        } else {
                            (true, none)
                        }
                    } else if c == '/' && plain && !self.browse_mode {
                        if self.use_discovery {
                            self.browse_mode = true;
                            self.search_query = String::new();
                            self.selected_index = 0;
                            self.scroll_offset = 0;
                        }
                        (true, none)
                    } else if plain && self.browse_mode {
                        push_char(&mut self.search_query, c);
                        self.selected_index = 0;
                        self.scroll_offset = 0;
                        (true, none)
                    } else {
                        (false, none)
                    }
                },
                _ => (false, none),
            }
        }
    }

    /// Handles an event from the host (see `reaction`); returns whether to
    /// draw again and the requests to the host.
    #[verifier::spinoff_prover]
    pub fn update(&mut self, event: PluginEvent) -> (r: (bool, Vec<Action>))
        requires
            old(self).wf(),
        ensures
            final(self).wf(),
            final(self)@ == old(self)@.reaction(event.deep_view()).state,
            r.1.deep_view() == old(self)@.reaction(event.deep_view()).actions,
            r.0 == old(self)@.reaction(event.deep_view()).redraw,
    {
        let none: Vec<Action> = Vec::new();
        assert(none.deep_view() =~= Seq::<ActionView>::empty());
        match event {
            PluginEvent::PermissionGranted => {
                let actions = self.on_permission_granted();
                (true, actions)
            },
            PluginEvent::PermissionDenied => (false, none),
            PluginEvent::RunCommandResult { exit_code, stdout, context } => {
                let redraw = self.on_command_result(exit_code, &stdout, &context);
                (redraw, none)
            },
            PluginEvent::SessionUpdate { sessions, resurrectable } => {
                self.on_session_update(&sessions, &resurrectable);
                (true, none)
            },
            PluginEvent::Mouse(m) => self.on_mouse(m),
            PluginEvent::Key(k) => self.on_key(k),
            PluginEvent::AiStateFiles(files) => {
                let actions = self.apply_ai_files(&files);
                (true, actions)
            },
            PluginEvent::Other => (false, none),
        }
    }

    /// Loads the configuration (see `loaded` and `load_actions`).
    pub fn load(&mut self, configuration: &Vec<(String, String)>) -> (actions: Vec<Action>)
        requires
            old(self).wf(),
        ensures
            final(self).wf(),
            final(self)@ == old(self)@.loaded(configuration.deep_view()),
            actions.deep_view() == load_actions(final(self)@.use_discovery),
    {
        self.apply_configuration(configuration);
        load_requests(self.use_discovery)
    }

    /// Takes the settings of the configuration (see `loaded`).
    #[verifier::spinoff_prover]
    fn apply_configuration(&mut self, configuration: &Vec<(String, String)>)
        requires
            old(self).wf(),
        ensures
            final(self).wf(),
            final(self)@ == old(self)@.loaded(configuration.deep_view()),
    {
        let ghost v0 = self@;
        let ghost cfg = configuration.deep_view();
        let verbosity = match lookup_value(configuration, "verbosity") {
            Some(v) => if str_eq(v.as_str(), "minimal") {
                Verbosity::Minimal
            } else {
                Verbosity::Full
            },
            None => self.verbosity,
        };
        let scan_dir = lookup_value(configuration, "scan_dir");
        let session_layout = lookup_value(configuration, "session_layout");
        let is_primary = match lookup_value(configuration, "is_primary") {
            Some(v) => !str_eq(v.as_str(), "false"),
            None => true,
        };
        let use_discovery = scan_dir.is_some();
        if !use_discovery {
            self.add_configured_projects(configuration);
        }
        self.set_settings(verbosity, scan_dir, session_layout, is_primary, use_discovery);
        proof {
            assert(self@.scan_dir == lookup(cfg, "scan_dir"@));
            assert(self@.session_layout == lookup(cfg, "session_layout"@));
            assert(self@.use_discovery == (self@.scan_dir is Some));
            assert(self@.verbosity == match lookup(cfg, "verbosity"@) {
                Some(v) => if v == "minimal"@ {
                    Verbosity::Minimal
                } else {
                    Verbosity::Full
                },
                None => v0.verbosity,
            });
            assert(self@.is_primary == match lookup(cfg, "is_primary"@) {
                Some(v) => v != "false"@,
                None => true,
            });
            lemma_loaded(v0, self@, cfg);
        }
    }

    /// Sets the settings read from the configuration.
    fn set_settings(
        &mut self,
        verbosity: Verbosity,
        scan_dir: Option<String>,
        session_layout: Option<String>,
        is_primary: bool,
        use_discovery: bool,
    )
        requires
            old(self).wf(),
        ensures
            final(self).wf(),
            final(self)@ == (StateView {
                verbosity,
                scan_dir: scan_dir.deep_view(),
                session_layout: session_layout.deep_view(),
                is_primary,
                use_discovery,
                ..old(self)@
            }),
    {
        self.verbosity = verbosity;
        self.scan_dir = scan_dir;
        self.session_layout = session_layout;
        self.is_primary = is_primary;
        self.use_discovery = use_discovery;
    }

    /// Adds the projects configured one by one (see `configured_projects`).
    fn add_configured_projects(&mut self, configuration: &Vec<(String, String)>)
        requires
            old(self).wf(),
        ensures
            final(self).wf(),
            final(self)@ == (StateView {
                projects: old(self)@.projects + configured_projects(configuration.deep_view()),
                ..old(self)@
            }),
    {
        let mut configured = load_configured_projects(configuration);
        let ghost before = self.projects.deep_view();
        let ghost added = configured.deep_view();
        self.projects.append(&mut configured);
        // The length, read as a `usize`, bounds the list as `wf` asks.
        let _count = self.projects.len();
        assert(self.projects.deep_view() =~= before + added);
    }

    /// The styled row of a project (see `project_row`), marked for attention
    /// when its session asks for it.
    pub fn render_project_line(&self, project: &Project, is_selected: bool, cols: usize) -> (r: StyledText)
        ensures
            r.deep_view() == project_row(
                project@,
                self@.attention.contains(project@.name),
                self@.ai_of(project@.name),
                self@.verbosity,
                is_selected,
                cols,
            ),
    {
        let needs_attention = self.attention_sessions.contains(project.name.as_str());
        let ai = self.ai_state(project.name.as_str());
        render_project_row(project, needs_attention, ai, self.verbosity, is_selected, cols)
    }

    /// How a line of the project list is drawn (see `line_draw`).
    fn draw_line(&self, line: &RenderLine, y: usize, cols: usize) -> (d: Draw)
        requires
            self.wf(),
            line.deep_view() matches RenderLineView::ProjectRow(p) ==> p < self@.projects.len(),
        ensures
            d.deep_view() == self@.line_draw(line.deep_view(), y, cols),
    {
        match line {
            RenderLine::Header(title) => {
                let header = String::from_str(" ─ ").concat(title.as_str());
                gray_draw(fit_line(header.as_str(), cols), y, cols)
            },
            RenderLine::Detail(_) => gray_draw(fit_line(AI_DETAIL, cols), y, cols),
            RenderLine::ProjectRow(project_idx) => {
                let project = &self.projects[*project_idx];
                let is_selected = self.selected_project_index() == Some(*project_idx);
                proof {
                    assert(self@.projects[*project_idx as int] == project@);
                }
                let text = self.render_project_line(project, is_selected, cols);
                Draw::Text { text, x: 0, y, width: cols }
            },
        }
    }

    /// Draws the sidebar in `rows` by `cols` (see `drawn`), scrolling to
    /// show the selection.
    #[verifier::spinoff_prover]
    pub fn render(&mut self, rows: usize, cols: usize) -> (draws: Vec<Draw>)
        requires
            old(self).wf(),
        ensures
            final(self).wf(),
            final(self)@ == old(self)@.drawn(rows, cols).0,
            draws.deep_view() == old(self)@.drawn(rows, cols).1,
    {
        let ghost v0 = self@;
        let mut draws: Vec<Draw> = Vec::new();
        if !self.permissions_granted {
            draws.push(Draw::Message(String::from_str("Waiting for permissions...")));
            assert(draws.deep_view() =~= v0.drawn(rows, cols).1);
            return draws;
        }
        if !self.initial_load_complete {
            let msg = if self.use_discovery {
                "Scanning..."
            } else {
                "Loading..."
            };
            draws.push(Draw::Message(String::from_str(msg)));
            assert(draws.deep_view() =~= v0.drawn(rows, cols).1);
            return draws;
        }
        if self.projects.len() == 0 {
            let msg = if self.use_discovery {
                "No projects found."
            } else {
                "No projects configured."
            };
            draws.push(Draw::Message(String::from_str(msg)));
            assert(draws.deep_view() =~= v0.drawn(rows, cols).1);
            return draws;
        }
        let mut y_offset: usize = 0;
        if self.browse_mode {
            let search_line = if self.search_query.as_str().is_empty() {
                String::from_str(" / search...")
            } else {
                String::from_str(" / ").concat(self.search_query.as_str())
            };
            let display = fit_line(search_line.as_str(), cols);
            let len = display.as_str().unicode_len();
            let mut colors: Vec<Coloring> = Vec::new();
            colors.push(Coloring::Range { level: COLOR_BLUE, start: 0, end: len });
            draws.push(Draw::Text { text: StyledText { content: display, selected: false, colors }, x: 0, y: 0, width: cols });
            y_offset = 1;
        }
        let ghost search = draws.deep_view();
        let render_lines = self.build_render_lines();
        let footer_y = rows.saturating_sub(1);
        if render_lines.len() == 0 {
            let msg = if self.browse_mode {
                " No matches"
            } else {
                " No active sessions"
            };
            draws.push(gray_draw(String::from_str(msg), y_offset, cols));
            if footer_y > y_offset {
                let hint = if self.is_focused && self.use_discovery {
                    " /:browse"
                } else if !self.is_focused {
                    " ⌘O to toggle"
                } else {
                    ""
                };
                proof {
                    reveal_strlit("");
                }
                if !hint.is_empty() {
                    draws.push(gray_draw(String::from_str(hint), footer_y, cols));
                }
            }
            assert(draws.deep_view() =~= v0.drawn(rows, cols).1);
            return draws;
        }
        let content_area = footer_y.saturating_sub(y_offset);
        self.ensure_selection_visible(&render_lines, content_area);
        let ghost s1 = self@;
        let start = self.scroll_offset;
        let n = render_lines.len();
        let visible_end = if start < n && n - start > content_area {
            start + content_area
        } else {
            n
        };
        let ghost lines = render_lines.deep_view();
        proof {
            lemma_filtered(s1);
            lemma_filtered_same(s1, v0, 0);
        }
        let mut line_idx = start;
        while line_idx < visible_end
            invariant
                self.wf(),
                self@ == s1,
                s1 == v0.scrolled(lines, content_area),
                lines == render_lines.deep_view(),
                lines == v0.render_lines(),
                lines == s1.render_lines(),
                n == lines.len(),
                start == s1.scroll_offset,
                visible_end <= n,
                start <= line_idx,
                line_idx <= visible_end || line_idx == start,
                y_offset <= 1,
                forall|a: int| 0 <= a < s1.filtered().len() ==> #[trigger] s1.filtered()[a] < s1.projects.len(),
                draws.deep_view() == search + Seq::new(
                    (line_idx - start) as nat,
                    |i: int| s1.line_draw(lines[start + i], (i + y_offset) as usize, cols),
                ),
            decreases visible_end - line_idx,
        {
            let ghost before = draws.deep_view();
            let line = &render_lines[line_idx];
            proof {
                assert(lines[line_idx as int] == line.deep_view());
                if let RenderLineView::ProjectRow(p) = line.deep_view() {
                    let k = if s1.use_discovery && s1.browse_mode && s1.filtered().len() > 0 {
                        line_idx - 1
                    } else {
                        line_idx as int
                    };
                    lemma_project_lines(s1, s1.filtered());
                    assert(s1.project_lines(s1.filtered())[k] == lines[line_idx as int]);
                    let j = choose|j: int| 0 <= j < s1.filtered().len() && s1.filtered()[j] == p;
                }
            }
            let d = self.draw_line(line, line_idx - start + y_offset, cols);
            let ghost dv = d.deep_view();
            draws.push(d);
            proof {
                assert(dv == s1.line_draw(lines[start + (line_idx - start)], ((line_idx - start) + y_offset) as usize, cols));
                assert(draws.deep_view() =~= before.push(dv));
                assert(draws.deep_view() =~= search + Seq::new(
                    (line_idx + 1 - start) as nat,
                    |i: int| s1.line_draw(lines[start + i], (i + y_offset) as usize, cols),
                ));
            }
            line_idx = line_idx + 1;
        }
        proof {
            let spec_end = if start + content_area <= lines.len() {
                start + content_area
            } else {
                lines.len() as int
            };
            let count = if spec_end > start {
                spec_end - start
            } else {
                0
            };
            assert(visible_end as int == spec_end);
            assert(line_idx - start == count);
            let spec_search = if v0.browse_mode {
                let display = fit(v0.search_line(), cols);
                seq![
                    DrawView::Text {
                        text: StyledView {
                            content: display,
                            selected: false,
                            colors: seq![Coloring::Range { level: COLOR_BLUE, start: 0, end: display.len() as usize }],
                        },
                        x: 0,
                        y: 0,
                        width: cols,
                    },
                ]
            } else {
                seq![]
            };
            assert(search =~= spec_search);
        }
        if footer_y > 0 {
            let hint = if !self.is_focused {
                " ⌘O to toggle"
            } else if self.browse_mode {
                " ↵:open esc:back"
            } else if self.use_discovery {
                " ↵:go /:browse del:kill"
            } else {
                " ↵:switch del:kill"
            };
            draws.push(gray_draw(fit_line(hint, cols), footer_y, cols));
        }
        proof {
            assert(draws.deep_view() =~= v0.drawn(rows, cols).1);
        }
        draws
    }

    /// The projects, in display order.
    pub fn projects(&self) -> (r: &Vec<Project>)
        ensures
            r.deep_view() == self@.projects,
    {
        &self.projects
    }

    /// The selection, as a position in the list of shown projects.
    pub fn selected_index(&self) -> (r: usize)
        ensures
            r == self@.selected_index,
    {
        self.selected_index
    }

    /// The index of the first visible line of the project list.
    pub fn scroll_offset(&self) -> (r: usize)
        ensures
            r == self@.scroll_offset,
    {
        self.scroll_offset
    }

    /// Whether the sidebar has the focus.
    pub fn is_focused(&self) -> (r: bool)
        ensures
            r == self@.is_focused,
    {
        self.is_focused
    }

    /// Whether the sidebar browses all projects.
    pub fn browse_mode(&self) -> (r: bool)
        ensures
            r == self@.browse_mode,
    {
        self.browse_mode
    }

    /// The search typed in browse mode.
    pub fn search_query(&self) -> (r: &String)
        ensures
            r@ == self@.search_query,
    {
        &self.search_query
    }

    /// Whether projects are discovered in a scan directory.
    pub fn use_discovery(&self) -> (r: bool)
        ensures
            r == self@.use_discovery,
    {
        self.use_discovery
    }

    /// Whether the host granted the permissions.
    pub fn permissions_granted(&self) -> (r: bool)
        ensures
            r == self@.permissions_granted,
    {
        self.permissions_granted
    }

    /// Whether the first project list is in.
    pub fn initial_load_complete(&self) -> (r: bool)
        ensures
            r == self@.initial_load_complete,
    {
        self.initial_load_complete
    }

    /// Whether the directory scan has completed.
    pub fn scan_complete(&self) -> (r: bool)
        ensures
            r == self@.scan_complete,
    {
        self.scan_complete
    }

    /// Whether this instance registers the global key bindings.
    pub fn is_primary(&self) -> (r: bool)
        ensures
            r == self@.is_primary,
    {
        self.is_primary
    }

    /// Whether the sidebar was last hidden.
    pub fn is_hidden(&self) -> (r: bool)
        ensures
            r == self@.is_hidden,
    {
        self.is_hidden
    }

    /// The row detail.
    pub fn verbosity(&self) -> (r: Verbosity)
        ensures
            r == self@.verbosity,
    {
        self.verbosity
    }

    /// The scan directory, if configured.
    pub fn scan_dir(&self) -> (r: &Option<String>)
        ensures
            r.deep_view() == self@.scan_dir,
    {
        &self.scan_dir
    }

    /// The layout file for new sessions, if configured.
    pub fn session_layout(&self) -> (r: &Option<String>)
        ensures
            r.deep_view() == self@.session_layout,
    {
        &self.session_layout
    }

    /// The directories the last scan found, as name and path.
    pub fn discovered_dirs(&self) -> (r: &Vec<(String, String)>)
        ensures
            r.deep_view() == self@.discovered_dirs,
    {
        &self.discovered_dirs
    }

    /// Whether the session `name` asks for attention.
    pub fn needs_attention(&self, name: &str) -> (r: bool)
        ensures
            r == self@.attention.contains(name@),
    {
        self.attention_sessions.contains(name)
    }

    /// A copy of the status stored for the session `name`.
    pub fn cached_status(&self, name: &str) -> (r: Option<SessionStatus>)
        ensures
            r.deep_view() == entry_get(self@.cache, name@),
    {
        self.cached_statuses.get(name)
    }

    /// Brings the selection back into the shown list.
    pub fn clamp_selection(&mut self)
        requires
            old(self).wf_but_selection(),
        ensures
            final(self).wf(),
            final(self)@ == old(self)@.clamped(),
    {
        let filtered_len = self.filtered_indices().len();
        proof {
            lemma_filtered(self@);
        }
        if filtered_len == 0 {
            self.selected_index = 0;
        } else if self.selected_index > filtered_len - 1 {
            self.selected_index = filtered_len - 1;
        }
    }
}

} // verus!
