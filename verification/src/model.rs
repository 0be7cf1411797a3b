//! The sidebar's data: projects and their sessions, what the host reports,
//! and what the sidebar asks the host to do.
use vstd::prelude::*;

verus! {

/// How much detail each project row shows.
#[derive(PartialEq, Eq, Structural, Clone, Copy, Debug)]
pub enum Verbosity {
    Minimal,
    Full,
}

impl Default for Verbosity {
    fn default() -> (v: Verbosity)
        ensures
            v == Verbosity::Full,
    {
        Verbosity::Full
    }
}

/// What an AI agent in a session is doing.
#[derive(PartialEq, Eq, Structural, Clone, Copy, Debug)]
pub enum AiState {
    /// The agent is working.
    Active,
    /// The agent is done.
    Idle,
    /// The agent waits for the user.
    Waiting,
}

/// The state of the session that carries a project's name.
#[derive(Clone, Debug, PartialEq, Eq)]
pub enum SessionStatus {
    Running { is_current: bool, tab_count: usize, active_command: Option<String> },
    Exited,
    NotStarted,
}

/// `SessionStatus` with its strings as character sequences.
pub enum StatusView {
    Running { is_current: bool, tab_count: usize, active_command: Option<Seq<char>> },
    Exited,
    NotStarted,
}

impl DeepView for SessionStatus {
    type V = StatusView;

    open spec fn deep_view(&self) -> StatusView {
        match self {
            SessionStatus::Running { is_current, tab_count, active_command } => StatusView::Running {
                is_current: *is_current,
                tab_count: *tab_count,
                active_command: active_command.deep_view(),
            },
            SessionStatus::Exited => StatusView::Exited,
            SessionStatus::NotStarted => StatusView::NotStarted,
        }
    }
}

impl View for SessionStatus {
    type V = StatusView;

    open spec fn view(&self) -> StatusView {
        self.deep_view()
    }
}

impl SessionStatus {
    /// A copy of this status.
    pub fn cloned(&self) -> (r: SessionStatus)
        ensures
            r@ == self@,
    {
        match self {
            SessionStatus::Running { is_current, tab_count, active_command } => {
                let cmd = match active_command {
                    Some(c) => Some(c.clone()),
                    None => None,
                };
                SessionStatus::Running {
                    is_current: *is_current,
                    tab_count: *tab_count,
                    active_command: cmd,
                }
            },
            SessionStatus::Exited => SessionStatus::Exited,
            SessionStatus::NotStarted => SessionStatus::NotStarted,
        }
    }

    /// Whether the status is `NotStarted`.
    pub fn is_not_started(&self) -> (r: bool)
        ensures
            r == (self@ is NotStarted),
    {
        match self {
            SessionStatus::NotStarted => true,
            _ => false,
        }
    }
}

/// A project: a directory and the session named after it.
#[derive(Clone, Debug, PartialEq, Eq)]
pub struct Project {
    pub name: String,
    pub path: String,
    pub status: SessionStatus,
}

/// `Project` as values.
pub struct ProjectView {
    pub name: Seq<char>,
    pub path: Seq<char>,
    pub status: StatusView,
}

impl DeepView for Project {
    type V = ProjectView;

    open spec fn deep_view(&self) -> ProjectView {
        ProjectView { name: self.name@, path: self.path@, status: self.status@ }
    }
}

impl View for Project {
    type V = ProjectView;

    open spec fn view(&self) -> ProjectView {
        self.deep_view()
    }
}

/// What a session reports of one of its tabs.
#[derive(PartialEq, Eq, Structural, Clone, Copy, Debug)]
pub struct TabData {
    pub position: usize,
    pub active: bool,
}

impl DeepView for TabData {
    type V = TabData;

    open spec fn deep_view(&self) -> TabData {
        *self
    }
}

/// What a session reports of one of its panes.
#[derive(Clone, Debug, PartialEq, Eq)]
pub struct PaneData {
    pub is_focused: bool,
    pub is_plugin: bool,
    pub is_suppressed: bool,
    pub terminal_command: Option<String>,
}

/// `PaneData` as values.
pub struct PaneView {
    pub is_focused: bool,
    pub is_plugin: bool,
    pub is_suppressed: bool,
    pub terminal_command: Option<Seq<char>>,
}

impl DeepView for PaneData {
    type V = PaneView;

    open spec fn deep_view(&self) -> PaneView {
        PaneView {
            is_focused: self.is_focused,
            is_plugin: self.is_plugin,
            is_suppressed: self.is_suppressed,
            terminal_command: self.terminal_command.deep_view(),
        }
    }
}

/// What the host reports of a running session: its tabs, and the panes of
/// each tab keyed by the tab's position.
#[derive(Clone, Debug, PartialEq, Eq)]
pub struct SessionData {
    pub name: String,
    pub is_current: bool,
    pub tabs: Vec<TabData>,
    pub panes: Vec<(usize, Vec<PaneData>)>,
}

/// `SessionData` as values.
pub struct SessionView {
    pub name: Seq<char>,
    pub is_current: bool,
    pub tabs: Seq<TabData>,
    pub panes: Seq<(usize, Seq<PaneView>)>,
}

impl DeepView for SessionData {
    type V = SessionView;

    open spec fn deep_view(&self) -> SessionView {
        SessionView {
            name: self.name@,
            is_current: self.is_current,
            tabs: self.tabs.deep_view(),
            panes: self.panes.deep_view(),
        }
    }
}

/// The key of a key press.
#[derive(PartialEq, Eq, Structural, Clone, Copy, Debug)]
pub enum KeyCode {
    Down,
    Up,
    Enter,
    Esc,
    Backspace,
    Delete,
    Char(char),
    Other,
}

/// A key press and the modifiers held with it.
#[derive(PartialEq, Eq, Structural, Clone, Copy, Debug)]
pub struct KeyEvent {
    pub code: KeyCode,
    pub ctrl: bool,
    pub alt: bool,
    pub shift: bool,
    pub super_key: bool,
}

impl KeyEvent {
    /// No modifier is held.
    pub open spec fn no_modifiers(self) -> bool {
        !self.ctrl && !self.alt && !self.shift && !self.super_key
    }

    /// No modifier is held.
    pub fn has_no_modifiers(&self) -> (r: bool)
        ensures
            r == self.no_modifiers(),
    {
        !self.ctrl && !self.alt && !self.shift && !self.super_key
    }

    /// Alt is among the modifiers held (others may be held too).
    pub fn has_alt(&self) -> (r: bool)
        ensures
            r == self.alt,
    {
        self.alt
    }
}

/// A mouse event.
#[derive(PartialEq, Eq, Structural, Clone, Copy, Debug)]
pub enum MouseEvent {
    LeftClick { line: isize, column: usize },
    ScrollUp,
    ScrollDown,
    Other,
}

/// What the host hands the sidebar.
#[derive(Clone, Debug, PartialEq, Eq)]
pub enum PluginEvent {
    PermissionGranted,
    PermissionDenied,
    RunCommandResult { exit_code: Option<i32>, stdout: Vec<u8>, context: Vec<(String, String)> },
    SessionUpdate { sessions: Vec<SessionData>, resurrectable: Vec<String> },
    Mouse(MouseEvent),
    Key(KeyEvent),
    /// The timer went off; the shared AI state files were read: each
    /// session's name with the file's content.
    AiStateFiles(Vec<(String, String)>),
    Other,
}

/// `PluginEvent` as values.
pub enum EventView {
    PermissionGranted,
    PermissionDenied,
    RunCommandResult { exit_code: Option<i32>, stdout: Seq<u8>, context: Seq<(Seq<char>, Seq<char>)> },
    SessionUpdate { sessions: Seq<SessionView>, resurrectable: Seq<Seq<char>> },
    Mouse(MouseEvent),
    Key(KeyEvent),
    AiStateFiles(Seq<(Seq<char>, Seq<char>)>),
    Other,
}

impl DeepView for PluginEvent {
    type V = EventView;

    open spec fn deep_view(&self) -> EventView {
        match self {
            PluginEvent::PermissionGranted => EventView::PermissionGranted,
            PluginEvent::PermissionDenied => EventView::PermissionDenied,
            PluginEvent::RunCommandResult { exit_code, stdout, context } => EventView::RunCommandResult {
                exit_code: *exit_code,
                stdout: stdout@,
                context: context.deep_view(),
            },
            PluginEvent::SessionUpdate { sessions, resurrectable } => EventView::SessionUpdate {
                sessions: sessions.deep_view(),
                resurrectable: resurrectable.deep_view(),
            },
            PluginEvent::Mouse(m) => EventView::Mouse(*m),
            PluginEvent::Key(k) => EventView::Key(*k),
            PluginEvent::AiStateFiles(files) => EventView::AiStateFiles(files.deep_view()),
            PluginEvent::Other => EventView::Other,
        }
    }
}

/// A permission the sidebar asks the host for.
#[derive(PartialEq, Eq, Structural, Clone, Copy, Debug)]
pub enum Permission {
    ReadApplicationState,
    ChangeApplicationState,
    Reconfigure,
    RunCommands,
}

/// A kind of event the sidebar subscribes to.
#[derive(PartialEq, Eq, Structural, Clone, Copy, Debug)]
pub enum EventKind {
    SessionUpdate,
    PermissionRequestResult,
    Key,
    Mouse,
    RunCommandResult,
    Timer,
}

/// What the sidebar asks the host to do.
#[derive(Clone, Debug, PartialEq, Eq)]
pub enum Action {
    /// Switch to the session of this name.
    SwitchSession { name: String },
    /// Start the session of this name with a layout file, in a directory.
    SwitchSessionWithLayout { name: String, layout: String, cwd: String },
    /// Start the session of this name in a directory.
    SwitchSessionWithCwd { name: String, cwd: String },
    /// Make the sidebar pane selectable, or not.
    SetSelectable(bool),
    /// Kill the session of this name.
    KillSession { name: String },
    /// Register the global key bindings for this plugin's id.
    RegisterKeybinds,
    /// Focus this plugin's pane.
    FocusSelf,
    /// Show this plugin's pane.
    ShowSelf,
    /// Open new tabs from this layout text.
    NewTabWithLayout { layout: String },
    /// Run a command; the context comes back with its result.
    RunCommand { args: Vec<String>, context: Vec<(String, String)> },
    /// Ask for permissions.
    RequestPermissions(Vec<Permission>),
    /// Subscribe to kinds of events.
    Subscribe(Vec<EventKind>),
    /// Send a timer event after this many seconds.
    SetTimeout(u32),
}

/// `Action` as values.
pub enum ActionView {
    SwitchSession { name: Seq<char> },
    SwitchSessionWithLayout { name: Seq<char>, layout: Seq<char>, cwd: Seq<char> },
    SwitchSessionWithCwd { name: Seq<char>, cwd: Seq<char> },
    SetSelectable(bool),
    KillSession { name: Seq<char> },
    RegisterKeybinds,
    FocusSelf,
    ShowSelf,
    NewTabWithLayout { layout: Seq<char> },
    RunCommand { args: Seq<Seq<char>>, context: Seq<(Seq<char>, Seq<char>)> },
    RequestPermissions(Seq<Permission>),
    Subscribe(Seq<EventKind>),
    SetTimeout(u32),
}

impl DeepView for Action {
    type V = ActionView;

    open spec fn deep_view(&self) -> ActionView {
        match self {
            Action::SwitchSession { name } => ActionView::SwitchSession { name: name@ },
            Action::SwitchSessionWithLayout { name, layout, cwd } => ActionView::SwitchSessionWithLayout {
                name: name@,
                layout: layout@,
                cwd: cwd@,
            },
            Action::SwitchSessionWithCwd { name, cwd } => ActionView::SwitchSessionWithCwd {
                name: name@,
                cwd: cwd@,
            },
            Action::SetSelectable(b) => ActionView::SetSelectable(*b),
            Action::KillSession { name } => ActionView::KillSession { name: name@ },
            Action::RegisterKeybinds => ActionView::RegisterKeybinds,
            Action::FocusSelf => ActionView::FocusSelf,
            Action::ShowSelf => ActionView::ShowSelf,
            Action::NewTabWithLayout { layout } => ActionView::NewTabWithLayout { layout: layout@ },
            Action::RunCommand { args, context } => ActionView::RunCommand {
                args: args.deep_view(),
                context: context.deep_view(),
            },
            Action::RequestPermissions(p) => ActionView::RequestPermissions(p@),
            Action::Subscribe(e) => ActionView::Subscribe(e@),
            Action::SetTimeout(seconds) => ActionView::SetTimeout(*seconds),
        }
    }
}

/// A line of the project list: a heading, the row of a project (its index
/// in the project list), or the detail line under it.
#[derive(Clone, Debug, PartialEq, Eq)]
pub enum RenderLine {
    Header(String),
    ProjectRow(usize),
    /// The detail line under a project's row, naming the AI agent at work
    /// in its session.
    Detail(usize),
}

/// `RenderLine` as values.
pub enum RenderLineView {
    Header(Seq<char>),
    ProjectRow(usize),
    Detail(usize),
}

impl DeepView for RenderLine {
    type V = RenderLineView;

    open spec fn deep_view(&self) -> RenderLineView {
        match self {
            RenderLine::Header(t) => RenderLineView::Header(t@),
            RenderLine::ProjectRow(i) => RenderLineView::ProjectRow(*i),
            RenderLine::Detail(i) => RenderLineView::Detail(*i),
        }
    }
}

/// A coloring of characters of a line: the columns `start..end`, or all of
/// them, in a palette color.
#[derive(PartialEq, Eq, Structural, Clone, Copy, Debug)]
pub enum Coloring {
    Range { level: usize, start: usize, end: usize },
    All { level: usize },
}

impl DeepView for Coloring {
    type V = Coloring;

    open spec fn deep_view(&self) -> Coloring {
        *self
    }
}

/// A line of text with its selection mark and its colorings, in the order
/// in which they are applied.
#[derive(Clone, Debug, PartialEq, Eq)]
pub struct StyledText {
    pub content: String,
    pub selected: bool,
    pub colors: Vec<Coloring>,
}

/// `StyledText` as values.
pub struct StyledView {
    pub content: Seq<char>,
    pub selected: bool,
    pub colors: Seq<Coloring>,
}

impl DeepView for StyledText {
    type V = StyledView;

    open spec fn deep_view(&self) -> StyledView {
        StyledView { content: self.content@, selected: self.selected, colors: self.colors@ }
    }
}

/// What the sidebar draws: a plain message, or a styled line at a place.
#[derive(Clone, Debug, PartialEq, Eq)]
pub enum Draw {
    Message(String),
    Text { text: StyledText, x: usize, y: usize, width: usize },
}

/// `Draw` as values.
pub enum DrawView {
    Message(Seq<char>),
    Text { text: StyledView, x: usize, y: usize, width: usize },
}

impl DeepView for Draw {
    type V = DrawView;

    open spec fn deep_view(&self) -> DrawView {
        match self {
            Draw::Message(m) => DrawView::Message(m@),
            Draw::Text { text, x, y, width } => DrawView::Text {
                text: text.deep_view(),
                x: *x,
                y: *y,
                width: *width,
            },
        }
    }
}

} // verus!
