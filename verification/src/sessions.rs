//! What a session update says of each session: whether it runs, how many
//! tabs it has, and the command in its focused pane.
use vstd::prelude::*;
use crate::model::{PaneData, PaneView, SessionData, SessionStatus, SessionView, StatusView, TabData};
use crate::store::{entry_get, entry_insert, Entries, StatusCache};
use crate::strings::{base_name_or, base_name_or_else};

verus! {

/// The first active tab.
pub open spec fn first_active_tab(tabs: Seq<TabData>) -> Option<TabData>
    decreases tabs.len(),
{
    if tabs.len() == 0 {
        None
    } else if tabs[0].active {
        Some(tabs[0])
    } else {
        first_active_tab(tabs.drop_first())
    }
}

/// The panes listed for the tab at `position` (the first list for it).
pub open spec fn panes_of_tab(panes: Seq<(usize, Seq<PaneView>)>, position: usize) -> Option<
    Seq<PaneView>,
>
    decreases panes.len(),
{
    if panes.len() == 0 {
        None
    } else if panes[0].0 == position {
        Some(panes[0].1)
    } else {
        panes_of_tab(panes.drop_first(), position)
    }
}

/// The first pane that has the focus and is a terminal the user sees: not
/// a plugin and not suppressed.
pub open spec fn focused_terminal(panes: Seq<PaneView>) -> Option<PaneView>
    decreases panes.len(),
{
    if panes.len() == 0 {
        None
    } else if panes[0].is_focused && !panes[0].is_plugin && !panes[0].is_suppressed {
        Some(panes[0])
    } else {
        focused_terminal(panes.drop_first())
    }
}

/// The command of the focused terminal pane of the session's active tab,
/// shortened to its final path component (kept whole when it has none).
pub open spec fn active_command(s: SessionView) -> Option<Seq<char>> {
    match first_active_tab(s.tabs) {
        None => None,
        Some(tab) => match panes_of_tab(s.panes, tab.position) {
            None => None,
            Some(panes) => match focused_terminal(panes) {
                None => None,
                Some(pane) => match pane.terminal_command {
                    None => None,
                    Some(cmd) => Some(base_name_or(cmd, cmd)),
                },
            },
        },
    }
}

/// The first active tab of `tabs`.
fn find_active_tab(tabs: &Vec<TabData>) -> (r: Option<TabData>)
    ensures
        r == first_active_tab(tabs.deep_view()),
{
    let n = tabs.len();
    let mut i: usize = 0;
    let ghost t = tabs.deep_view();
    proof {
        assert(t.skip(0) =~= t);
    }
    while i < n
        invariant
            n == t.len(),
            t == tabs.deep_view(),
            i <= n,
            first_active_tab(t) == first_active_tab(t.skip(i as int)),
        decreases n - i,
    {
        proof {
            assert(t.skip(i as int)[0] == t[i as int]);
            assert(t.skip(i as int).drop_first() =~= t.skip(i + 1));
        }
        if tabs[i].active {
            return Some(tabs[i]);
        }
        i = i + 1;
    }
    None
}

/// The index of the pane list for the tab at `position`.
fn find_tab_panes(panes: &Vec<(usize, Vec<PaneData>)>, position: usize) -> (r: Option<usize>)
    ensures
        match r {
            Some(i) => i < panes@.len() && panes_of_tab(panes.deep_view(), position) == Some(
                panes.deep_view()[i as int].1,
            ),
            None => panes_of_tab(panes.deep_view(), position) is None,
        },
{
    let n = panes.len();
    let mut i: usize = 0;
    let ghost t = panes.deep_view();
    proof {
        assert(t.skip(0) =~= t);
    }
    while i < n
        invariant
            n == t.len(),
            t == panes.deep_view(),
            i <= n,
            panes_of_tab(t, position) == panes_of_tab(t.skip(i as int), position),
        decreases n - i,
    {
        proof {
            assert(t.skip(i as int)[0] == t[i as int]);
            assert(t.skip(i as int).drop_first() =~= t.skip(i + 1));
        }
        if panes[i].0 == position {
            return Some(i);
        }
        i = i + 1;
    }
    None
}

/// The index of the first focused terminal pane.
fn find_focused_terminal(panes: &Vec<PaneData>) -> (r: Option<usize>)
    ensures
        match r {
            Some(i) => i < panes@.len() && focused_terminal(panes.deep_view()) == Some(
                panes.deep_view()[i as int],
            ),
            None => focused_terminal(panes.deep_view()) is None,
        },
{
    let n = panes.len();
    let mut i: usize = 0;
    let ghost t = panes.deep_view();
    proof {
        assert(t.skip(0) =~= t);
    }
    while i < n
        invariant
            n == t.len(),
            t == panes.deep_view(),
            i <= n,
            focused_terminal(t) == focused_terminal(t.skip(i as int)),
        decreases n - i,
    {
        proof {
            assert(t.skip(i as int)[0] == t[i as int]);
            assert(t.skip(i as int).drop_first() =~= t.skip(i + 1));
        }
        if panes[i].is_focused && !panes[i].is_plugin && !panes[i].is_suppressed {
            return Some(i);
        }
        i = i + 1;
    }
    None
}

/// The command in the focused terminal pane of the session's active tab
/// (see `active_command`).
pub fn extract_active_command(session: &SessionData) -> (r: Option<String>)
    ensures
        r.deep_view() == active_command(session.deep_view()),
{
    match find_active_tab(&session.tabs) {
        None => None,
        Some(tab) => match find_tab_panes(&session.panes, tab.position) {
            None => None,
            Some(i) => {
                let panes = &session.panes[i].1;
                match find_focused_terminal(panes) {
                    None => None,
                    Some(j) => match &panes[j].terminal_command {
                        None => None,
                        Some(cmd) => Some(base_name_or_else(cmd.as_str(), cmd.as_str())),
                    },
                }
            },
        }
    }
}

/// The status a running session gets: its tab count, and, for the current
/// session only, the command in its focused pane.
pub open spec fn running_status(s: SessionView) -> StatusView {
    StatusView::Running {
        is_current: s.is_current,
        tab_count: s.tabs.len() as usize,
        active_command: if s.is_current {
            active_command(s)
        } else {
            None
        },
    }
}

/// The status of a running session (see `running_status`).
pub fn running_status_of(session: &SessionData) -> (r: SessionStatus)
    ensures
        r@ == running_status(session.deep_view()),
{
    let active_command = if session.is_current {
        extract_active_command(session)
    } else {
        None
    };
    SessionStatus::Running {
        is_current: session.is_current,
        tab_count: session.tabs.len(),
        active_command,
    }
}

/// The store after storing each running session in turn, starting empty: a
/// later session of the same name replaces an earlier one.
pub open spec fn statuses_of(sessions: Seq<SessionView>) -> Entries
    decreases sessions.len(),
{
    if sessions.len() == 0 {
        seq![]
    } else {
        entry_insert(
            statuses_of(sessions.drop_last()),
            sessions.last().name,
            running_status(sessions.last()),
        )
    }
}

/// `l` after marking each name in turn as exited, unless a status is
/// already stored for it.
pub open spec fn with_exited(l: Entries, names: Seq<Seq<char>>) -> Entries
    decreases names.len(),
{
    if names.len() == 0 {
        l
    } else {
        let before = with_exited(l, names.drop_last());
        if entry_get(before, names.last()) is Some {
            before
        } else {
            entry_insert(before, names.last(), StatusView::Exited)
        }
    }
}

/// The statuses a session update gives: each running session, then each
/// resurrectable session not running, as exited.
pub open spec fn statuses_after_update(sessions: Seq<SessionView>, resurrectable: Seq<Seq<char>>) -> Entries {
    with_exited(statuses_of(sessions), resurrectable)
}

/// Fills `cache` with the statuses of a session update (see
/// `statuses_after_update`).
pub fn fill_statuses(cache: &mut StatusCache, sessions: &Vec<SessionData>, resurrectable: &Vec<String>)
    requires
        old(cache).wf(),
    ensures
        final(cache).wf(),
        final(cache)@ == statuses_after_update(sessions.deep_view(), resurrectable.deep_view()),
{
    cache.clear();
    let ghost s = sessions.deep_view();
    let ghost r = resurrectable.deep_view();
    let n = sessions.len();
    let mut i: usize = 0;
    proof {
        assert(s.take(0) =~= Seq::<SessionView>::empty());
        assert(statuses_of(s.take(0)) =~= cache@);
    }
    while i < n
        invariant
            n == s.len(),
            s == sessions.deep_view(),
            i <= n,
            cache.wf(),
            cache@ == statuses_of(s.take(i as int)),
        decreases n - i,
    {
        let session = &sessions[i];
        let status = running_status_of(session);
        proof {
            assert(s.take(i + 1).drop_last() =~= s.take(i as int));
            assert(s.take(i + 1).last() == s[i as int]);
        }
        cache.insert(session.name.clone(), status);
        i = i + 1;
    }
    proof {
        assert(s.take(n as int) =~= s);
        assert(r.take(0) =~= Seq::<Seq<char>>::empty());
    }
    let m = resurrectable.len();
    let mut j: usize = 0;
    while j < m
        invariant
            m == r.len(),
            r == resurrectable.deep_view(),
            j <= m,
            cache.wf(),
            cache@ == with_exited(statuses_of(s), r.take(j as int)),
        decreases m - j,
    {
        let name = &resurrectable[j];
        proof {
            assert(r.take(j + 1).drop_last() =~= r.take(j as int));
            assert(r.take(j + 1).last() == r[j as int]);
        }
        if !cache.contains_key(name.as_str()) {
            cache.insert(name.clone(), SessionStatus::Exited);
        }
        j = j + 1;
    }
    proof {
        assert(r.take(m as int) =~= r);
    }
}

} // verus!
