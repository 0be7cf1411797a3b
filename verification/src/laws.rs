//! Properties of the sidebar that hold of every input.
use vstd::prelude::*;
use crate::ai::{AI_ACTIVE_PREFIX, AI_IDLE_PREFIX, AI_WAITING_PREFIX};
use crate::model::{ActionView, AiState, Coloring, DrawView, KeyCode, KeyEvent, PaneView, TabData, ProjectView, RenderLineView,
    SessionView, StatusView, StyledView,
    Verbosity};
use crate::render::{ai_color, ai_mark, fit, fit_with_ellipsis, is_current_session, project_row, COLOR_GREEN, COLOR_RED};
use crate::sorting::{insert_by_name, name_key, sort_by_name};
use crate::sessions::{active_command, first_active_tab, focused_terminal, panes_of_tab, running_status, statuses_after_update, statuses_of, with_exited};
use crate::state::{all_projects_heading, lemma_project_lines, position_of, dir_projects, fuzzy_match, gray_text, AI_DETAIL, lemma_filtered, lemma_filtered_same, position_named, row_of, StateView,
    ATTENTION_PREFIX, CLEAR_PREFIX};
use crate::store::{entry_get, lemma_entry_get_insert, Entries};
use crate::strings::{base_name_or, is_subsequence, lowercase, lemma_seq_less_total, lemma_seq_less_transitive, seq_less};

verus! {

/// `q` embeds in `n` through the increasing positions `idx`.
pub open spec fn embeds_at(q: Seq<char>, n: Seq<char>, idx: Seq<int>) -> bool {
    &&& idx.len() == q.len()
    &&& forall|k: int| 0 <= k < idx.len() ==> 0 <= #[trigger] idx[k] < n.len()
    &&& forall|k: int, l: int| 0 <= k < l < idx.len() ==> idx[k] < idx[l]
    &&& forall|k: int| 0 <= k < idx.len() ==> n[#[trigger] idx[k]] == q[k]
}

/// The characters of `q` appear in `n` in order: at some increasing positions.
pub open spec fn embeds(q: Seq<char>, n: Seq<char>) -> bool {
    exists|idx: Seq<int>| embeds_at(q, n, idx)
}

/// Positions shifted by one to the right.
pub open spec fn shift(idx: Seq<int>, d: int) -> Seq<int> {
    idx.map_values(|i: int| i + d)
}

proof fn lemma_subsequence_embeds(q: Seq<char>, n: Seq<char>)
    requires
        is_subsequence(q, n),
    ensures
        embeds(q, n),
    decreases n.len(),
{
    if q.len() == 0 {
        assert(embeds_at(q, n, Seq::<int>::empty()));
    } else if q[0] == n[0] {
        lemma_subsequence_embeds(q.drop_first(), n.drop_first());
        let idx = choose|idx: Seq<int>| embeds_at(q.drop_first(), n.drop_first(), idx);
        let full = seq![0int] + shift(idx, 1);
        assert forall|k: int| 0 <= k < full.len() implies n[#[trigger] full[k]] == q[k] by {
            if k > 0 {
                assert(full[k] == idx[k - 1] + 1);
                assert(n.drop_first()[idx[k - 1]] == q.drop_first()[k - 1]);
            }
        }
        assert forall|k: int, l: int| 0 <= k < l < full.len() implies full[k] < full[l] by {
            if k > 0 {
                assert(full[k] == idx[k - 1] + 1 && full[l] == idx[l - 1] + 1);
            } else {
                assert(full[l] == idx[l - 1] + 1);
            }
        }
        assert(embeds_at(q, n, full));
    } else {
        lemma_subsequence_embeds(q, n.drop_first());
        let idx = choose|idx: Seq<int>| embeds_at(q, n.drop_first(), idx);
        let full = shift(idx, 1);
        assert forall|k: int| 0 <= k < full.len() implies n[#[trigger] full[k]] == q[k] by {
            assert(n.drop_first()[idx[k]] == q[k]);
        }
        assert(embeds_at(q, n, full));
    }
}

proof fn lemma_embeds_subsequence(q: Seq<char>, n: Seq<char>, idx: Seq<int>)
    requires
        embeds_at(q, n, idx),
    ensures
        is_subsequence(q, n),
    decreases n.len(),
{
    if q.len() == 0 {
    } else if n.len() == 0 {
        assert(0 <= idx[0] < n.len());
    } else if q[0] == n[0] {
        let rest = if idx[0] == 0 {
            shift(idx.drop_first(), -1)
        } else {
            shift(idx.drop_first(), -1)
        };
        assert forall|k: int| 0 <= k < rest.len() implies 0 <= #[trigger] rest[k] < n.drop_first().len() by {
            assert(idx[0] < idx[k + 1]);
        }
        assert forall|k: int| 0 <= k < rest.len() implies n.drop_first()[#[trigger] rest[k]] == q.drop_first()[k] by {
            assert(idx[0] < idx[k + 1]);
            assert(n[idx[k + 1]] == q[k + 1]);
        }
        assert forall|k: int, l: int| 0 <= k < l < rest.len() implies rest[k] < rest[l] by {
            assert(idx[k + 1] < idx[l + 1]);
        }
        lemma_embeds_subsequence(q.drop_first(), n.drop_first(), rest);
    } else {
        assert(idx[0] != 0) by {
            if idx[0] == 0 {
                assert(n[idx[0]] == q[0]);
            }
        }
        let rest = shift(idx, -1);
        assert forall|k: int| 0 <= k < rest.len() implies 0 <= #[trigger] rest[k] < n.drop_first().len() by {
            if k > 0 {
                assert(idx[0] < idx[k]);
            }
        }
        assert forall|k: int| 0 <= k < rest.len() implies n.drop_first()[#[trigger] rest[k]] == q[k] by {
            if k > 0 {
                assert(idx[0] < idx[k]);
            }
            assert(n[idx[k]] == q[k]);
        }
        assert forall|k: int, l: int| 0 <= k < l < rest.len() implies rest[k] < rest[l] by {
            assert(idx[k] < idx[l]);
        }
        lemma_embeds_subsequence(q, n.drop_first(), rest);
    }
}

/// The fuzzy match's test is the subsequence relation: the characters of
/// the query appear in the name in order, at increasing positions.
pub proof fn law_subsequence_is_in_order_embedding(q: Seq<char>, n: Seq<char>)
    ensures
        is_subsequence(q, n) <==> embeds(q, n),
{
    if is_subsequence(q, n) {
        lemma_subsequence_embeds(q, n);
    }
    if embeds(q, n) {
        let idx = choose|idx: Seq<int>| embeds_at(q, n, idx);
        lemma_embeds_subsequence(q, n, idx);
    }
}

/// Outside browse mode, discovery shows exactly the projects whose session
/// runs or has exited.
pub proof fn law_discovery_shows_live_sessions(v: StateView, i: int)
    requires
        v.wf(),
        v.use_discovery,
        !v.browse_mode,
        0 <= i < v.projects.len(),
    ensures
        v.filtered().contains(i as usize) <==> !(v.projects[i].status is NotStarted),
{
    lemma_filtered(v);
    if v.filtered().contains(i as usize) {
        let a = choose|a: int| 0 <= a < v.filtered().len() && v.filtered()[a] == i as usize;
        assert(v.shown(v.projects[v.filtered()[a] as int]));
    }
}

/// In the configured mode every project is shown.
pub proof fn law_configured_mode_shows_all(v: StateView, i: int)
    requires
        v.wf(),
        !v.use_discovery,
        0 <= i < v.projects.len(),
    ensures
        v.filtered().contains(i as usize),
{
    lemma_filtered(v);
}

/// Switching to a project through the sidebar clears its attention flag,
/// asks for that project's session, and leaves browse mode.
pub proof fn law_activation_clears_attention(v: StateView)
    requires
        v.wf(),
        v.selected_project() is Some,
    ensures
        ({
            let p = v.projects[v.selected_project()->0 as int];
            &&& !v.activated().attention.contains(p.name)
            &&& v.activated().attention == v.attention.remove(p.name)
            &&& v.activate_actions()[0] == v.switch_action(p)
            &&& !v.activated().browse_mode
            &&& !v.activated().is_focused
        }),
{
}

/// The current session is never killed: killing asks for something only
/// when the selected project's session runs and is not the current one, and
/// then kills exactly that session.
pub proof fn law_current_session_never_killed(v: StateView)
    requires
        v.kill_actions().len() > 0,
    ensures
        v.selected_project() is Some,
        v.projects[v.selected_project()->0 as int].status matches StatusView::Running { is_current: false, .. },
        v.kill_actions() == seq![ActionView::KillSession { name: v.projects[v.selected_project()->0 as int].name }],
{
}

/// Flagging a session for attention, then clearing it, leaves the other
/// flags as they were and the session unflagged; the flag is set in between.
pub proof fn law_attention_then_clear(v: StateView, session: Seq<char>)
    requires
        session.len() > 0,
    ensures
        v.piped(ATTENTION_PREFIX@ + session).state.attention.contains(session),
        v.piped(ATTENTION_PREFIX@ + session).state.piped(CLEAR_PREFIX@ + session).state.attention
            == v.attention.remove(session),
        v.piped(ATTENTION_PREFIX@ + session).actions.len() == 0,
{
    reveal_strlit("sidebar::attention::");
    reveal_strlit("sidebar::clear::");
    reveal_strlit("toggle_sidebar");
    reveal_strlit("new_tab_with_sidebar");
    reveal_strlit("focus_sidebar");
    let a = ATTENTION_PREFIX@ + session;
    let c = CLEAR_PREFIX@ + session;
    assert(a[0] == 's' && a[8] == ':' && a[9] == 'a');
    assert(c[0] == 's' && c[8] == ':' && c[9] == 'c');
    assert(a != "toggle_sidebar"@);
    assert(a != "new_tab_with_sidebar"@);
    assert(ATTENTION_PREFIX@.is_prefix_of(a)) by {
        assert(a.subrange(0, ATTENTION_PREFIX@.len() as int) =~= ATTENTION_PREFIX@);
    }
    assert(a.skip(ATTENTION_PREFIX@.len() as int) =~= session);
    assert(c != "toggle_sidebar"@);
    assert(c != "new_tab_with_sidebar"@);
    assert(!ATTENTION_PREFIX@.is_prefix_of(c)) by {
        assert(ATTENTION_PREFIX@[9] != c[9]);
    }
    assert(CLEAR_PREFIX@.is_prefix_of(c)) by {
        assert(c.subrange(0, CLEAR_PREFIX@.len() as int) =~= CLEAR_PREFIX@);
    }
    assert(c.skip(CLEAR_PREFIX@.len() as int) =~= session);
    assert(v.attention.insert(session).remove(session) =~= v.attention.remove(session));
}

/// After scrolling, the selected project's row, when it is in the list, is
/// among the `rows` visible rows.
pub proof fn law_selection_visible_after_scroll(v: StateView, lines: Seq<RenderLineView>, rows: usize)
    requires
        lines.len() <= usize::MAX,
        rows > 0,
        v.selected_project() is Some,
        row_of(lines, v.selected_project()->0) is Some,
    ensures
        ({
            let y = row_of(lines, v.selected_project()->0)->0;
            let s = v.scrolled(lines, rows).scroll_offset;
            s <= y < s + rows
        }),
{
    lemma_row_of_bound(lines, v.selected_project()->0);
}

/// A row found is within the lines.
pub proof fn lemma_row_of_bound(lines: Seq<RenderLineView>, sel: usize)
    ensures
        row_of(lines, sel) matches Some(y) ==> y < lines.len(),
    decreases lines.len(),
{
    if lines.len() > 0 {
        lemma_row_of_bound(lines.drop_first(), sel);
    }
}


/// `position_named` finds a shown project of that name when there is one.
pub proof fn lemma_position_named_some(ps: Seq<ProjectView>, shown: Seq<usize>, name: Seq<char>, a: int)
    requires
        0 <= a < shown.len(),
        ps[shown[a] as int].name == name,
    ensures
        position_named(ps, shown, name) matches Some(fi) && fi < shown.len() && ps[shown[fi as int] as int].name
            == name,
    decreases a,
{
    if ps[shown[0] as int].name != name {
        let t = shown.drop_first();
        assert(t[a - 1] == shown[a]);
        lemma_position_named_some(ps, t, name, a - 1);
        let fi = position_named(ps, t, name)->0;
        assert(t[fi as int] == shown[fi + 1 as int]);
    }
}

/// Rebuilding the project list keeps the selection on the same project
/// name when a project of that name is still shown.
pub proof fn law_rebuild_keeps_selected_name(v: StateView, name: Seq<char>)
    requires
        v.wf(),
        v.use_discovery,
        v.selected_name() == Some(name),
        ({
            let sorted = StateView { projects: sort_by_name(dir_projects(v.cache, v.discovered_dirs)), ..v };
            exists|a: int| 0 <= a < sorted.filtered().len() && sorted.projects[sorted.filtered()[a] as int].name == name
        }),
        dir_projects(v.cache, v.discovered_dirs).len() <= usize::MAX,
    ensures
        v.rebuilt().selected_name() == Some(name),
{
    reveal(StateView::rebuilt);
    let sorted = StateView { projects: sort_by_name(dir_projects(v.cache, v.discovered_dirs)), ..v };
    let a = choose|a: int| 0 <= a < sorted.filtered().len() && sorted.projects[sorted.filtered()[a] as int].name == name;
    lemma_position_named_some(sorted.projects, sorted.filtered(), name, a);
    let fi = position_named(sorted.projects, sorted.filtered(), name)->0;
    crate::sorting::lemma_sort_by_name_len(dir_projects(v.cache, v.discovered_dirs));
    lemma_filtered(sorted);
    let reselected = StateView { selected_index: fi as usize, ..sorted };
    lemma_filtered_same(reselected, sorted, 0);
    let fin = v.rebuilt();
    lemma_filtered_same(fin, reselected, 0);
}

/// What storing the running sessions leaves under `k`: a running status
/// when a session has that name, nothing otherwise.
pub proof fn lemma_statuses_of(sessions: Seq<SessionView>, k: Seq<char>)
    ensures
        (exists|i: int| 0 <= i < sessions.len() && (#[trigger] sessions[i]).name == k) ==> entry_get(
            statuses_of(sessions),
            k,
        ) matches Some(StatusView::Running { .. }),
        !(exists|i: int| 0 <= i < sessions.len() && (#[trigger] sessions[i]).name == k) ==> entry_get(
            statuses_of(sessions),
            k,
        ) is None,
    decreases sessions.len(),
{
    if sessions.len() > 0 {
        let t = sessions.drop_last();
        lemma_statuses_of(t, k);
        lemma_entry_get_insert(statuses_of(t), sessions.last().name, running_status(sessions.last()), k);
        if exists|i: int| 0 <= i < sessions.len() && (#[trigger] sessions[i]).name == k {
            if sessions.last().name != k {
                let i = choose|i: int| 0 <= i < sessions.len() && (#[trigger] sessions[i]).name == k;
                assert(t[i] == sessions[i]);
            }
        } else {
            assert(sessions[sessions.len() - 1].name != k);
            assert forall|i: int| 0 <= i < t.len() implies (#[trigger] t[i]).name != k by {
                assert(t[i] == sessions[i]);
            }
        }
    }
}

/// Marking names as exited keeps stored statuses, and stores `Exited` for
/// each listed name that had none.
pub proof fn lemma_with_exited(l: Entries, names: Seq<Seq<char>>, k: Seq<char>)
    ensures
        entry_get(with_exited(l, names), k) == match entry_get(l, k) {
            Some(s) => Some(s),
            None => if names.contains(k) {
                Some(StatusView::Exited)
            } else {
                None
            },
        },
    decreases names.len(),
{
    if names.len() > 0 {
        let t = names.drop_last();
        lemma_with_exited(l, t, k);
        let before = with_exited(l, t);
        if entry_get(before, names.last()) is None {
            lemma_entry_get_insert(before, names.last(), StatusView::Exited, k);
        }
        if names.contains(k) && !t.contains(k) {
            let i = choose|i: int| 0 <= i < names.len() && names[i] == k;
            if i < t.len() {
                assert(t[i] == k);
            }
        }
        if t.contains(k) {
            let i = choose|i: int| 0 <= i < t.len() && t[i] == k;
            assert(names[i] == k);
        }
    }
}

/// After a session update, the status stored for a name is running when a
/// running session has that name; else exited when a session of that name
/// can be resurrected; else there is none (the project shows as not started).
pub proof fn law_session_update_statuses(sessions: Seq<SessionView>, resurrectable: Seq<Seq<char>>, k: Seq<char>)
    ensures
        (exists|i: int| 0 <= i < sessions.len() && (#[trigger] sessions[i]).name == k) ==> entry_get(
            statuses_after_update(sessions, resurrectable),
            k,
        ) matches Some(StatusView::Running { .. }),
        !(exists|i: int| 0 <= i < sessions.len() && (#[trigger] sessions[i]).name == k) ==> entry_get(
            statuses_after_update(sessions, resurrectable),
            k,
        ) == if resurrectable.contains(k) {
            Some(StatusView::Exited)
        } else {
            None
        },
{
    lemma_statuses_of(sessions, k);
    lemma_with_exited(statuses_of(sessions), resurrectable, k);
}

/// In discovery mode, `/` starts browsing with an empty search, and Esc
/// then leaves browse mode with the search emptied.
pub proof fn law_browse_then_escape(v: StateView)
    requires
        v.use_discovery,
        !v.browse_mode,
    ensures
        v.key(KeyEvent { code: KeyCode::Char('/'), ctrl: false, alt: false, shift: false, super_key: false }).state
            == v.with_browse(true),
        v.with_browse(true).key(
            KeyEvent { code: KeyCode::Esc, ctrl: false, alt: false, shift: false, super_key: false },
        ).state == v.with_browse(false),
{
}


/// A session that asks for attention shows a red diamond before its name
/// (when the row has room for it), whatever its status and its AI agent.
pub proof fn law_attention_mark(p: ProjectView, ai: Option<AiState>, verbosity: Verbosity, is_selected: bool, cols: usize)
    requires
        cols >= 3,
    ensures
        project_row(p, true, ai, verbosity, is_selected, cols).content[1] == '◆',
        project_row(p, true, ai, verbosity, is_selected, cols).colors[0] == (Coloring::Range {
            level: COLOR_RED,
            start: 1,
            end: 2,
        }),
{
    reveal_strlit(" ");
    reveal_strlit("◆");
    reveal_strlit("…");
    let row = crate::render::row_text(p, true, ai, verbosity);
    assert(row[1] == '◆');
    let shown = fit_with_ellipsis(row, cols);
    if row.len() > cols {
        assert(shown[1] == row.take(cols - 1)[1]);
    }
}

/// A session whose AI agent is known, and that does not ask for attention,
/// shows the agent's mark before its name (when the row has room for it): a
/// green triangle while the agent works, a cyan square when it is idle or
/// waiting. The current session's row is green in whole, so the mark of a
/// working agent there is colored with the row.
pub proof fn law_ai_mark(p: ProjectView, a: AiState, verbosity: Verbosity, is_selected: bool, cols: usize)
    requires
        cols >= 3,
    ensures
        project_row(p, false, Some(a), verbosity, is_selected, cols).content[1] == ai_mark(a)[0],
        !is_current_session(p.status) || a != AiState::Active ==> project_row(
            p,
            false,
            Some(a),
            verbosity,
            is_selected,
            cols,
        ).colors[0] == (Coloring::Range { level: ai_color(a), start: 1, end: 2 }),
{
    reveal_strlit(" ");
    reveal_strlit("▶");
    reveal_strlit("■");
    reveal_strlit("…");
    let row = crate::render::row_text(p, false, Some(a), verbosity);
    assert(row[1] == ai_mark(a)[0]);
    let shown = fit_with_ellipsis(row, cols);
    if row.len() > cols {
        assert(shown[1] == row.take(cols - 1)[1]);
    }
}

/// The row of the current session is green in whole, unless its session
/// asks for attention or its AI agent is idle or waiting.
pub proof fn law_current_session_green(
    p: ProjectView,
    ai: Option<AiState>,
    verbosity: Verbosity,
    is_selected: bool,
    cols: usize,
)
    requires
        is_current_session(p.status),
        ai is None || ai == Some(AiState::Active),
    ensures
        project_row(p, false, ai, verbosity, is_selected, cols).colors == seq![
            Coloring::Range {
                level: COLOR_GREEN,
                start: 0,
                end: project_row(p, false, ai, verbosity, is_selected, cols).content.len() as usize,
            },
        ],
{
    let r = project_row(p, false, ai, verbosity, is_selected, cols);
    assert(r.colors =~= seq![
        Coloring::Range { level: COLOR_GREEN, start: 0, end: r.content.len() as usize },
    ]);
}

/// Moving down then up returns to the same selection when there was a
/// project below; moving up then down does when there was one above.
pub proof fn law_down_then_up(v: StateView)
    requires
        v.wf(),
        v.selected_index + 1 < v.filtered().len(),
    ensures
        v.moved_down().moved_up() == v,
{
    lemma_filtered(v);
    let d = v.moved_down();
    assert(d.selected_index == v.selected_index + 1);
    assert(d.moved_up().selected_index == v.selected_index);
    assert(d.moved_up() == StateView { selected_index: v.selected_index, ..v });
}

/// Moving up then down returns to the same selection when there was a
/// project above and the selection is shown.
pub proof fn law_up_then_down(v: StateView)
    requires
        0 < v.selected_index < v.filtered().len(),
    ensures
        v.moved_up().moved_down() == v,
{
    let u = v.moved_up();
    crate::state::lemma_filtered_same(u, v, 0);
}

/// Toggling twice gives the focus back as it was; the sidebar is made
/// selectable exactly when it takes the focus.
pub proof fn law_toggle_twice(v: StateView)
    ensures
        v.toggled().toggled().is_focused == v.is_focused,
        v.toggle_actions()[0] == ActionView::SetSelectable(!v.is_focused),
        v.toggled().toggle_actions()[0] == ActionView::SetSelectable(v.is_focused),
{
}

/// A pipe message of another name changes nothing and asks for no redraw.
pub proof fn law_unknown_pipe_message(v: StateView, name: Seq<char>)
    requires
        name != "toggle_sidebar"@,
        name != "new_tab_with_sidebar"@,
        name != "focus_sidebar"@,
        !ATTENTION_PREFIX@.is_prefix_of(name),
        !CLEAR_PREFIX@.is_prefix_of(name),
        !AI_ACTIVE_PREFIX@.is_prefix_of(name),
        !AI_IDLE_PREFIX@.is_prefix_of(name),
        !AI_WAITING_PREFIX@.is_prefix_of(name),
    ensures
        v.piped(name).state == v,
        v.piped(name).actions.len() == 0,
        !v.piped(name).redraw,
{
}

/// Everything drawn lies on the screen, and the project rows stay above
/// the footer row.
pub proof fn law_draws_fit_rows(v: StateView, rows: usize, cols: usize)
    requires
        rows >= 2,
    ensures
        forall|k: int|
            0 <= k < v.drawn(rows, cols).1.len() ==> (#[trigger] v.drawn(rows, cols).1[k] matches DrawView::Text {
                y,
                ..
            } ==> y < rows),
{
    let d = v.drawn(rows, cols).1;
    assert forall|k: int| 0 <= k < d.len() implies (#[trigger] d[k] matches DrawView::Text { y, .. } ==> y < rows) by {
        if v.permissions_granted && v.initial_load_complete && v.projects.len() > 0 && v.render_lines().len() > 0 {
            let y_offset: usize = if v.browse_mode { 1 } else { 0 };
            let footer_y = (rows - 1) as usize;
            let content_area: usize = if footer_y > y_offset { (footer_y - y_offset) as usize } else { 0 };
            let lines = v.render_lines();
            let s1 = v.scrolled(lines, content_area);
            let start = s1.scroll_offset;
            let end = if start + content_area <= lines.len() { start + content_area } else { lines.len() as int };
            let count = if end > start { end - start } else { 0 };
            let search_len: int = if v.browse_mode { 1 } else { 0 };
            if search_len <= k < search_len + count {
                let i = k - search_len;
                assert(d[k] == s1.line_draw(lines[start + i], (i + y_offset) as usize, cols));
            }
        }
    }
}

/// After clamping, the selection points at a shown project, or is 0 when
/// none is shown; a selection already in range stays.
pub proof fn law_clamp_in_range(v: StateView)
    ensures
        v.filtered().len() == 0 ==> v.clamped().selected_index == 0,
        v.filtered().len() > 0 ==> v.clamped().selected_index < v.filtered().len(),
        v.selected_index < v.filtered().len() ==> v.clamped().selected_index == v.selected_index,
{
}

/// Moving down keeps the selection within the shown projects.
pub proof fn law_down_stays_in_list(v: StateView)
    requires
        v.filtered().len() > 0,
    ensures
        v.moved_down().selected_index < v.filtered().len(),
{
}

/// A line cut with an ellipsis is as long as the columns allow (one at
/// least), and keeps a line that fits as it is.
pub proof fn law_ellipsis_fits(line: Seq<char>, cols: usize)
    ensures
        line.len() <= cols ==> fit_with_ellipsis(line, cols) == line,
        line.len() > cols ==> fit_with_ellipsis(line, cols).len() == if cols == 0 {
            1
        } else {
            cols as int
        },
        line.len() > cols ==> fit_with_ellipsis(line, cols).last() == '…',
{
    reveal_strlit("…");
}

/// Inserting into a list in key order keeps it in key order, and adds
/// exactly the one project.
pub proof fn lemma_insert_by_name_sorted(s: Seq<ProjectView>, p: ProjectView)
    requires
        forall|i: int, j: int| 0 <= i < j < s.len() ==> !seq_less(name_key(s[j]), name_key(s[i])),
    ensures
        forall|i: int, j: int|
            0 <= i < j < insert_by_name(s, p).len() ==> !seq_less(
                name_key(insert_by_name(s, p)[j]),
                name_key(insert_by_name(s, p)[i]),
            ),
        insert_by_name(s, p).to_multiset() == s.to_multiset().insert(p),
    decreases s.len(),
{
    broadcast use vstd::seq_lib::group_to_multiset_ensures;
    if s.len() == 0 {
        assert(insert_by_name(s, p) =~= seq![p]);
        assert(s =~= Seq::<ProjectView>::empty());
        assert(seq![p] =~= Seq::<ProjectView>::empty().push(p));
    } else if seq_less(name_key(p), name_key(s.last())) {
        let t = s.drop_last();
        lemma_insert_by_name_sorted(t, p);
        let r = insert_by_name(t, p);
        lemma_insert_keys(t, p);
        assert forall|i: int, j: int| 0 <= i < j < r.push(s.last()).len() implies !seq_less(
            name_key(r.push(s.last())[j]),
            name_key(r.push(s.last())[i]),
        ) by {
            if j == r.len() {
                let e = r[i];
                assert(r.contains(e));
                if e == p {
                    lemma_seq_less_total(name_key(p), name_key(s.last()));
                } else {
                    let m = choose|m: int| 0 <= m < t.len() && t[m] == e;
                    assert(t[m] == s[m]);
                    assert(!seq_less(name_key(s[s.len() - 1]), name_key(s[m])));
                }
            }
        }
        assert(s =~= t.push(s.last()));
    } else {
        assert forall|i: int, j: int| 0 <= i < j < s.push(p).len() implies !seq_less(
            name_key(s.push(p)[j]),
            name_key(s.push(p)[i]),
        ) by {
            if j == s.len() && i < s.len() - 1 {
                if seq_less(name_key(p), name_key(s[i])) {
                    assert(!seq_less(name_key(s[s.len() - 1]), name_key(s[i])));
                    lemma_seq_less_total(name_key(s[s.len() - 1]), name_key(s[i]));
                    if name_key(s[s.len() - 1]) != name_key(s[i]) {
                        lemma_seq_less_transitive(name_key(p), name_key(s[i]), name_key(s[s.len() - 1]));
                    }
                }
            }
        }
    }
}

/// Every project of an insertion is the inserted one or one from before.
proof fn lemma_insert_keys(s: Seq<ProjectView>, p: ProjectView)
    ensures
        forall|e: ProjectView| #[trigger] insert_by_name(s, p).contains(e) ==> e == p || s.contains(e),
    decreases s.len(),
{
    if s.len() > 0 && seq_less(name_key(p), name_key(s.last())) {
        let t = s.drop_last();
        lemma_insert_keys(t, p);
        assert forall|e: ProjectView| #[trigger] insert_by_name(s, p).contains(e) implies e == p || s.contains(e) by {
            let r = insert_by_name(t, p);
            let m = choose|m: int| 0 <= m < r.push(s.last()).len() && r.push(s.last())[m] == e;
            if m < r.len() {
                assert(r.contains(e));
                if e != p {
                    let k = choose|k: int| 0 <= k < t.len() && t[k] == e;
                    assert(s[k] == e);
                }
            } else {
                assert(s[s.len() - 1] == e);
            }
        }
    } else {
        assert forall|e: ProjectView| #[trigger] insert_by_name(s, p).contains(e) implies e == p || s.contains(e) by {
            if s.len() > 0 {
                let m = choose|m: int| 0 <= m < s.push(p).len() && s.push(p)[m] == e;
                if m < s.len() {
                    assert(s[m] == e);
                }
            }
        }
    }
}

/// Rebuilt project lists are in the order of the lowercased names, and
/// hold exactly the projects they were built from.
pub proof fn law_projects_sorted_by_name(s: Seq<ProjectView>)
    ensures
        forall|i: int, j: int|
            0 <= i < j < sort_by_name(s).len() ==> !seq_less(name_key(sort_by_name(s)[j]), name_key(sort_by_name(s)[i])),
        sort_by_name(s).to_multiset() == s.to_multiset(),
    decreases s.len(),
{
    broadcast use vstd::seq_lib::group_to_multiset_ensures;
    if s.len() > 0 {
        law_projects_sorted_by_name(s.drop_last());
        lemma_insert_by_name_sorted(sort_by_name(s.drop_last()), s.last());
        assert(s =~= s.drop_last().push(s.last()));
    } else {
        assert(sort_by_name(s) =~= s);
    }
}


/// A prefix of a subsequence of `n` is a subsequence of `n`.
pub proof fn lemma_subsequence_prefix(p: Seq<char>, q: Seq<char>, n: Seq<char>)
    requires
        p.is_prefix_of(q),
        is_subsequence(q, n),
    ensures
        is_subsequence(p, n),
    decreases n.len(),
{
    if p.len() > 0 && n.len() > 0 {
        assert(p[0] == q[0]);
        if q[0] == n[0] {
            assert(p.drop_first().is_prefix_of(q.drop_first())) by {
                assert forall|i: int| 0 <= i < p.drop_first().len() implies p.drop_first()[i] == q.drop_first()[i] by {
                    assert(p[i + 1] == q[i + 1]);
                }
            }
            lemma_subsequence_prefix(p.drop_first(), q.drop_first(), n.drop_first());
        } else {
            lemma_subsequence_prefix(p, q, n.drop_first());
        }
    }
}

/// Typing a search character never adds matches, and Backspace never
/// removes any: when the query `q1` lowercases to a prefix of what the query
/// `q2` lowercases to, every name that `q2` matches is matched by `q1`.
pub proof fn law_narrower_query_matches_fewer(name: Seq<char>, q1: Seq<char>, q2: Seq<char>)
    requires
        lowercase(q1).is_prefix_of(lowercase(q2)),
        fuzzy_match(name, q2),
    ensures
        fuzzy_match(name, q1),
{
    lemma_subsequence_prefix(lowercase(q1), lowercase(q2), lowercase(name));
}


/// A pipe message that reports a session's AI agent, with a non-empty
/// session name after its prefix, records what the agent is doing for that
/// session, asks nothing of the host and asks for a redraw: working after
/// `sidebar::ai-active::`, idle after `sidebar::ai-idle::`, waiting after
/// `sidebar::ai-waiting::`.
pub proof fn law_ai_pipes(v: StateView, s: Seq<char>)
    requires
        s.len() > 0,
    ensures
        v.piped(AI_ACTIVE_PREFIX@ + s).state == (StateView { ai: v.ai.insert(s, AiState::Active), ..v }),
        v.piped(AI_IDLE_PREFIX@ + s).state == (StateView { ai: v.ai.insert(s, AiState::Idle), ..v }),
        v.piped(AI_WAITING_PREFIX@ + s).state == (StateView { ai: v.ai.insert(s, AiState::Waiting), ..v }),
        v.piped(AI_ACTIVE_PREFIX@ + s).redraw && v.piped(AI_ACTIVE_PREFIX@ + s).actions.len() == 0,
        v.piped(AI_IDLE_PREFIX@ + s).redraw && v.piped(AI_IDLE_PREFIX@ + s).actions.len() == 0,
        v.piped(AI_WAITING_PREFIX@ + s).redraw && v.piped(AI_WAITING_PREFIX@ + s).actions.len() == 0,
{
    reveal_strlit("toggle_sidebar");
    reveal_strlit("new_tab_with_sidebar");
    reveal_strlit("sidebar::attention::");
    reveal_strlit("sidebar::clear::");
    reveal_strlit("sidebar::ai-active::");
    reveal_strlit("sidebar::ai-idle::");
    reveal_strlit("sidebar::ai-waiting::");
    let na = AI_ACTIVE_PREFIX@ + s;
    let ni = AI_IDLE_PREFIX@ + s;
    let nw = AI_WAITING_PREFIX@ + s;
    assert(na[0] == 's' && ni[0] == 's' && nw[0] == 's');
    assert(na[10] == 'i' && ni[10] == 'i' && nw[10] == 'i');
    assert(na[12] == 'a' && ni[12] == 'i' && nw[12] == 'w');
    assert(na.len() > 20 && ni.len() > 18 && nw.len() > 21);
    assert(ATTENTION_PREFIX@[10] == 't');
    assert(CLEAR_PREFIX@[9] == 'c' && na[9] == 'a' && ni[9] == 'a' && nw[9] == 'a');
    assert(AI_ACTIVE_PREFIX@.is_prefix_of(na)) by {
        assert(na.take(AI_ACTIVE_PREFIX@.len() as int) =~= AI_ACTIVE_PREFIX@);
    }
    assert(AI_IDLE_PREFIX@.is_prefix_of(ni)) by {
        assert(ni.take(AI_IDLE_PREFIX@.len() as int) =~= AI_IDLE_PREFIX@);
    }
    assert(AI_WAITING_PREFIX@.is_prefix_of(nw)) by {
        assert(nw.take(AI_WAITING_PREFIX@.len() as int) =~= AI_WAITING_PREFIX@);
    }
    assert(!AI_ACTIVE_PREFIX@.is_prefix_of(ni)) by {
        assert(AI_ACTIVE_PREFIX@[12] == 'a');
    }
    assert(!AI_ACTIVE_PREFIX@.is_prefix_of(nw)) by {
        assert(AI_ACTIVE_PREFIX@[12] == 'a');
    }
    assert(!AI_IDLE_PREFIX@.is_prefix_of(nw)) by {
        assert(AI_IDLE_PREFIX@[12] == 'i');
    }
    assert(na.skip(AI_ACTIVE_PREFIX@.len() as int) =~= s);
    assert(ni.skip(AI_IDLE_PREFIX@.len() as int) =~= s);
    assert(nw.skip(AI_WAITING_PREFIX@.len() as int) =~= s);
}


/// In the lines of some shown projects, the row of a project whose AI
/// agent is known is followed by its detail line.
proof fn lemma_detail_follows_row(v: StateView, shown: Seq<usize>, k: int, p: usize)
    requires
        0 <= k < v.project_lines(shown).len(),
        v.project_lines(shown)[k] == RenderLineView::ProjectRow(p),
        v.ai_of(v.projects[p as int].name) is Some,
    ensures
        k + 1 < v.project_lines(shown).len(),
        v.project_lines(shown)[k + 1] == RenderLineView::Detail(p),
    decreases shown.len(),
{
    let before = v.project_lines(shown.drop_last());
    if k < before.len() {
        lemma_detail_follows_row(v, shown.drop_last(), k, p);
    }
}

/// A session whose AI agent is known shows a detail line right under its
/// project's row, drawn gray as `ai agent` (indented under the name).
pub proof fn law_detail_line_under_ai_row(v: StateView, k: int, p: usize, y: usize, cols: usize)
    requires
        0 <= k < v.render_lines().len(),
        v.render_lines()[k] == RenderLineView::ProjectRow(p),
        v.ai_of(v.projects[p as int].name) is Some,
    ensures
        k + 1 < v.render_lines().len(),
        v.render_lines()[k + 1] == RenderLineView::Detail(p),
        v.line_draw(v.render_lines()[k + 1], y, cols) == gray_text(fit(AI_DETAIL@, cols), y, cols),
{
    let rows = v.project_lines(v.filtered());
    if v.use_discovery && v.browse_mode && v.filtered().len() > 0 {
        let lines = v.render_lines();
        if k == 0 {
            assert(lines[0] == RenderLineView::Header(all_projects_heading()));
        } else {
            assert(lines[k] == rows[k - 1]);
            lemma_detail_follows_row(v, v.filtered(), k - 1, p);
            assert(lines[k + 1] == rows[k]);
        }
    } else {
        lemma_detail_follows_row(v, v.filtered(), k, p);
    }
}


/// A value that occurs in `s` has a position there, which holds it.
proof fn lemma_position_of(s: Seq<usize>, x: usize)
    requires
        s.contains(x),
    ensures
        position_of(s, x) matches Some(i) && i < s.len() && s[i as int] == x,
    decreases s.len(),
{
    if s[0] != x {
        let j = choose|j: int| 0 <= j < s.len() && s[j] == x;
        assert(s.drop_first()[j - 1] == x);
        lemma_position_of(s.drop_first(), x);
    }
}

/// A left click on a screen row acts on the line that the render draws on
/// that row. For a row of the project list below the search bar, the draw
/// there is the line at the scroll offset plus the row's distance from the
/// list's top; when that line is a project's row or its detail line, the
/// click switches to that very project and makes the sidebar unselectable;
/// on a heading it asks nothing of the host.
pub proof fn law_click_acts_on_drawn_line(v: StateView, rows: usize, cols: usize, y: isize)
    requires
        v.wf(),
        rows >= 2,
        y >= 0,
        v.permissions_granted,
        v.initial_load_complete,
        v.projects.len() > 0,
        v.render_lines().len() > 0,
        (if v.browse_mode { 1int } else { 0int }) <= y < rows - 1,
        v.drawn(rows, cols).0.scroll_offset + (y - if v.browse_mode { 1int } else { 0int }) < v.render_lines().len(),
    ensures
        ({
            let s1 = v.drawn(rows, cols).0;
            let top: int = if v.browse_mode { 1 } else { 0 };
            let line = v.render_lines()[s1.scroll_offset + (y - top)];
            &&& v.drawn(rows, cols).1[top + (y - top)] == s1.line_draw(line, y as usize, cols)
            &&& match line {
                RenderLineView::ProjectRow(p) => s1.clicked(y).actions == seq![
                    s1.switch_action(s1.projects[p as int]),
                    ActionView::SetSelectable(false),
                ],
                RenderLineView::Detail(p) => s1.clicked(y).actions == seq![
                    s1.switch_action(s1.projects[p as int]),
                    ActionView::SetSelectable(false),
                ],
                RenderLineView::Header(_) => s1.clicked(y).actions.len() == 0,
            }
        }),
{
    let lines = v.render_lines();
    let top: int = if v.browse_mode { 1 } else { 0 };
    let y_offset: usize = if v.browse_mode { 1 } else { 0 };
    let footer_y = (rows - 1) as usize;
    let content_area: usize = if footer_y > y_offset { (footer_y - y_offset) as usize } else { 0 };
    let s1 = v.scrolled(lines, content_area);
    assert(v.drawn(rows, cols).0 == s1);
    lemma_filtered_same(s1, v, 0);
    let start = s1.scroll_offset;
    let k = y - top;
    let end = if start + content_area <= lines.len() { start + content_area } else { lines.len() as int };
    assert(k < content_area);
    assert(start + k < end);
    assert(v.drawn(rows, cols).1[top + k] == s1.line_draw(lines[start + k], (k + y_offset) as usize, cols));
    let line = lines[start + k];
    let idx = s1.scroll_offset + ((y as usize) - y_offset);
    assert(idx == start + k);
    let shown = s1.filtered();
    lemma_project_lines(s1, shown);
    let rows_lines = s1.project_lines(shown);
    let p_opt: Option<usize> = match line {
        RenderLineView::ProjectRow(p) => Some(p),
        RenderLineView::Detail(p) => Some(p),
        RenderLineView::Header(_) => None,
    };
    if let Some(p) = p_opt {
        if s1.use_discovery && s1.browse_mode && shown.len() > 0 {
            assert(start + k >= 1);
            assert(lines[start + k] == rows_lines[start + k - 1]);
        } else {
            assert(lines[start + k] == rows_lines[start + k]);
        }
        assert(shown.contains(p));
        lemma_position_of(shown, p);
        lemma_filtered(s1);
        let fi = position_of(shown, p)->0;
        let chosen = StateView { selected_index: fi as usize, ..s1 };
        lemma_filtered_same(chosen, s1, 0);
        assert(chosen.selected_project() == Some(p));
    }
}

/// In browse mode of discovery, the shown projects are exactly those whose
/// lowercased name holds the lowercased search query's characters in order;
/// nothing else of a project, such as its path, takes part.
pub proof fn law_browse_filters_by_name(v: StateView)
    requires
        v.use_discovery,
        v.browse_mode,
        v.projects.len() <= usize::MAX,
    ensures
        forall|i: int|
            0 <= i < v.projects.len() ==> (v.filtered().contains(i as usize) <==> is_subsequence(
                lowercase(v.search_query),
                lowercase(#[trigger] v.projects[i].name),
            )),
{
    lemma_filtered(v);
    assert forall|i: int| 0 <= i < v.projects.len() implies (v.filtered().contains(i as usize) <==> is_subsequence(
        lowercase(v.search_query),
        lowercase(#[trigger] v.projects[i].name),
    )) by {
        if v.filtered().contains(i as usize) {
            let a = choose|a: int| 0 <= a < v.filtered().len() && v.filtered()[a] == i as usize;
            assert(v.shown(v.projects[v.filtered()[a] as int]));
        }
    }
}

/// The pane taken as focused is one of the panes, has the focus, is not a
/// plugin and is not suppressed, and no pane before it is such a pane; when
/// none is taken, no pane is.
pub proof fn law_focused_terminal(panes: Seq<PaneView>)
    ensures
        match focused_terminal(panes) {
            Some(p) => exists|i: int|
                0 <= i < panes.len() && #[trigger] panes[i] == p && p.is_focused && !p.is_plugin && !p.is_suppressed
                    && forall|j: int|
                    0 <= j < i ==> !(#[trigger] panes[j].is_focused && !panes[j].is_plugin && !panes[j].is_suppressed),
            None => forall|j: int|
                0 <= j < panes.len() ==> !(#[trigger] panes[j].is_focused && !panes[j].is_plugin && !panes[j].is_suppressed),
        },
    decreases panes.len(),
{
    if panes.len() > 0 {
        law_focused_terminal(panes.drop_first());
        if !(panes[0].is_focused && !panes[0].is_plugin && !panes[0].is_suppressed) {
            match focused_terminal(panes.drop_first()) {
                Some(p) => {
                    let i = choose|i: int|
                        0 <= i < panes.drop_first().len() && #[trigger] panes.drop_first()[i] == p && p.is_focused
                            && !p.is_plugin && !p.is_suppressed && forall|j: int|
                            0 <= j < i ==> !(#[trigger] panes.drop_first()[j].is_focused
                                && !panes.drop_first()[j].is_plugin && !panes.drop_first()[j].is_suppressed);
                    assert(panes[i + 1] == p);
                    assert forall|j: int| 0 <= j < i + 1 implies !(#[trigger] panes[j].is_focused && !panes[j].is_plugin
                        && !panes[j].is_suppressed) by {
                        if j > 0 {
                            assert(panes[j] == panes.drop_first()[j - 1]);
                        }
                    }
                },
                None => {
                    assert forall|j: int| 0 <= j < panes.len() implies !(#[trigger] panes[j].is_focused
                        && !panes[j].is_plugin && !panes[j].is_suppressed) by {
                        if j > 0 {
                            assert(panes[j] == panes.drop_first()[j - 1]);
                        }
                    }
                },
            }
        } else {
            assert(panes[0] == panes[0]);
        }
    }
}

/// A session's active command is that of a pane of its active tab (`panes`
/// are that tab's panes) that has the focus and is a terminal the user sees
/// (not a plugin, not suppressed), shortened to its final path component; a
/// pane without the focus never gives it. Without such a pane there is none.
pub proof fn law_active_command_from_focused_pane(s: SessionView, tab: TabData, panes: Seq<PaneView>)
    requires
        first_active_tab(s.tabs) == Some(tab),
        panes_of_tab(s.panes, tab.position) == Some(panes),
    ensures
        active_command(s) is Some ==> exists|i: int|
            0 <= i < panes.len() && (#[trigger] panes[i]).is_focused && !panes[i].is_plugin && !panes[i].is_suppressed
                && panes[i].terminal_command is Some && active_command(s)->0 == base_name_or(
                panes[i].terminal_command->0,
                panes[i].terminal_command->0,
            ),
        (forall|j: int|
            0 <= j < panes.len() ==> !(#[trigger] panes[j].is_focused && !panes[j].is_plugin && !panes[j].is_suppressed))
            ==> active_command(s) is None,
{
    law_focused_terminal(panes);
    if let Some(p) = focused_terminal(panes) {
        let i = choose|i: int|
            0 <= i < panes.len() && #[trigger] panes[i] == p && p.is_focused && !p.is_plugin && !p.is_suppressed
                && forall|j: int|
                0 <= j < i ==> !(#[trigger] panes[j].is_focused && !panes[j].is_plugin && !panes[j].is_suppressed);
        assert(panes[i] == p);
    }
}

/// In browse mode with a search query typed, the first thing drawn is the
/// search bar, on the top row, reading ` / ` and the query (cut to the
/// columns); before anything is typed it reads ` / search...`.
pub proof fn law_search_bar_shows_query(v: StateView, rows: usize, cols: usize)
    requires
        v.permissions_granted,
        v.initial_load_complete,
        v.projects.len() > 0,
        v.browse_mode,
    ensures
        v.drawn(rows, cols).1.len() > 0,
        v.drawn(rows, cols).1[0] matches DrawView::Text { text, y, .. } && y == 0 && text.content == fit(
            if v.search_query.len() > 0 {
                " / "@ + v.search_query
            } else {
                " / search..."@
            },
            cols,
        ),
{
}

/// Delete while browsing kills nothing: it asks nothing of the host and
/// leaves the state as it is.
pub proof fn law_no_kill_while_browsing(v: StateView, k: KeyEvent)
    requires
        v.browse_mode,
        k.code == KeyCode::Delete,
    ensures
        v.key(k).actions.len() == 0,
        v.key(k).state == v,
{
}

} // verus!
