//! The sidebar: which rows it shows, its cursor and its scroll offset.

use crate::app::{
    AppModel, AppState, Command, CommandModel, Commands, Mode, ProjectModel, SidebarRow,
    WorktreeModel,
};
use crate::mutate;
use crate::layout::{chrome, chrome_of, ChromeRects};
use vstd::prelude::*;

verus! {

/// What a step makes of the state, and the commands it asks for.
pub type Step = (AppModel, Seq<CommandModel>);

/// A step that asks for nothing.
pub open spec fn quiet(m: AppModel) -> Step {
    (m, seq![])
}

// ---------------------------------------------------------------------------
// Rows
// ---------------------------------------------------------------------------

/// The rows of project `i`: its header, and its worktrees unless it is folded.
pub open spec fn project_rows(i: int, p: ProjectModel) -> Seq<SidebarRow> {
    seq![SidebarRow::Project(i as usize)] + (if p.expanded {
        Seq::new(p.worktrees.len(), |w: int| SidebarRow::Worktree(i as usize, w as usize))
    } else {
        seq![]
    })
}

/// The rows of the sidebar, top down.
pub open spec fn visible_rows(projects: Seq<ProjectModel>) -> Seq<SidebarRow>
    decreases projects.len(),
{
    if projects.len() == 0 {
        seq![]
    } else {
        visible_rows(projects.drop_last()) + project_rows(projects.len() - 1, projects.last())
    }
}

/// Flatten the currently-visible sidebar rows (respecting collapsed projects).
pub fn sidebar_visible_rows(state: &AppState) -> (r: Vec<SidebarRow>)
    ensures
        r@ == visible_rows(state@.projects),
{
    let ghost all = state@.projects;
    let mut rows: Vec<SidebarRow> = Vec::new();
    let mut pi: usize = 0;
    while pi < state.projects.len()
        invariant
            pi <= state.projects.len(),
            all == state@.projects,
            rows@ == visible_rows(all.take(pi as int)),
        decreases state.projects.len() - pi,
    {
        let ghost before = rows@;
        let ghost p = all[pi as int];
        assert(all.take(pi + 1).drop_last() =~= all.take(pi as int));
        assert(all.take(pi + 1).last() == p);
        rows.push(SidebarRow::Project(pi));
        if state.projects[pi].expanded {
            let n: usize = state.projects[pi].worktrees.len();
            let mut wi: usize = 0;
            let ghost leaves = Seq::new(
                n as nat,
                |w: int| SidebarRow::Worktree(pi as usize, w as usize),
            );
            while wi < n
                invariant
                    wi <= n,
                    leaves == Seq::new(
                        n as nat,
                        |w: int| SidebarRow::Worktree(pi as usize, w as usize),
                    ),
                    rows@ =~= before + seq![SidebarRow::Project(pi)] + leaves.take(wi as int),
                decreases n - wi,
            {
                rows.push(SidebarRow::Worktree(pi, wi));
                assert(leaves.take(wi + 1) =~= leaves.take(wi as int).push(leaves[wi as int]));
                wi += 1;
            }
            assert(leaves.take(n as int) =~= leaves);
        }
        assert(rows@ =~= before + project_rows(pi as int, p));
        pi += 1;
    }
    assert(all.take(all.len() as int) =~= all);
    rows
}

/// Every row is of a project that is there, and a worktree row of a worktree
/// that is there and of a project that is unfolded.
pub proof fn law_rows_are_there(projects: Seq<ProjectModel>, k: int)
    requires
        0 <= k < visible_rows(projects).len(),
        projects.len() <= usize::MAX,
        forall|i: int|
            0 <= i < projects.len() ==> (#[trigger] projects[i]).worktrees.len() <= usize::MAX,
    ensures
        match visible_rows(projects)[k] {
            SidebarRow::Project(p) => p < projects.len(),
            SidebarRow::Worktree(p, w) => p < projects.len() && projects[p as int].expanded && w
                < projects[p as int].worktrees.len(),
        },
    decreases projects.len(),
{
    let front = visible_rows(projects.drop_last());
    if k < front.len() {
        assert forall|i: int| 0 <= i < projects.drop_last().len() implies (
        #[trigger] projects.drop_last()[i]).worktrees.len() <= usize::MAX by {
            assert(projects.drop_last()[i] == projects[i]);
        }
        law_rows_are_there(projects.drop_last(), k);
        assert(visible_rows(projects)[k] == front[k]);
    } else {
        let rows = project_rows(projects.len() - 1, projects.last());
        assert(visible_rows(projects)[k] == rows[k - front.len()]);
        assert(projects[projects.len() - 1].worktrees.len() <= usize::MAX);
    }
}

/// The row that the cursor means.
pub open spec fn row_of(sel: (usize, Option<usize>)) -> SidebarRow {
    match sel.1 {
        Some(w) => SidebarRow::Worktree(sel.0, w),
        None => SidebarRow::Project(sel.0),
    }
}

/// The cursor on a row.
pub open spec fn selection_of(row: SidebarRow) -> (usize, Option<usize>) {
    match row {
        SidebarRow::Project(p) => (p, None),
        SidebarRow::Worktree(p, w) => (p, Some(w)),
    }
}

/// The cursor and the row it is on tell the same.
pub proof fn law_cursor_and_row_agree(sel: (usize, Option<usize>), row: SidebarRow)
    ensures
        selection_of(row_of(sel)) == sel,
        row_of(selection_of(row)) == row,
{
}

fn selection_to_row(state: &AppState) -> (r: Option<SidebarRow>)
    ensures
        r == (match state.sidebar_selection {
            Some(sel) => Some(row_of(sel)),
            None => None,
        }),
{
    match state.sidebar_selection {
        Some((p, Some(w))) => Some(SidebarRow::Worktree(p, w)),
        Some((p, None)) => Some(SidebarRow::Project(p)),
        None => None,
    }
}

/// The cursor on a row.
pub fn row_to_selection(row: SidebarRow) -> (r: (usize, Option<usize>))
    ensures
        r == selection_of(row),
{
    match row {
        SidebarRow::Project(p) => (p, None),
        SidebarRow::Worktree(p, w) => (p, Some(w)),
    }
}

/// Where `row` first stands in `rows` from `from` on.
pub open spec fn row_place(rows: Seq<SidebarRow>, row: SidebarRow, from: int) -> Option<int>
    decreases rows.len() - from,
{
    if from < 0 || from >= rows.len() {
        None
    } else if rows[from] == row {
        Some(from)
    } else {
        row_place(rows, row, from + 1)
    }
}

/// Where `row` first stands in `rows`.
pub fn find_row(rows: &Vec<SidebarRow>, row: SidebarRow) -> (r: Option<usize>)
    ensures
        match r {
            Some(i) => i < rows.len() && row_place(rows@, row, 0) == Some(i as int),
            None => row_place(rows@, row, 0) is None,
        },
{
    let mut i: usize = 0;
    while i < rows.len()
        invariant
            i <= rows.len(),
            row_place(rows@, row, 0) == row_place(rows@, row, i as int),
        decreases rows.len() - i,
    {
        if rows[i] == row {
            return Some(i);
        }
        i += 1;
    }
    None
}

// ---------------------------------------------------------------------------
// Scrolling
// ---------------------------------------------------------------------------

/// The rows of the sidebar below its title.
pub open spec fn inner_rows(regions: ChromeRects) -> u16 {
    if regions.sidebar.height > 0 {
        (regions.sidebar.height - 1) as u16
    } else {
        0
    }
}

/// The rows of the sidebar below its title.
pub fn sidebar_inner_rows(regions: &ChromeRects) -> (r: u16)
    ensures
        r == inner_rows(*regions),
{
    if regions.sidebar.height > 0 {
        regions.sidebar.height - 1
    } else {
        0
    }
}

/// The regions of the screen as they are.
pub open spec fn regions_of(m: AppModel) -> ChromeRects {
    chrome_of(m.term_size.rect(), m.sidebar_width)
}

/// The regions of the screen as they are.
pub fn regions(state: &AppState) -> (r: ChromeRects)
    ensures
        r == regions_of(state@),
{
    chrome(state.term_size.as_rect(), state.sidebar_width)
}

/// The scroll offset that keeps `row` in a window of `inner` rows.
pub open spec fn scroll_to(scroll: u16, row: u16, inner: u16) -> u16 {
    if inner == 0 {
        scroll
    } else if row < scroll {
        row
    } else if row >= scroll + inner {
        (row + 1 - inner) as u16
    } else {
        scroll
    }
}

/// After scrolling to a row, the row is in the window.
pub proof fn law_scrolling_shows_the_row(scroll: u16, row: u16, inner: u16)
    requires
        inner > 0,
    ensures
        scroll_to(scroll, row, inner) <= row < scroll_to(scroll, row, inner) + inner,
        scroll <= row < scroll + inner ==> scroll_to(scroll, row, inner) == scroll,
{
}

/// The state with `row` in the sidebar's window.
pub open spec fn shown(m: AppModel, row: u16) -> AppModel {
    AppModel { sidebar_scroll: scroll_to(m.sidebar_scroll, row, inner_rows(regions_of(m))), ..m }
}

/// Keep `row_idx` (an index into `sidebar_visible_rows`) within the visible
/// window by scrolling the sidebar up or down as needed.
pub fn ensure_selection_visible(state: &mut AppState, row_idx: u16)
    ensures
        final(state)@ == shown(old(state)@, row_idx),
{
    let regions = regions(state);
    let inner: u16 = sidebar_inner_rows(&regions);
    if inner == 0 {
        return;
    }
    if row_idx < state.sidebar_scroll {
        state.sidebar_scroll = row_idx;
    } else if row_idx as u32 >= state.sidebar_scroll as u32 + inner as u32 {
        state.sidebar_scroll = (row_idx as u32 + 1 - inner as u32) as u16;
    }
}

/// The largest useful scroll offset: so many rows do not fit.
pub open spec fn max_scroll(m: AppModel) -> u16 {
    let total = visible_rows(m.projects).len() as u16;
    let inner = inner_rows(regions_of(m));
    if total >= inner {
        (total - inner) as u16
    } else {
        0
    }
}

/// The largest useful scroll offset.
pub fn sidebar_max_scroll(state: &AppState) -> (r: u16)
    ensures
        r == max_scroll(state@),
{
    let total: u16 = sidebar_visible_rows(state).len() as u16;
    let regions = regions(state);
    let inner: u16 = sidebar_inner_rows(&regions);
    if total >= inner {
        total - inner
    } else {
        0
    }
}

/// The state with its scroll offset brought down to the largest useful one.
pub open spec fn scroll_clamped(m: AppModel) -> AppModel {
    AppModel {
        sidebar_scroll: if m.sidebar_scroll > max_scroll(m) {
            max_scroll(m)
        } else {
            m.sidebar_scroll
        },
        ..m
    }
}

fn clamp_sidebar_scroll(state: &mut AppState)
    ensures
        final(state)@ == scroll_clamped(old(state)@),
{
    let max: u16 = sidebar_max_scroll(state);
    if state.sidebar_scroll > max {
        state.sidebar_scroll = max;
    }
}

/// The state scrolled down by `step` rows, as far as is useful.
pub open spec fn scrolled_down(m: AppModel, step: u16) -> AppModel {
    AppModel {
        sidebar_scroll: if m.sidebar_scroll + step <= max_scroll(m) {
            (m.sidebar_scroll + step) as u16
        } else {
            max_scroll(m)
        },
        ..m
    }
}

/// Scrolls down by `step` rows, as far as is useful.
pub fn scroll_sidebar_down(state: &mut AppState, step: u16)
    ensures
        final(state)@ == scrolled_down(old(state)@, step),
{
    let max: u16 = sidebar_max_scroll(state);
    if state.sidebar_scroll as u32 + step as u32 <= max as u32 {
        state.sidebar_scroll = state.sidebar_scroll + step;
    } else {
        state.sidebar_scroll = max;
    }
}

// ---------------------------------------------------------------------------
// The cursor
// ---------------------------------------------------------------------------

/// The row that the cursor is on: the first where it is on none that shows.
pub open spec fn cursor_row(m: AppModel) -> int {
    match m.sidebar_selection {
        Some(sel) => match row_place(visible_rows(m.projects), row_of(sel), 0) {
            Some(i) => i,
            None => 0,
        },
        None => 0,
    }
}

/// `i` moved by one, down where `down`, and held inside `n` rows.
pub open spec fn moved(i: int, down: bool, n: nat) -> int {
    if down {
        if i + 1 < n {
            i + 1
        } else {
            n - 1
        }
    } else if i > 0 {
        i - 1
    } else {
        0
    }
}

/// The state after the cursor moved by one row: off where there is no row.
pub open spec fn cursor_moved(m: AppModel, down: bool) -> AppModel {
    let rows = visible_rows(m.projects);
    if rows.len() == 0 {
        AppModel { sidebar_selection: None, sidebar_scroll: 0, ..m }
    } else {
        let next = moved(cursor_row(m), down, rows.len());
        shown(
            AppModel { sidebar_selection: Some(selection_of(rows[next])), ..m },
            (next as usize) as u16,
        )
    }
}

/// Moves the cursor by one row.
pub fn move_sidebar_selection(state: &mut AppState, down: bool)
    ensures
        final(state)@ == cursor_moved(old(state)@, down),
{
    let rows = sidebar_visible_rows(state);
    if rows.len() == 0 {
        state.sidebar_selection = None;
        state.sidebar_scroll = 0;
        return;
    }
    let current: usize = match selection_to_row(state) {
        Some(row) => match find_row(&rows, row) {
            Some(i) => i,
            None => 0,
        },
        None => 0,
    };
    let next: usize = if down {
        if current < rows.len() - 1 {
            current + 1
        } else {
            rows.len() - 1
        }
    } else if current > 0 {
        current - 1
    } else {
        0
    };
    state.sidebar_selection = Some(row_to_selection(rows[next]));
    ensure_selection_visible(state, next as u16);
}

// ---------------------------------------------------------------------------
// Activation
// ---------------------------------------------------------------------------

/// The request for one worktree's PR status, where its project asks for any.
pub open spec fn pr_request(m: AppModel, p: usize, w: usize) -> Seq<CommandModel> {
    match m.worktree(p, w) {
        Some(wt) => if m.projects[p as int].github_enabled {
            seq![
                CommandModel::FetchPrStatuses {
                    project_idx: p,
                    repo_path: m.projects[p as int].repo_path,
                    worktrees: seq![(w, wt.path)],
                },
            ]
        } else {
            seq![]
        },
        None => seq![],
    }
}

/// Push a `FetchPrStatuses` for a single worktree on this project, provided
/// the project still has GitHub integration enabled. Used to refresh the
/// sidebar bar as soon as the user activates a worktree, instead of waiting
/// for the next poll.
fn request_pr_refresh_for(state: &AppState, p: usize, w: usize, cmds: &mut Commands)
    ensures
        final(cmds)@ == old(cmds)@ + pr_request(state@, p, w),
{
    if p >= state.projects.len() || !state.projects[p].github_enabled || w
        >= state.projects[p].worktrees.len() {
        assert(cmds@ =~= old(cmds)@ + pr_request(state@, p, w));
        return;
    }
    let project = &state.projects[p];
    let mut worktrees: Vec<(usize, String)> = Vec::new();
    worktrees.push((w, project.worktrees[w].path.clone()));
    assert(crate::app::indexed_paths(worktrees@) =~= seq![
        (w, state@.projects[p as int].worktrees[w as int].path),
    ]);
    cmds.push(
        Command::FetchPrStatuses {
            project_idx: p,
            repo_path: project.repo_path.clone(),
            worktrees,
        },
    );
    assert(cmds@ =~= old(cmds)@ + pr_request(state@, p, w));
}

/// A worktree with its first tab in front, if it has tabs and none is.
pub open spec fn fronted(wt: WorktreeModel) -> WorktreeModel {
    if wt.sessions.len() > 0 && wt.active_tab is None {
        WorktreeModel { active_tab: Some(0), ..wt }
    } else {
        wt
    }
}

/// Makes worktree `w` of project `p` the active one. A worktree without sessions
/// cannot stay in Terminal mode. A worktree that was not active before has its
/// PR status asked for.
pub open spec fn worktree_activated(m: AppModel, p: usize, w: usize) -> Step {
    let m1 = AppModel { active_worktree: Some((p, w)), ..m };
    let asked = if m.active_worktree != Some((p, w)) {
        pr_request(m, p, w)
    } else {
        seq![]
    };
    let m2 = match m.worktree(p, w) {
        Some(wt) => m1.with_worktree(p, w, fronted(wt)),
        None => m1,
    };
    let live = match m.worktree(p, w) {
        Some(wt) => wt.sessions.len() > 0,
        None => false,
    };
    (
        AppModel {
            mode: if !live && m.mode is Terminal {
                Mode::Normal
            } else {
                m.mode
            },
            ..m2
        },
        asked,
    )
}

/// Putting a worktree where it is changes nothing.
pub proof fn lemma_same_worktree(m: AppModel, p: usize, w: usize)
    requires
        m.worktree(p, w) is Some,
    ensures
        m.with_worktree(p, w, m.worktree(p, w)->Some_0) == m,
{
    let project = m.projects[p as int];
    assert(project.worktrees.update(w as int, project.worktrees[w as int]) =~= project.worktrees);
    assert(m.projects.update(p as int, project) =~= m.projects);
}

/// Makes worktree `w` of project `p` the active one. Focus stays on the sidebar;
/// nothing is spawned.
pub fn activate_worktree(state: &mut AppState, p: usize, w: usize, cmds: &mut Commands)
    ensures
        final(state)@ == worktree_activated(old(state)@, p, w).0,
        final(cmds)@ == old(cmds)@ + worktree_activated(old(state)@, p, w).1,
{
    let changed = match state.active_worktree {
        Some((a, b)) => a != p || b != w,
        None => true,
    };
    if changed {
        request_pr_refresh_for(state, p, w, cmds);
    } else {
        assert(cmds@ =~= old(cmds)@ + Seq::<CommandModel>::empty());
    }
    state.active_worktree = Some((p, w));
    let mut live = false;
    if mutate::has_worktree(state, p, w) {
        live = state.projects[p].worktrees[w].sessions.len() > 0;
        if live && state.projects[p].worktrees[w].active_tab.is_none() {
            mutate::set_tab(state, p, w, Some(0));
        } else {
            proof {
                lemma_same_worktree(state@, p, w);
            }
        }
    }
    if !live && state.mode == Mode::Terminal {
        state.mode = Mode::Normal;
    }
}

/// What Enter does on the row under the cursor: it folds or unfolds a project
/// and saves that, or activates a worktree.
pub open spec fn selection_activated(m: AppModel) -> Step {
    match m.sidebar_selection {
        Some((p, None)) => if p < m.projects.len() {
            let project = m.projects[p as int];
            let m1 = m.with_project(p, ProjectModel { expanded: !project.expanded, ..project });
            (scroll_clamped(m1), seq![CommandModel::SaveProjectConfig(p)])
        } else {
            quiet(m)
        },
        Some((p, Some(w))) => worktree_activated(m, p, w),
        None => quiet(m),
    }
}

/// What Enter does on the row under the cursor.
pub fn activate_sidebar_selection(state: &mut AppState, cmds: &mut Commands)
    ensures
        final(state)@ == selection_activated(old(state)@).0,
        final(cmds)@ == old(cmds)@ + selection_activated(old(state)@).1,
{
    match state.sidebar_selection {
        Some((p, Some(w))) => activate_worktree(state, p, w, cmds),
        Some((p, None)) => {
            if p < state.projects.len() {
                let folded = !state.projects[p].expanded;
                mutate::set_expanded(state, p, folded);
                clamp_sidebar_scroll(state);
                cmds.push(Command::SaveProjectConfig(p));
                assert(cmds@ =~= old(cmds)@ + seq![CommandModel::SaveProjectConfig(p)]);
            } else {
                assert(cmds@ =~= old(cmds)@ + Seq::<CommandModel>::empty());
            }
        },
        None => {
            assert(cmds@ =~= old(cmds)@ + Seq::<CommandModel>::empty());
        },
    }
}

/// Folding a project and unfolding it again brings every row back.
pub proof fn law_folding_twice_changes_no_row(m: AppModel, p: usize)
    requires
        p < m.projects.len(),
        m.sidebar_selection == Some((p, None::<usize>)),
    ensures
        visible_rows(selection_activated(selection_activated(m).0).0.projects) == visible_rows(
            m.projects,
        ),
{
    let once = selection_activated(m).0;
    let twice = selection_activated(once).0;
    assert(twice.projects =~= m.projects);
}

} // verus!
