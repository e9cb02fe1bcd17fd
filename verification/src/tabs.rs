//! Tabs: opening, closing and switching them, and keeping their sessions in step
//! with the screen.

use crate::app::{
    opt_view, AppModel, AppState, Command, CommandModel, Commands, Project, ProjectModel,
    SupervisorId, WorktreeModel,
};
use crate::layout::{clamp_sidebar_width, clamped_width};
use crate::mutate;
use crate::session::SessionId;
use crate::sidebar::{quiet, regions, regions_of, Step};
use crate::text;
use vstd::prelude::*;

verus! {

// ---------------------------------------------------------------------------
// Switching
// ---------------------------------------------------------------------------

/// The tab behind (or before) `at` of `len` tabs, going round at the ends.
pub open spec fn neighbour(at: int, forward: bool, len: int) -> int {
    let c = at % len;
    if forward {
        if c + 1 < len {
            c + 1
        } else {
            0
        }
    } else if c > 0 {
        c - 1
    } else {
        len - 1
    }
}

/// The state with the next (or the previous) tab of the active worktree in
/// front.
pub open spec fn tab_switched(m: AppModel, forward: bool) -> AppModel {
    match m.active_worktree {
        Some((p, w)) => match m.worktree(p, w) {
            Some(wt) => if wt.sessions.len() > 0 {
                let at = match wt.active_tab {
                    Some(i) => i as int,
                    None => 0,
                };
                let next = neighbour(at, forward, wt.sessions.len() as int);
                m.with_worktree(p, w, WorktreeModel { active_tab: Some(next as usize), ..wt })
            } else {
                m
            },
            None => m,
        },
        None => m,
    }
}

/// Brings the next (or the previous) tab of the active worktree to the front.
pub fn switch_tab(state: &mut AppState, forward: bool)
    ensures
        final(state)@ == tab_switched(old(state)@, forward),
{
    let (p, w) = match state.active_worktree {
        Some(at) => at,
        None => return,
    };
    if !mutate::has_worktree(state, p, w) {
        return;
    }
    let len: usize = state.projects[p].worktrees[w].sessions.len();
    if len == 0 {
        return;
    }
    let at: usize = match state.projects[p].worktrees[w].active_tab {
        Some(i) => i,
        None => 0,
    };
    let c: usize = at % len;
    let next: usize = if forward {
        if c < len - 1 {
            c + 1
        } else {
            0
        }
    } else if c > 0 {
        c - 1
    } else {
        len - 1
    };
    mutate::set_tab(state, p, w, Some(next));
}

/// Going forward and then back leads to the tab one came from.
pub proof fn law_tabs_go_round(at: int, len: int)
    requires
        0 <= at < len,
    ensures
        neighbour(neighbour(at, true, len), false, len) == at,
        neighbour(neighbour(at, false, len), true, len) == at,
        0 <= neighbour(at, true, len) < len,
        0 <= neighbour(at, false, len) < len,
{
    assert(at % len == at) by (nonlinear_arith)
        requires
            0 <= at < len,
    ;
    let f = neighbour(at, true, len);
    let b = neighbour(at, false, len);
    assert(f % len == f) by (nonlinear_arith)
        requires
            0 <= f < len,
    ;
    assert(b % len == b) by (nonlinear_arith)
        requires
            0 <= b < len,
    ;
}

// ---------------------------------------------------------------------------
// Opening and closing
// ---------------------------------------------------------------------------

/// The command that opens a tab in worktree `w` of project `p`, as large as the
/// terminal pane; none where there is no such worktree.
pub open spec fn spawn_in(m: AppModel, p: usize, w: usize, command: Option<Seq<char>>) -> Seq<
    CommandModel,
> {
    match m.worktree(p, w) {
        Some(wt) => seq![
            CommandModel::SpawnInWorktree {
                supervisor: m.projects[p as int].supervisor,
                rows: regions_of(m).terminal.height,
                cols: regions_of(m).terminal.width,
                cwd: wt.path,
                dest: (p, w),
                initial_command: command,
                project_slug: m.projects[p as int].slug,
                worktree_name: wt.name,
            },
        ],
        None => seq![],
    }
}

/// Opens a tab in worktree `w` of project `p`, with an optional command fed to
/// the PTY as the first input.
pub fn launch_in_worktree(
    state: &AppState,
    p: usize,
    w: usize,
    initial_command: Option<String>,
    cmds: &mut Commands,
)
    ensures
        final(cmds)@ == old(cmds)@ + spawn_in(state@, p, w, opt_view(initial_command)),
{
    if !mutate::has_worktree(state, p, w) {
        assert(cmds@ =~= old(cmds)@ + Seq::<CommandModel>::empty());
        return;
    }
    let term = regions(state).terminal;
    let project = &state.projects[p];
    let wt = &project.worktrees[w];
    cmds.push(
        Command::SpawnInWorktree {
            supervisor: project.supervisor,
            rows: term.height,
            cols: term.width,
            cwd: wt.path.clone(),
            dest: (p, w),
            initial_command,
            project_slug: project.slug.clone(),
            worktree_name: wt.name.clone(),
        },
    );
    assert(cmds@ =~= old(cmds)@ + spawn_in(state@, p, w, opt_view(initial_command)));
}

/// What is asked for when a tab is opened in the active worktree.
pub open spec fn tab_opened(m: AppModel) -> Seq<CommandModel> {
    match m.active_worktree {
        Some((p, w)) => spawn_in(m, p, w, None),
        None => seq![],
    }
}

/// Opens a plain tab in the active worktree.
pub fn open_new_tab_in_active(state: &AppState, cmds: &mut Commands)
    ensures
        final(cmds)@ == old(cmds)@ + tab_opened(state@),
{
    match state.active_worktree {
        Some((p, w)) => launch_in_worktree(state, p, w, None, cmds),
        None => {
            assert(cmds@ =~= old(cmds)@ + Seq::<CommandModel>::empty());
        },
    }
}

/// What a launch in the active worktree does: without one it says so.
pub open spec fn launched_in_active(m: AppModel, command: Option<Seq<char>>) -> Step {
    match m.active_worktree {
        Some((p, w)) => (m, spawn_in(m, p, w, command)),
        None => quiet(
            AppModel { command_status: Some("no active worktree — pick one first"@), ..m },
        ),
    }
}

/// Spawn a tab in the active worktree with an optional `initial_command` fed
/// to the PTY as the first input. Used by `:launch`.
pub fn launch_in_active_worktree(
    state: &mut AppState,
    initial_command: Option<String>,
    cmds: &mut Commands,
)
    ensures
        final(state)@ == launched_in_active(old(state)@, opt_view(initial_command)).0,
        final(cmds)@ == old(cmds)@ + launched_in_active(
            old(state)@,
            opt_view(initial_command),
        ).1,
{
    match state.active_worktree {
        Some((p, w)) => launch_in_worktree(state, p, w, initial_command, cmds),
        None => {
            state.command_status = Some(text::owned("no active worktree — pick one first"));
            assert(cmds@ =~= old(cmds)@ + Seq::<CommandModel>::empty());
        },
    }
}

/// The tab in front once tab `at` is gone and `left` are left: the one that took
/// its place, else the last, else none.
pub open spec fn tab_after_close(at: usize, left: nat) -> Option<usize> {
    if left == 0 {
        None
    } else if at >= left {
        Some((left - 1) as usize)
    } else {
        Some(at)
    }
}

/// What closing the tab in front does: the tab goes, its session is forgotten,
/// and the supervisor is told to end it.
pub open spec fn tab_closed(m: AppModel) -> Step {
    match (m.active_worktree, m.focused_session()) {
        (Some((p, w)), Some(id)) => {
            let wt = m.worktree(p, w)->Some_0;
            let at = wt.active_tab->Some_0;
            let sessions = wt.sessions.remove(at as int);
            let m1 = m.with_worktree(
                p,
                w,
                WorktreeModel {
                    sessions,
                    active_tab: tab_after_close(at, sessions.len()),
                    ..wt
                },
            );
            (
                AppModel { sessions: crate::session::without(m.sessions, id), ..m1 },
                seq![CommandModel::KillSession(id)],
            )
        },
        _ => quiet(m),
    }
}

/// Close the tab currently visible in the active worktree. Always closes: there
/// is no confirmation.
pub fn close_current_tab(state: &mut AppState, cmds: &mut Commands)
    ensures
        final(state)@ == tab_closed(old(state)@).0,
        final(cmds)@ == old(cmds)@ + tab_closed(old(state)@).1,
{
    let focused = state.focused_session_id();
    let (p, w) = match state.active_worktree {
        Some(at) => at,
        None => {
            assert(cmds@ =~= old(cmds)@ + Seq::<CommandModel>::empty());
            return;
        },
    };
    if focused.is_none() {
        assert(cmds@ =~= old(cmds)@ + Seq::<CommandModel>::empty());
        return;
    }
    let at: usize = match state.projects[p].worktrees[w].active_tab {
        Some(i) => i,
        None => 0,
    };
    let left: usize = state.projects[p].worktrees[w].sessions.len() - 1;
    let id: u64 = mutate::remove_session_at(state, p, w, at);
    let tab = if left == 0 {
        None
    } else if at >= left {
        Some(left - 1)
    } else {
        Some(at)
    };
    proof {
        let wt = old(state)@.worktree(p, w)->Some_0;
        let first = WorktreeModel { sessions: wt.sessions.remove(at as int), ..wt };
        lemma_set_twice(old(state)@, p, w, first, first);
    }
    mutate::set_tab(state, p, w, tab);
    state.sessions.remove(&id);
    cmds.push(Command::KillSession(id));
    proof {
        let m = old(state)@;
        let wt = m.worktree(p, w)->Some_0;
        let first = WorktreeModel { sessions: wt.sessions.remove(at as int), ..wt };
        let second = WorktreeModel { active_tab: tab, ..first };
        lemma_set_twice(m, p, w, first, second);
        assert(cmds@ =~= old(cmds)@ + seq![CommandModel::KillSession(id)]);
    }
}

/// Of two worktrees put in one place, the second stays.
pub proof fn lemma_set_twice(
    m: AppModel,
    p: usize,
    w: usize,
    first: WorktreeModel,
    second: WorktreeModel,
)
    requires
        m.worktree(p, w) is Some,
    ensures
        m.with_worktree(p, w, first).with_worktree(p, w, second) == m.with_worktree(p, w, second),
        m.with_worktree(p, w, first).worktree(p, w) == Some(first),
{
    let a = m.with_worktree(p, w, first).with_worktree(p, w, second);
    let b = m.with_worktree(p, w, second);
    assert(a.projects[p as int].worktrees =~= b.projects[p as int].worktrees);
    assert(a.projects =~= b.projects);
}

// ---------------------------------------------------------------------------
// Sessions that go away
// ---------------------------------------------------------------------------

/// Where `id` first stands in `s` from `from` on.
pub open spec fn session_place(s: Seq<SessionId>, id: SessionId, from: int) -> Option<int>
    decreases s.len() - from,
{
    if from < 0 || from >= s.len() {
        None
    } else if s[from] == id {
        Some(from)
    } else {
        session_place(s, id, from + 1)
    }
}

/// A worktree once a session has ended: its tab is gone, and the tab in front is
/// the last where there are no longer so many.
pub open spec fn session_left(wt: WorktreeModel, id: SessionId) -> WorktreeModel {
    match session_place(wt.sessions, id, 0) {
        Some(i) => {
            let sessions = wt.sessions.remove(i);
            WorktreeModel {
                sessions,
                active_tab: match wt.active_tab {
                    Some(at) => tab_after_close(at, sessions.len()),
                    None => None,
                },
                ..wt
            }
        },
        None => wt,
    }
}

/// A worktree without tabs.
pub open spec fn emptied(wt: WorktreeModel) -> WorktreeModel {
    WorktreeModel { sessions: seq![], active_tab: None, ..wt }
}

/// A change made to every worktree.
#[derive(Copy, Clone, Debug, PartialEq, Eq, Structural)]
pub enum Sweep {
    /// A session has ended.
    Ended(SessionId),
    /// Every session is gone.
    All,
    /// Every session on that supervisor is gone.
    On(SupervisorId),
}

/// A worktree of a project on `sup` after a sweep.
pub open spec fn swept(what: Sweep, sup: SupervisorId, wt: WorktreeModel) -> WorktreeModel {
    match what {
        Sweep::Ended(id) => session_left(wt, id),
        Sweep::All => emptied(wt),
        Sweep::On(s) => if s == sup {
            emptied(wt)
        } else {
            wt
        },
    }
}

/// A project after a sweep.
pub open spec fn project_swept(what: Sweep, p: ProjectModel) -> ProjectModel {
    ProjectModel {
        worktrees: Seq::new(
            p.worktrees.len(),
            |j: int| swept(what, p.supervisor, p.worktrees[j]),
        ),
        ..p
    }
}

/// The state after a sweep.
pub open spec fn all_swept(m: AppModel, what: Sweep) -> AppModel {
    AppModel {
        projects: Seq::new(m.projects.len(), |i: int| project_swept(what, m.projects[i])),
        ..m
    }
}

fn find_session(s: &Vec<SessionId>, id: SessionId) -> (r: Option<usize>)
    ensures
        match r {
            Some(i) => i < s.len() && session_place(s@, id, 0) == Some(i as int),
            None => session_place(s@, id, 0) is None,
        },
{
    let mut i: usize = 0;
    while i < s.len()
        invariant
            i <= s.len(),
            session_place(s@, id, 0) == session_place(s@, id, i as int),
        decreases s.len() - i,
    {
        if s[i] == id {
            return Some(i);
        }
        i += 1;
    }
    None
}

fn sweep_worktree(wt: &mut crate::app::Worktree, what: Sweep, sup: SupervisorId)
    ensures
        final(wt)@ == swept(what, sup, old(wt)@),
{
    match what {
        Sweep::Ended(id) => {
            if let Some(i) = find_session(&wt.sessions, id) {
                let _ = wt.sessions.remove(i);
                let left: usize = wt.sessions.len();
                if let Some(at) = wt.active_tab {
                    if left == 0 {
                        wt.active_tab = None;
                    } else if at >= left {
                        wt.active_tab = Some(left - 1);
                    }
                }
            }
        },
        Sweep::All => {
            wt.sessions.clear();
            wt.active_tab = None;
        },
        Sweep::On(s) => {
            if s == sup {
                wt.sessions.clear();
                wt.active_tab = None;
            }
        },
    }
}

fn sweep_project(p: &mut Project, what: Sweep)
    ensures
        final(p)@ == project_swept(what, old(p)@),
{
    let sup = p.supervisor;
    let mut j: usize = 0;
    let ghost before = p@;
    while j < p.worktrees.len()
        invariant
            j <= p.worktrees.len(),
            sup == before.supervisor,
            p@ == (ProjectModel { worktrees: p@.worktrees, ..before }),
            p@.worktrees.len() == before.worktrees.len(),
            forall|k: int|
                0 <= k < j ==> #[trigger] p@.worktrees[k] == swept(
                    what,
                    sup,
                    before.worktrees[k],
                ),
            forall|k: int|
                j <= k < before.worktrees.len() ==> #[trigger] p@.worktrees[k]
                    == before.worktrees[k],
        decreases p.worktrees.len() - j,
    {
        let ghost now = p@;
        assert(p.worktrees@[j as int]@ == now.worktrees[j as int]);
        sweep_worktree(&mut p.worktrees[j], what, sup);
        assert forall|k: int| 0 <= k < before.worktrees.len() && k != j implies #[trigger]
            p@.worktrees[k] == now.worktrees[k] by {}
        j += 1;
    }
    assert(p@.worktrees =~= project_swept(what, before).worktrees);
}

/// Makes a change to every worktree.
pub fn sweep(state: &mut AppState, what: Sweep)
    ensures
        final(state)@ == all_swept(old(state)@, what),
{
    let mut i: usize = 0;
    let ghost before = state@;
    while i < state.projects.len()
        invariant
            i <= state.projects.len(),
            state@ == (AppModel { projects: state@.projects, ..before }),
            state@.projects.len() == before.projects.len(),
            forall|k: int|
                0 <= k < i ==> #[trigger] state@.projects[k] == project_swept(
                    what,
                    before.projects[k],
                ),
            forall|k: int|
                i <= k < before.projects.len() ==> #[trigger] state@.projects[k]
                    == before.projects[k],
        decreases state.projects.len() - i,
    {
        let ghost now = state@;
        assert(state.projects@[i as int]@ == now.projects[i as int]);
        sweep_project(&mut state.projects[i], what);
        assert forall|k: int| 0 <= k < before.projects.len() && k != i implies #[trigger]
            state@.projects[k] == now.projects[k] by {}
        i += 1;
    }
    assert(state@.projects =~= all_swept(before, what).projects);
}

/// Takes the tab of a session that has ended out of every worktree.
pub fn remove_session_from_worktrees(state: &mut AppState, id: SessionId)
    ensures
        final(state)@ == all_swept(old(state)@, Sweep::Ended(id)),
{
    sweep(state, Sweep::Ended(id));
}

// ---------------------------------------------------------------------------
// Sizes
// ---------------------------------------------------------------------------

/// One resize for each session, to the size of the terminal pane.
pub open spec fn resizes(m: AppModel) -> Seq<CommandModel> {
    let term = regions_of(m).terminal;
    Seq::new(
        m.sessions.len(),
        |i: int| CommandModel::ResizePty(m.sessions[i], term.height, term.width),
    )
}

/// Tells every session how large the terminal pane is.
pub fn broadcast_resize(state: &AppState, cmds: &mut Commands)
    ensures
        final(cmds)@ == old(cmds)@ + resizes(state@),
{
    let term = regions(state).terminal;
    let ids = state.sessions.ids();
    let ghost want = resizes(state@);
    let mut i: usize = 0;
    assert(cmds@ =~= old(cmds)@ + want.take(0));
    while i < ids.len()
        invariant
            i <= ids.len(),
            ids@ == state@.sessions,
            want == resizes(state@),
            term == regions_of(state@).terminal,
            cmds@ == old(cmds)@ + want.take(i as int),
        decreases ids.len() - i,
    {
        cmds.push(Command::ResizePty(ids[i], term.height, term.width));
        assert(old(cmds)@ + want.take(i + 1) =~= (old(cmds)@ + want.take(i as int)).push(
            want[i as int],
        ));
        i += 1;
    }
    assert(want.take(want.len() as int) =~= want);
}

/// What setting the sidebar's width does: a width that changes is told to the
/// sessions and saved.
pub open spec fn width_set(m: AppModel, width: u16) -> Step {
    let new = clamped_width(width, m.term_size.cols);
    if new == m.sidebar_width {
        quiet(m)
    } else {
        let m1 = AppModel { sidebar_width: new, ..m };
        (m1, resizes(m1).push(CommandModel::SaveGlobalConfig))
    }
}

/// Sets the sidebar's width, within its limits.
pub fn set_sidebar_width(state: &mut AppState, width: u16, cmds: &mut Commands)
    ensures
        final(state)@ == width_set(old(state)@, width).0,
        final(cmds)@ == old(cmds)@ + width_set(old(state)@, width).1,
{
    let new: u16 = clamp_sidebar_width(width, state.term_size.cols);
    if new == state.sidebar_width {
        assert(cmds@ =~= old(cmds)@ + Seq::<CommandModel>::empty());
        return;
    }
    state.sidebar_width = new;
    broadcast_resize(state, cmds);
    cmds.push(Command::SaveGlobalConfig);
    assert(cmds@ =~= old(cmds)@ + width_set(old(state)@, width).1);
}

/// The width asked for when the sidebar grows or shrinks by `delta`.
pub open spec fn stepped_width(width: u16, delta: int) -> u16 {
    if width + delta < 0 {
        0
    } else {
        (width + delta) as u16
    }
}

/// Grows or shrinks the sidebar by `delta` columns.
pub fn apply_sidebar_resize(state: &mut AppState, delta: i16, cmds: &mut Commands)
    ensures
        final(state)@ == width_set(
            old(state)@,
            stepped_width(old(state)@.sidebar_width, delta as int),
        ).0,
        final(cmds)@ == old(cmds)@ + width_set(
            old(state)@,
            stepped_width(old(state)@.sidebar_width, delta as int),
        ).1,
{
    let proposed: i32 = state.sidebar_width as i32 + delta as i32;
    let width: u16 = if proposed < 0 {
        0
    } else {
        proposed as u16
    };
    set_sidebar_width(state, width, cmds);
}

/// Every worktree of a project with its index and path.
pub open spec fn paths_of(p: ProjectModel) -> Seq<(usize, Seq<char>)> {
    Seq::new(p.worktrees.len(), |i: int| (i as usize, p.worktrees[i].path))
}

/// Every worktree of a project with its index and path.
pub fn worktree_paths(project: &Project) -> (r: Vec<(usize, String)>)
    ensures
        crate::app::indexed_paths(r@) == paths_of(project@),
{
    let ghost want = paths_of(project@);
    let mut out: Vec<(usize, String)> = Vec::new();
    let mut i: usize = 0;
    assert(crate::app::indexed_paths(out@) =~= want.take(0));
    while i < project.worktrees.len()
        invariant
            i <= project.worktrees.len(),
            want == paths_of(project@),
            crate::app::indexed_paths(out@) == want.take(i as int),
        decreases project.worktrees.len() - i,
    {
        let ghost before = out@;
        out.push((i, project.worktrees[i].path.clone()));
        assert(crate::app::indexed_paths(out@) =~= crate::app::indexed_paths(before).push(
            want[i as int],
        ));
        assert(want.take(i + 1) =~= want.take(i as int).push(want[i as int]));
        i += 1;
    }
    assert(want.take(want.len() as int) =~= want);
    out
}

} // verus!
