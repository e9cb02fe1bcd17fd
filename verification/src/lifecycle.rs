//! Projects, worktrees and sessions that come and go.

use crate::app::{
    closed_up, local, local_id, opt_view, project_of, AppModel, AppState, Command, CommandModel,
    Commands, ConfigModel, Mode, Project, ProjectModel, SidebarRow, SupervisorId, Worktree,
    WorktreeModel,
};
use crate::commands::told;
use crate::config::{self, fresh_slug, LauncherConfig, ProjectConfig, WorktreeConfig};
use crate::layout::TermSize;
use crate::mutate;
use crate::paths;
use crate::session::{self, SessionId};
use crate::sidebar::{self, quiet, regions, regions_of, row_place, shown, visible_rows, Step};
use crate::tabs::{self, all_swept, resizes, Sweep};
use crate::text;
use crate::usage::{self, section_dropped};
use vstd::prelude::*;

verus! {

// ---------------------------------------------------------------------------
// Sessions
// ---------------------------------------------------------------------------

/// A session was spawned: it becomes the tab in front of its worktree. Where the
/// worktree has gone meanwhile, the session is killed and not registered.
pub open spec fn session_spawned(m: AppModel, id: SessionId, dest: (usize, usize)) -> Step {
    match m.worktree(dest.0, dest.1) {
        Some(wt) => {
            let m1 = m.with_worktree(
                dest.0,
                dest.1,
                WorktreeModel {
                    sessions: wt.sessions.push(id),
                    active_tab: Some(wt.sessions.len() as usize),
                    ..wt
                },
            );
            quiet(AppModel { sessions: session::with(m.sessions, id), ..m1 })
        },
        None => (m, seq![CommandModel::KillSession(id)]),
    }
}

/// Takes in a session that was spawned.
pub fn take_session(state: &mut AppState, id: SessionId, dest: (usize, usize), cmds: &mut Commands)
    ensures
        final(state)@ == session_spawned(old(state)@, id, dest).0,
        final(cmds)@ == old(cmds)@ + session_spawned(old(state)@, id, dest).1,
{
    let (p, w) = dest;
    if !mutate::has_worktree(state, p, w) {
        cmds.push(Command::KillSession(id));
        assert(cmds@ =~= old(cmds)@ + session_spawned(old(state)@, id, dest).1);
        return;
    }
    assert(cmds@ =~= old(cmds)@ + Seq::<CommandModel>::empty());
    let tabs: usize = state.projects[p].worktrees[w].sessions.len();
    let ghost wt = state@.worktree(p, w)->Some_0;
    assert(tabs == wt.sessions.len());
    mutate::push_session(state, p, w, id);
    let ghost first = WorktreeModel { sessions: wt.sessions.push(id), ..wt };
    let ghost second = WorktreeModel {
        sessions: wt.sessions.push(id),
        active_tab: Some(tabs),
        ..wt
    };
    proof {
        tabs::lemma_set_twice(old(state)@, p, w, first, second);
    }
    mutate::set_tab(state, p, w, Some(tabs));
    state.sessions.insert(id);
}

/// A session ended: it is forgotten and its tab goes.
pub open spec fn session_ended(m: AppModel, id: SessionId) -> AppModel {
    all_swept(AppModel { sessions: session::without(m.sessions, id), ..m }, Sweep::Ended(id))
}

/// Forgets a session that ended.
pub fn drop_session(state: &mut AppState, id: SessionId)
    ensures
        final(state)@ == session_ended(old(state)@, id),
{
    state.sessions.remove(&id);
    tabs::remove_session_from_worktrees(state, id);
}

/// The terminal has another size: every session hears of it.
pub open spec fn resized(m: AppModel, size: TermSize) -> Step {
    let m1 = AppModel { term_size: size, ..m };
    (m1, resizes(m1))
}

// ---------------------------------------------------------------------------
// Projects
// ---------------------------------------------------------------------------

/// The slugs of the projects there are.
pub open spec fn slugs(m: AppModel) -> Seq<Seq<char>> {
    Seq::new(m.projects.len(), |i: int| m.projects[i].slug)
}

fn slugs_of(state: &AppState) -> (r: Vec<String>)
    ensures
        text::texts(r@) == slugs(state@),
{
    let ghost want = slugs(state@);
    let mut out: Vec<String> = Vec::new();
    let mut i: usize = 0;
    assert(text::texts(out@) =~= want.take(0));
    while i < state.projects.len()
        invariant
            i <= state.projects.len(),
            want == slugs(state@),
            text::texts(out@) == want.take(i as int),
        decreases state.projects.len() - i,
    {
        let ghost before = out@;
        out.push(state.projects[i].slug.clone());
        assert(text::texts(out@) =~= text::texts(before).push(want[i as int]));
        assert(want.take(i + 1) =~= want.take(i as int).push(want[i as int]));
        i += 1;
    }
    assert(want.take(want.len() as int) =~= want);
    out
}

/// The config of a repository that was opened: a free slug, its main worktree,
/// unfolded, with the GitHub integration on.
pub open spec fn opened_config(
    m: AppModel,
    supervisor: SupervisorId,
    path: Seq<char>,
    name: Seq<char>,
    head: Option<Seq<char>>,
    script: Option<Seq<char>>,
) -> ConfigModel {
    ConfigModel {
        slug: fresh_slug(name, slugs(m)),
        name,
        path,
        supervisor: m.supervisors.config_name(supervisor),
        expanded: true,
        setup_script: script,
        worktrees: seq![
            (
                match head {
                    Some(b) => b,
                    None => "main"@,
                },
                path,
                head,
            ),
        ],
        launchers: seq![],
        github_enabled: true,
        gh_poll_interval_secs: None,
    }
}

fn opened_project(
    state: &AppState,
    supervisor: SupervisorId,
    path: String,
    name: String,
    head: Option<String>,
    script: Option<String>,
) -> (r: Project)
    ensures
        r@ == project_of(
            opened_config(state@, supervisor, path@, name@, opt_view(head), opt_view(script)),
            supervisor,
        ),
{
    let slug = config::compute_slug(name.as_str(), &slugs_of(state));
    let main = WorktreeConfig {
        name: match &head {
            Some(b) => b.clone(),
            None => text::owned("main"),
        },
        path: path.clone(),
        branch: text::clone_opt(&head),
    };
    let mut worktrees: Vec<WorktreeConfig> = Vec::new();
    worktrees.push(main);
    let launchers: Vec<LauncherConfig> = Vec::new();
    let cfg = ProjectConfig {
        slug,
        name,
        path,
        supervisor: state.supervisors.config_name(supervisor),
        expanded: true,
        setup_script: script,
        worktrees,
        launchers,
        github_enabled: true,
        gh_poll_interval_secs: None,
    };
    proof {
        let got = crate::app::config_model(cfg);
        let want = opened_config(
            state@,
            supervisor,
            path@,
            name@,
            opt_view(head),
            opt_view(script),
        );
        assert(got.worktrees =~= want.worktrees);
        assert(got.launchers =~= want.launchers);
        assert(got == want);
    }
    Project::from_config(cfg, supervisor)
}

/// A project is listed: it goes behind the others, takes the cursor where there
/// is none, and is saved. Its worktrees are asked for where that is wanted.
pub open spec fn project_listed(m: AppModel, project: ProjectModel, import: bool) -> Step {
    let at = m.projects.len() as usize;
    let m1 = AppModel {
        projects: m.projects.push(project),
        sidebar_selection: match m.sidebar_selection {
            Some(s) => Some(s),
            None => Some((at, None)),
        },
        pending_op: if import {
            Some("Importing existing worktrees…"@)
        } else {
            None
        },
        ..m
    };
    let saved = seq![CommandModel::SaveGlobalConfig, CommandModel::SaveProjectConfig(at)];
    (
        m1,
        if import {
            saved.push(
                CommandModel::ImportWorktrees { project_idx: at, repo_path: project.repo_path },
            )
        } else {
            saved
        },
    )
}

/// Lists a project.
pub fn list_project(state: &mut AppState, project: Project, import: bool, cmds: &mut Commands)
    ensures
        final(state)@ == project_listed(old(state)@, project@, import).0,
        final(cmds)@ == old(cmds)@ + project_listed(old(state)@, project@, import).1,
{
    let at: usize = state.projects.len();
    let repo_path = project.repo_path.clone();
    let ghost listed = project@;
    state.projects.push(project);
    assert(state@.projects =~= old(state)@.projects.push(listed));
    if state.sidebar_selection.is_none() {
        state.sidebar_selection = Some((at, None));
    }
    cmds.push(Command::SaveGlobalConfig);
    cmds.push(Command::SaveProjectConfig(at));
    if import {
        state.pending_op = Some(text::owned("Importing existing worktrees…"));
        cmds.push(Command::ImportWorktrees { project_idx: at, repo_path });
    } else {
        state.pending_op = None;
    }
    assert(cmds@ =~= old(cmds)@ + project_listed(old(state)@, listed, import).1);
}

/// Lists the project of a repository that a supervisor validated.
pub fn list_repository(
    state: &mut AppState,
    supervisor: SupervisorId,
    path: String,
    name: String,
    head: Option<String>,
    script: Option<String>,
    import: bool,
    cmds: &mut Commands,
)
    ensures
        ({
            let c = opened_config(
                old(state)@,
                supervisor,
                path@,
                name@,
                opt_view(head),
                opt_view(script),
            );
            let step = project_listed(old(state)@, project_of(c, supervisor), import);
            &&& final(state)@ == step.0
            &&& final(cmds)@ == old(cmds)@ + step.1
        }),
{
    let project = opened_project(state, supervisor, path, name, head, script);
    list_project(state, project, import, cmds);
}

// ---------------------------------------------------------------------------
// Worktrees
// ---------------------------------------------------------------------------

/// Whether one of the worktrees has that path.
pub open spec fn has_path(list: Seq<WorktreeModel>, path: Seq<char>) -> bool {
    exists|i: int| 0 <= i < list.len() && paths::same_way((#[trigger] list[i]).path, path)
}

/// The worktrees of a project with the first `n` entries of a listing behind
/// them, but for those whose path is there already.
pub open spec fn merged(list: Seq<WorktreeModel>, entries: Seq<Worktree>, n: nat) -> Seq<
    WorktreeModel,
>
    decreases n,
{
    if n == 0 {
        list
    } else {
        let before = merged(list, entries, (n - 1) as nat);
        let next = entries[n - 1]@;
        if has_path(before, next.path) {
            before
        } else {
            before.push(next)
        }
    }
}

/// What is said of an import that added `n` worktrees.
pub open spec fn import_message(n: nat) -> Seq<char> {
    if n == 0 {
        "no new worktrees to import"@
    } else {
        "imported "@ + text::decimal(n) + " worktree"@ + (if n == 1 {
            ""@
        } else {
            "s"@
        })
    }
}

/// The worktrees of a repository were listed: those that are new join the
/// project, which is saved if there were any.
pub open spec fn worktrees_imported(m: AppModel, p: usize, entries: Seq<Worktree>) -> Step {
    let m1 = AppModel { pending_op: None, ..m };
    if p >= m.projects.len() {
        quiet(m1)
    } else {
        let project = m.projects[p as int];
        let list = merged(project.worktrees, entries, entries.len());
        let added = (list.len() - project.worktrees.len()) as nat;
        let m2 = m1.with_project(p, ProjectModel { worktrees: list, ..project });
        (
            told(m2, import_message(added)),
            if added > 0 {
                seq![CommandModel::SaveProjectConfig(p)]
            } else {
                seq![]
            },
        )
    }
}

fn holds_path(list: &Vec<Worktree>, path: &str) -> (r: bool)
    ensures
        r == has_path(crate::app::worktree_models(list@), path@),
{
    let ghost all = crate::app::worktree_models(list@);
    let mut i: usize = 0;
    while i < list.len()
        invariant
            i <= list.len(),
            all == crate::app::worktree_models(list@),
            forall|j: int| 0 <= j < i ==> !paths::same_way((#[trigger] all[j]).path, path@),
        decreases list.len() - i,
    {
        if paths::same_path(list[i].path.as_str(), path) {
            assert(paths::same_way(all[i as int].path, path@));
            return true;
        }
        i += 1;
    }
    false
}

fn copy_worktree(w: &Worktree) -> (r: Worktree)
    ensures
        r@ == w@,
{
    let mut sessions: Vec<SessionId> = Vec::new();
    let mut i: usize = 0;
    while i < w.sessions.len()
        invariant
            i <= w.sessions.len(),
            sessions@ =~= w.sessions@.take(i as int),
        decreases w.sessions.len() - i,
    {
        sessions.push(w.sessions[i]);
        i += 1;
    }
    assert(sessions@ =~= w.sessions@);
    Worktree {
        name: w.name.clone(),
        path: w.path.clone(),
        branch: text::clone_opt(&w.branch),
        sessions,
        active_tab: w.active_tab,
    }
}

proof fn lemma_merged_grows(list: Seq<WorktreeModel>, entries: Seq<Worktree>, n: nat)
    ensures
        list.len() <= merged(list, entries, n).len() <= list.len() + n,
    decreases n,
{
    if n > 0 {
        lemma_merged_grows(list, entries, (n - 1) as nat);
    }
}

fn merge_worktrees(state: &mut AppState, p: usize, entries: &Vec<Worktree>)
    requires
        p < old(state)@.projects.len(),
    ensures
        final(state)@ == old(state)@.with_project(
            p,
            ProjectModel {
                worktrees: merged(
                    old(state)@.projects[p as int].worktrees,
                    entries@,
                    entries@.len(),
                ),
                ..old(state)@.projects[p as int]
            },
        ),
{
    let ghost m = state@;
    let ghost project = m.projects[p as int];
    let mut i: usize = 0;
    assert(state@.projects =~= m.with_project(p, project).projects);
    while i < entries.len()
        invariant
            i <= entries.len(),
            p < m.projects.len(),
            project == m.projects[p as int],
            state@ == m.with_project(
                p,
                ProjectModel { worktrees: merged(project.worktrees, entries@, i as nat), ..project },
            ),
        decreases entries.len() - i,
    {
        let ghost list = merged(project.worktrees, entries@, i as nat);
        let ghost now = state@;
        assert(state@.projects.len() == state.projects@.len());
        assert(state@.projects[p as int].worktrees == list);
        assert(state.projects@[p as int]@ == state@.projects[p as int]);
        if !holds_path(&state.projects[p].worktrees, entries[i].path.as_str()) {
            let wt = copy_worktree(&entries[i]);
            mutate::push_worktree(state, p, wt);
            assert(state@.projects =~= m.with_project(
                p,
                ProjectModel { worktrees: list.push(wt@), ..project },
            ).projects);
        }
        i += 1;
    }
}

/// Takes in the worktrees that a repository has.
pub fn import_worktrees(
    state: &mut AppState,
    p: usize,
    entries: &Vec<Worktree>,
    cmds: &mut Commands,
)
    ensures
        final(state)@ == worktrees_imported(old(state)@, p, entries@).0,
        final(cmds)@ == old(cmds)@ + worktrees_imported(old(state)@, p, entries@).1,
{
    assert(cmds@ =~= old(cmds)@ + Seq::<CommandModel>::empty());
    state.pending_op = None;
    if p >= state.projects.len() {
        return;
    }
    let had: usize = state.projects[p].worktrees.len();
    assert(had == old(state)@.projects[p as int].worktrees.len());
    merge_worktrees(state, p, entries);
    assert(state@.projects.len() == state.projects@.len());
    assert(state.projects@[p as int]@.worktrees == state@.projects[p as int].worktrees);
    let has: usize = state.projects[p].worktrees.len();
    proof {
        lemma_merged_grows(
            old(state)@.projects[p as int].worktrees,
            entries@,
            entries@.len(),
        );
    }
    let added: usize = has - had;
    let mut msg = text::owned("no new worktrees to import");
    if added > 0 {
        cmds.push(Command::SaveProjectConfig(p));
        msg = text::concat3("imported ", text::to_decimal(added as u64).as_str(), " worktree");
        if added != 1 {
            msg.push_str("s");
        } else {
            proof {
                reveal_strlit("");
            }
            assert(msg@ + ""@ =~= msg@);
        }
    }
    assert(msg@ == import_message(added as nat));
    state.command_status = Some(msg);
    assert(cmds@ =~= old(cmds)@ + worktrees_imported(old(state)@, p, entries@).1);
}

/// No two worktrees of a project have one path after an import, if none had
/// before, and every path that was listed is there.
pub proof fn law_imports_add_no_path_twice(
    list: Seq<WorktreeModel>,
    entries: Seq<Worktree>,
    n: nat,
)
    requires
        n <= entries.len(),
        forall|a: int, b: int|
            0 <= a < b < list.len() ==> !paths::same_way(
                (#[trigger] list[a]).path,
                (#[trigger] list[b]).path,
            ),
    ensures
        forall|a: int, b: int|
            0 <= a < b < merged(list, entries, n).len() ==> !paths::same_way(
                (#[trigger] merged(list, entries, n)[a]).path,
                (#[trigger] merged(list, entries, n)[b]).path,
            ),
        forall|k: int|
            0 <= k < n ==> has_path(merged(list, entries, n), (#[trigger] entries[k])@.path),
        forall|k: int|
            0 <= k < list.len() ==> merged(list, entries, n)[k] == #[trigger] list[k],
        merged(list, entries, n).len() >= list.len(),
    decreases n,
{
    if n > 0 {
        let before = merged(list, entries, (n - 1) as nat);
        let next = entries[n - 1]@;
        let all = merged(list, entries, n);
        law_imports_add_no_path_twice(list, entries, (n - 1) as nat);
        if !has_path(before, next.path) {
            assert(all == before.push(next));
            assert forall|a: int, b: int| 0 <= a < b < all.len() implies !paths::same_way(
                (#[trigger] all[a]).path,
                (#[trigger] all[b]).path,
            ) by {
                assert(before[a] == all[a]);
                if b < before.len() {
                    assert(before[b] == all[b]);
                }
            }
        }
        assert forall|k: int| 0 <= k < n implies has_path(all, (#[trigger] entries[k])@.path) by {
            if k < n - 1 {
                assert(has_path(before, entries[k]@.path));
                let i = choose|i: int|
                    0 <= i < before.len() && paths::same_way(
                        (#[trigger] before[i]).path,
                        entries[k]@.path,
                    );
                assert(all[i] == before[i]);
            } else if !has_path(before, next.path) {
                assert(all[before.len() as int] == next);
            }
        }
    }
}

/// A worktree was added: it joins its project, which is saved; it becomes the
/// active worktree, takes the cursor, which is scrolled into view, and gets a
/// tab that runs the project's setup script.
pub open spec fn worktree_added(m: AppModel, p: usize, wt: WorktreeModel) -> Step {
    let m1 = AppModel { pending_op: None, command_status: None, ..m };
    if p >= m.projects.len() {
        quiet(m1)
    } else {
        let project = m.projects[p as int];
        let w = project.worktrees.len() as usize;
        let m2 = AppModel {
            active_worktree: Some((p, w)),
            sidebar_selection: Some((p, Some(w))),
            ..m1.with_project(p, ProjectModel { worktrees: project.worktrees.push(wt), ..project })
        };
        let m3 = match row_place(visible_rows(m2.projects), SidebarRow::Worktree(p, w), 0) {
            Some(row) => shown(m2, row as u16),
            None => m2,
        };
        (
            m3,
            seq![
                CommandModel::SaveProjectConfig(p),
                CommandModel::SpawnInWorktree {
                    supervisor: project.supervisor,
                    rows: regions_of(m).terminal.height,
                    cols: regions_of(m).terminal.width,
                    cwd: wt.path,
                    dest: (p, w),
                    initial_command: project.setup_script,
                    project_slug: project.slug,
                    worktree_name: wt.name,
                },
            ],
        )
    }
}

/// Takes in a worktree that was added.
#[verifier::spinoff_prover]
pub fn take_worktree(state: &mut AppState, p: usize, wt: Worktree, cmds: &mut Commands)
    ensures
        final(state)@ == worktree_added(old(state)@, p, wt@).0,
        final(cmds)@ == old(cmds)@ + worktree_added(old(state)@, p, wt@).1,
{
    assert(cmds@ =~= old(cmds)@ + Seq::<CommandModel>::empty());
    let term = regions(state).terminal;
    state.pending_op = None;
    state.command_status = None;
    if p >= state.projects.len() {
        return;
    }
    let ghost m = state@;
    let w: usize = state.projects[p].worktrees.len();
    let cwd = wt.path.clone();
    let worktree_name = wt.name.clone();
    let initial_command = text::clone_opt(&state.projects[p].setup_script);
    let project_slug = state.projects[p].slug.clone();
    let supervisor = state.projects[p].supervisor;
    assert(w == m.projects[p as int].worktrees.len());
    assert(opt_view(initial_command) == m.projects[p as int].setup_script);
    mutate::push_worktree(state, p, wt);
    cmds.push(Command::SaveProjectConfig(p));
    state.active_worktree = Some((p, w));
    state.sidebar_selection = Some((p, Some(w)));
    let rows = sidebar::sidebar_visible_rows(state);
    if let Some(row) = sidebar::find_row(&rows, SidebarRow::Worktree(p, w)) {
        sidebar::ensure_selection_visible(state, row as u16);
    }
    cmds.push(
        Command::SpawnInWorktree {
            supervisor,
            rows: term.height,
            cols: term.width,
            cwd,
            dest: (p, w),
            initial_command,
            project_slug,
            worktree_name,
        },
    );
    assert(cmds@ =~= old(cmds)@ + worktree_added(old(state)@, p, wt@).1);
}

/// The active worktree once worktree `w` of project `p` is gone and `left` are
/// left of the project.
pub open spec fn active_after(
    active: Option<(usize, usize)>,
    p: usize,
    w: usize,
    left: nat,
) -> Option<(usize, usize)> {
    match active {
        Some((pi, wi)) => if pi == p && wi >= w {
            if left == 0 || wi == w {
                None
            } else {
                Some((pi, (wi - 1) as usize))
            }
        } else {
            active
        },
        None => None,
    }
}

/// The cursor once worktree `w` of project `p` is gone and `left` are left of
/// the project.
pub open spec fn selection_after(
    selection: Option<(usize, Option<usize>)>,
    p: usize,
    w: usize,
    left: nat,
) -> Option<(usize, Option<usize>)> {
    match selection {
        Some((pi, Some(wi))) => if pi == p && wi >= w {
            if left == 0 {
                Some((pi, None))
            } else if wi == w {
                Some((
                    pi,
                    Some(
                        if wi < left {
                            wi
                        } else {
                            (left - 1) as usize
                        },
                    ),
                ))
            } else {
                Some((pi, Some((wi - 1) as usize)))
            }
        } else {
            selection
        },
        _ => selection,
    }
}

/// A worktree was removed: it leaves its project, and the active worktree, the
/// cursor and the PR statuses of those behind it follow.
pub open spec fn worktree_removed(m: AppModel, p: usize, w: usize) -> Step {
    let gone = m.worktree(p, w);
    let m1 = match gone {
        Some(_) => m.with_project(
            p,
            ProjectModel {
                worktrees: m.projects[p as int].worktrees.remove(w as int),
                ..m.projects[p as int]
            },
        ),
        None => m,
    };
    let left = if p < m1.projects.len() {
        m1.projects[p as int].worktrees.len()
    } else {
        0
    };
    (
        AppModel {
            pending_op: None,
            active_worktree: active_after(m.active_worktree, p, w, left),
            sidebar_selection: selection_after(m.sidebar_selection, p, w, left),
            pr_statuses: closed_up(m.pr_statuses, p, w),
            command_status: match gone {
                Some(wt) => Some("removed worktree '"@ + wt.name + "'"@),
                None => m.command_status,
            },
            ..m1
        },
        seq![CommandModel::SaveProjectConfig(p)],
    )
}

fn fix_active(state: &mut AppState, p: usize, w: usize, left: usize)
    ensures
        final(state)@ == (AppModel {
            active_worktree: active_after(old(state)@.active_worktree, p, w, left as nat),
            ..old(state)@
        }),
{
    if let Some((pi, wi)) = state.active_worktree {
        if pi == p && wi >= w {
            state.active_worktree = if left == 0 || wi == w {
                None
            } else {
                Some((pi, wi - 1))
            };
        }
    }
}

fn fix_selection(state: &mut AppState, p: usize, w: usize, left: usize)
    ensures
        final(state)@ == (AppModel {
            sidebar_selection: selection_after(old(state)@.sidebar_selection, p, w, left as nat),
            ..old(state)@
        }),
{
    if let Some((pi, Some(wi))) = state.sidebar_selection {
        if pi == p && wi >= w {
            state.sidebar_selection = if left == 0 {
                Some((pi, None))
            } else if wi == w {
                if wi < left {
                    Some((pi, Some(wi)))
                } else {
                    Some((pi, Some(left - 1)))
                }
            } else {
                Some((pi, Some(wi - 1)))
            };
        }
    }
}

/// Drops a worktree that was removed.
#[verifier::spinoff_prover]
pub fn drop_worktree(state: &mut AppState, p: usize, w: usize, cmds: &mut Commands)
    ensures
        final(state)@ == worktree_removed(old(state)@, p, w).0,
        final(cmds)@ == old(cmds)@ + worktree_removed(old(state)@, p, w).1,
{
    let ghost m = state@;
    state.pending_op = None;
    let mut left: usize = 0;
    if p < state.projects.len() {
        left = state.projects[p].worktrees.len();
        assert(left == m.projects[p as int].worktrees.len());
    }
    if mutate::has_worktree(state, p, w) {
        let name = state.projects[p].worktrees[w].name.clone();
        let said = text::concat3("removed worktree '", name.as_str(), "'");
        assert(m.worktree(p, w)->Some_0.name == name@);
        mutate::remove_worktree(state, p, w);
        left = left - 1;
        state.command_status = Some(said);
    }
    fix_active(state, p, w, left);
    fix_selection(state, p, w, left);
    state.pr_statuses.close_up(p, w);
    cmds.push(Command::SaveProjectConfig(p));
    assert(cmds@ =~= old(cmds)@ + worktree_removed(old(state)@, p, w).1);
}

/// A removal leaves the active worktree and the cursor on the worktree that they
/// were on, where that is another than the one removed.
pub proof fn law_cursor_follows_its_worktree(m: AppModel, p: usize, w: usize, c: (usize, usize))
    requires
        m.worktree(p, w) is Some,
        m.worktree(c.0, c.1) is Some,
        c != (p, w),
        m.sidebar_selection == Some((c.0, Some(c.1))),
        m.active_worktree == Some(c),
    ensures
        ({
            let after = worktree_removed(m, p, w).0;
            &&& after.active_worktree matches Some((x, y)) && after.worktree(x, y) == m.worktree(
                c.0,
                c.1,
            )
            &&& after.sidebar_selection matches Some((x, Some(y))) && after.worktree(x, y)
                == m.worktree(c.0, c.1)
        }),
{
}

/// Where the active worktree is the one that goes, none is active.
pub proof fn law_removed_worktree_is_not_active(m: AppModel, p: usize, w: usize)
    requires
        m.active_worktree == Some((p, w)),
    ensures
        worktree_removed(m, p, w).0.active_worktree is None,
{
}

// ---------------------------------------------------------------------------
// Supervisors
// ---------------------------------------------------------------------------

/// Whether a session is in a worktree of a project on that supervisor.
pub open spec fn lives_on(projects: Seq<ProjectModel>, sup: SupervisorId, id: SessionId) -> bool {
    exists|i: int, j: int|
        0 <= i < projects.len() && projects[i].supervisor == sup && 0 <= j
            < projects[i].worktrees.len() && (#[trigger] projects[i].worktrees[j]).sessions.contains(
            id,
        )
}

/// The first `n` sessions, but for those on that supervisor.
pub open spec fn staying(m: AppModel, sup: SupervisorId, n: nat) -> Seq<SessionId>
    decreases n,
{
    if n == 0 {
        seq![]
    } else if lives_on(m.projects, sup, m.sessions[n - 1]) {
        staying(m, sup, (n - 1) as nat)
    } else {
        staying(m, sup, (n - 1) as nat).push(m.sessions[n - 1])
    }
}

/// A supervisor's connection ended. Without the local one there is nothing left
/// to attach to, and the program ends. A remote takes its own sessions and its
/// section of the usage popup with it, and the rest goes on.
pub open spec fn supervisor_lost(m: AppModel, sup: SupervisorId, reason: Seq<char>) -> AppModel {
    if sup == local_id() {
        AppModel {
            sessions: seq![],
            pending_op: None,
            mode: Mode::Normal,
            command_status: Some("supervisor lost: "@ + reason),
            running: false,
            ..all_swept(m, Sweep::All)
        }
    } else {
        AppModel {
            sessions: staying(m, sup, m.sessions.len()),
            active_worktree: match m.active_worktree {
                Some((p, w)) => if p < m.projects.len() && m.projects[p as int].supervisor == sup {
                    None
                } else {
                    Some((p, w))
                },
                None => None,
            },
            command_status: Some(
                "remote supervisor '"@ + m.supervisors.name_of(sup) + "' disconnected"@,
            ),
            usage_popup: match m.usage_popup {
                Some(popup) => Some(section_dropped(popup, sup)),
                None => None,
            },
            ..all_swept(m, Sweep::On(sup))
        }
    }
}

fn has_id(list: &Vec<SessionId>, id: SessionId) -> (r: bool)
    ensures
        r == list@.contains(id),
{
    let mut i: usize = 0;
    while i < list.len()
        invariant
            i <= list.len(),
            forall|j: int| 0 <= j < i ==> list[j] != id,
        decreases list.len() - i,
    {
        if list[i] == id {
            return true;
        }
        i += 1;
    }
    false
}

fn is_on(state: &AppState, sup: SupervisorId, id: SessionId) -> (r: bool)
    ensures
        r == lives_on(state@.projects, sup, id),
{
    let ghost ps = state@.projects;
    let mut i: usize = 0;
    while i < state.projects.len()
        invariant
            i <= state.projects.len(),
            ps == state@.projects,
            forall|a: int, b: int|
                0 <= a < i && ps[a].supervisor == sup && 0 <= b < ps[a].worktrees.len() ==> !(
                #[trigger] ps[a].worktrees[b]).sessions.contains(id),
        decreases state.projects.len() - i,
    {
        if state.projects[i].supervisor == sup {
            let mut j: usize = 0;
            assert(ps[i as int] == state.projects@[i as int]@);
            while j < state.projects[i].worktrees.len()
                invariant
                    i < state.projects.len(),
                    j <= state.projects[i as int].worktrees.len(),
                    ps == state@.projects,
                    ps[i as int].supervisor == sup,
                    forall|b: int|
                        0 <= b < j ==> !(#[trigger] ps[i as int].worktrees[b]).sessions.contains(
                            id,
                        ),
                decreases state.projects[i as int].worktrees.len() - j,
            {
                assert(ps[i as int].worktrees[j as int].sessions
                    == state.projects@[i as int].worktrees@[j as int].sessions@);
                if has_id(&state.projects[i].worktrees[j].sessions, id) {
                    return true;
                }
                j += 1;
            }
        }
        i += 1;
    }
    false
}

fn sessions_staying(state: &AppState, sup: SupervisorId) -> (r: Vec<SessionId>)
    ensures
        r@ == staying(state@, sup, state@.sessions.len()),
{
    let ids = state.sessions.ids();
    let mut out: Vec<SessionId> = Vec::new();
    let mut i: usize = 0;
    while i < ids.len()
        invariant
            i <= ids.len(),
            ids@ == state@.sessions,
            out@ == staying(state@, sup, i as nat),
        decreases ids.len() - i,
    {
        if !is_on(state, sup, ids[i]) {
            out.push(ids[i]);
        }
        i += 1;
    }
    out
}

/// Deals with a supervisor whose connection ended.
#[verifier::spinoff_prover]
pub fn lose_supervisor(state: &mut AppState, sup: SupervisorId, reason: &str)
    ensures
        final(state)@ == supervisor_lost(old(state)@, sup, reason@),
{
    if sup == local() {
        tabs::sweep(state, Sweep::All);
        state.sessions.clear();
        state.pending_op = None;
        state.mode = Mode::Normal;
        state.command_status = Some(text::concat2("supervisor lost: ", reason));
        state.running = false;
        assert(state@.sessions =~= seq![]);
    } else {
        let name = state.supervisors.name_of(sup);
        let left = sessions_staying(state, sup);
        let mut gone = false;
        if let Some((p, _)) = state.active_worktree {
            if p < state.projects.len() && state.projects[p].supervisor == sup {
                gone = true;
            }
        }
        tabs::sweep(state, Sweep::On(sup));
        state.sessions = session::SessionSet::of(left);
        if gone {
            state.active_worktree = None;
        }
        state.command_status = Some(
            text::concat3("remote supervisor '", name.as_str(), "' disconnected"),
        );
        if let Some(popup) = &mut state.usage_popup {
            usage::drop_section(popup, sup);
        }
    }
}

/// A worktree that was added opens with a terminal that runs the setup script of
/// its project first.
pub proof fn law_new_worktrees_run_the_setup_script(m: AppModel, p: usize, wt: WorktreeModel)
    requires
        p < m.projects.len(),
    ensures
        exists|i: int|
            0 <= i < worktree_added(m, p, wt).1.len() && (#[trigger] worktree_added(m, p, wt).1[i]
                matches CommandModel::SpawnInWorktree { cwd, initial_command, .. } && cwd == wt.path
                && initial_command == m.projects[p as int].setup_script),
{
    let cmds = worktree_added(m, p, wt).1;
    assert(cmds[1] is SpawnInWorktree);
}

/// Losing a remote supervisor leaves the sessions of every other one alone.
pub proof fn law_other_supervisors_keep_their_sessions(
    m: AppModel,
    sup: SupervisorId,
    reason: Seq<char>,
    p: usize,
)
    requires
        sup != local_id(),
        p < m.projects.len(),
        m.projects[p as int].supervisor != sup,
    ensures
        supervisor_lost(m, sup, reason).running == m.running,
        supervisor_lost(m, sup, reason).projects[p as int].worktrees
            == m.projects[p as int].worktrees,
{
}

} // verus!
