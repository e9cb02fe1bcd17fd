//! What becomes of sessions, worktrees and projects.

use crate::app::{
    AppModel, CommandModel, PrStatus, ProjectModel, SupervisorId, UpdateStatus, Worktree,
    WorktreeModel,
};
use crate::layout::TermSize;
use crate::lifecycle::{
    has_path, lives_on, merged, opened_config, project_listed, resized, session_ended,
    session_spawned, staying, supervisor_lost, worktree_added, worktree_removed,
    worktrees_imported,
};
use crate::reducer::{
    found, noted, pr_fetches, prs_fetched, update_checked, update_due, update_installed,
};
use crate::sidebar::regions_of;
use crate::tabs::session_place;
use crate::updater::{InstallOutcome, UpdateInfo};
use vstd::prelude::*;

verus! {

/// A session that was spawned becomes the last tab of the worktree it was spawned for
/// and comes to its front; no other worktree changes. Where that worktree has gone,
/// the session is killed.
pub proof fn law_spawned_sessions_come_to_the_front(m: AppModel, id: u64, p: int, w: int)
    requires
        0 <= p <= usize::MAX,
        0 <= w <= usize::MAX,
    ensures
        ({
            let (after, cmds) = session_spawned(m, id, (p as usize, w as usize));
            if p < m.projects.len() && w < m.projects[p].worktrees.len() {
                let wt = m.projects[p].worktrees[w];
                &&& cmds.len() == 0
                &&& after.projects[p].worktrees[w] == (WorktreeModel {
                    sessions: wt.sessions.push(id),
                    active_tab: Some(wt.sessions.len() as usize),
                    ..wt
                })
                &&& after.sessions.contains(id)
                &&& forall|i: int|
                    0 <= i < m.projects.len() && i != p ==> #[trigger] after.projects[i]
                        == m.projects[i]
                &&& forall|j: int|
                    0 <= j < m.projects[p].worktrees.len() && j != w
                        ==> #[trigger] after.projects[p].worktrees[j] == m.projects[p].worktrees[j]
            } else {
                after == m && cmds == seq![CommandModel::KillSession(id)]
            }
        }),
{
    let s = m.sessions;
    if !s.contains(id) {
        assert(s.push(id)[s.len() as int] == id);
    }
}

proof fn lemma_session_place(s: Seq<u64>, id: u64, from: int, k: int)
    requires
        0 <= from <= k < s.len(),
        s[k] == id,
        forall|j: int| 0 <= j < k ==> s[j] != id,
    ensures
        session_place(s, id, from) == Some(k),
    decreases k - from,
{
    if from < k {
        assert(s[from] != id);
        lemma_session_place(s, id, from + 1, k);
    }
}

proof fn lemma_no_session(s: Seq<u64>, id: u64, from: int)
    requires
        0 <= from <= s.len(),
        !s.contains(id),
    ensures
        session_place(s, id, from) is None,
    decreases s.len() - from,
{
    if from < s.len() {
        assert(s.contains(s[from]));
        lemma_no_session(s, id, from + 1);
    }
}

/// A session that ended leaves its worktree, where the other tabs keep their order,
/// and worktrees that do not hold it stay as they are.
pub proof fn law_ended_sessions_leave_their_worktree(m: AppModel, id: u64, p: int, w: int, k: int)
    requires
        0 <= p < m.projects.len(),
        0 <= w < m.projects[p].worktrees.len(),
    ensures
        ({
            let wt = m.projects[p].worktrees[w];
            let after = session_ended(m, id);
            let now = after.projects[p].worktrees[w];
            &&& after.projects.len() == m.projects.len()
            &&& !wt.sessions.contains(id) ==> now == wt
            &&& (0 <= k < wt.sessions.len() && wt.sessions[k] == id && forall|j: int|
                0 <= j < k ==> wt.sessions[j] != id) ==> {
                &&& now.sessions == wt.sessions.take(k) + wt.sessions.skip(k + 1)
                &&& now.path == wt.path && now.name == wt.name && now.branch == wt.branch
                &&& now.active_tab == (match wt.active_tab {
                    Some(at) => if wt.sessions.len() == 1 {
                        None
                    } else if at < wt.sessions.len() - 1 {
                        Some(at)
                    } else {
                        Some((wt.sessions.len() - 2) as usize)
                    },
                    None => None,
                })
            }
        }),
{
    let wt = m.projects[p].worktrees[w];
    if !wt.sessions.contains(id) {
        lemma_no_session(wt.sessions, id, 0);
    }
    if 0 <= k < wt.sessions.len() && wt.sessions[k] == id && forall|j: int|
        0 <= j < k ==> wt.sessions[j] != id {
        lemma_session_place(wt.sessions, id, 0, k);
        assert(wt.sessions.remove(k) =~= wt.sessions.take(k) + wt.sessions.skip(k + 1));
    }
}

/// A terminal of another size reaches every session, as the size of the pane that it
/// then has: once each, in order.
pub proof fn law_a_resize_reaches_every_session(m: AppModel, size: TermSize)
    ensures
        ({
            let (after, cmds) = resized(m, size);
            let pane = regions_of(after).terminal;
            &&& after == (AppModel { term_size: size, ..m })
            &&& cmds.len() == m.sessions.len()
            &&& forall|i: int|
                0 <= i < m.sessions.len() ==> #[trigger] cmds[i] == CommandModel::ResizePty(
                    m.sessions[i],
                    pane.height,
                    pane.width,
                )
        }),
{
}

// ---------------------------------------------------------------------------
// Projects
// ---------------------------------------------------------------------------

/// A repository that was opened becomes the last project, under the name, path,
/// script and supervisor that were given, with its main worktree; the config and the
/// project are saved, and existing worktrees are asked for exactly where that was
/// wanted.
pub proof fn law_an_opened_project_is_listed_and_saved(
    m: AppModel,
    project: ProjectModel,
    import: bool,
)
    requires
        m.projects.len() < usize::MAX,
    ensures
        ({
            let at = m.projects.len();
            let (after, cmds) = project_listed(m, project, import);
            &&& after.projects == m.projects.push(project)
            &&& cmds.len() == (if import {
                3int
            } else {
                2
            })
            &&& cmds[0] == CommandModel::SaveGlobalConfig
            &&& cmds[1] == CommandModel::SaveProjectConfig(at as usize)
            &&& import ==> cmds[2] == (CommandModel::ImportWorktrees {
                project_idx: at as usize,
                repo_path: project.repo_path,
            })
            &&& m.sidebar_selection is Some ==> after.sidebar_selection == m.sidebar_selection
            &&& m.sidebar_selection is None ==> after.sidebar_selection == Some(
                (at as usize, None::<usize>),
            )
            &&& after.sessions == m.sessions
        }),
{
}

/// The config of a repository that was opened holds what was found out about it: one
/// worktree at the repository's path, on the branch that is checked out and named
/// after it.
pub proof fn law_an_opened_repository_has_its_main_worktree(
    m: AppModel,
    supervisor: SupervisorId,
    path: Seq<char>,
    name: Seq<char>,
    head: Option<Seq<char>>,
    script: Option<Seq<char>>,
)
    ensures
        ({
            let c = opened_config(m, supervisor, path, name, head, script);
            &&& c.name == name && c.path == path && c.setup_script == script
            &&& c.expanded && c.github_enabled && c.launchers.len() == 0
            &&& c.worktrees.len() == 1
            &&& c.worktrees[0].1 == path && c.worktrees[0].2 == head
            &&& head matches Some(b) ==> c.worktrees[0].0 == b
            &&& head is None ==> c.worktrees[0].0 == "main"@
        }),
{
}

/// A worktree that was added becomes the last one of its project and the active one,
/// with the cursor on it; the project is saved, and a tab opens in it, on the
/// project's supervisor, that runs the project's setup script.
pub proof fn law_an_added_worktree_gets_a_tab(m: AppModel, p: int, wt: WorktreeModel)
    requires
        0 <= p < m.projects.len() <= usize::MAX,
        m.projects[p].worktrees.len() < usize::MAX,
    ensures
        ({
            let project = m.projects[p];
            let w = project.worktrees.len();
            let (after, cmds) = worktree_added(m, p as usize, wt);
            &&& after.projects[p].worktrees == project.worktrees.push(wt)
            &&& after.active_worktree == Some((p as usize, w as usize))
            &&& after.sidebar_selection == Some((p as usize, Some(w as usize)))
            &&& after.pending_op is None
            &&& cmds.len() == 2
            &&& cmds[0] == CommandModel::SaveProjectConfig(p as usize)
            &&& cmds[1] == (CommandModel::SpawnInWorktree {
                supervisor: project.supervisor,
                rows: regions_of(m).terminal.height,
                cols: regions_of(m).terminal.width,
                cwd: wt.path,
                dest: (p as usize, w as usize),
                initial_command: project.setup_script,
                project_slug: project.slug,
                worktree_name: wt.name,
            })
        }),
{
}

/// A worktree that was removed leaves its project, the others keep their order, and
/// the project is saved. The active worktree and the cursor stay on what they were
/// on; if that is gone, no worktree is active and the cursor goes to the neighbour.
pub proof fn law_a_removed_worktree_leaves_its_project(
    m: AppModel,
    p: int,
    w: int,
    other: int,
)
    requires
        0 <= p < m.projects.len() <= usize::MAX,
        0 <= w < m.projects[p].worktrees.len() <= usize::MAX,
        0 <= other < m.projects[p].worktrees.len(),
        other != w,
    ensures
        ({
            let list = m.projects[p].worktrees;
            let (after, cmds) = worktree_removed(m, p as usize, w as usize);
            let now = after.projects[p].worktrees;
            let moved = if other > w {
                other - 1
            } else {
                other
            };
            &&& now == list.take(w) + list.skip(w + 1)
            &&& now[moved] == list[other]
            &&& cmds == seq![CommandModel::SaveProjectConfig(p as usize)]
            &&& m.active_worktree == Some((p as usize, w as usize)) ==> after.active_worktree
                is None
            &&& m.active_worktree == Some((p as usize, other as usize)) ==> after.active_worktree
                == Some((p as usize, moved as usize))
            &&& (m.active_worktree matches Some((i, _)) && i != p) ==> after.active_worktree
                == m.active_worktree
            &&& m.sidebar_selection == Some((p as usize, Some(other as usize)))
                ==> after.sidebar_selection == Some((p as usize, Some(moved as usize)))
            &&& (m.sidebar_selection matches Some((i, _)) && i != p) ==> after.sidebar_selection
                == m.sidebar_selection
            &&& after.pending_op is None
        }),
{
    let list = m.projects[p].worktrees;
    assert(list.remove(w) =~= list.take(w) + list.skip(w + 1));
}

/// The status of a worktree behind a removed one moves up with it, that of the
/// removed one is forgotten, and those of the others stay.
pub proof fn law_statuses_move_up_with_their_worktrees(
    m: AppModel,
    p: usize,
    w: usize,
    q: usize,
    v: usize,
)
    ensures
        ({
            let now = worktree_removed(m, p, w).0.pr_statuses;
            let was = m.pr_statuses;
            let from = if q == p && v >= w {
                v + 1
            } else {
                v as int
            };
            from <= usize::MAX ==> {
                &&& now.dom().contains((q, v)) <==> was.dom().contains((q, from as usize))
                &&& was.dom().contains((q, from as usize)) ==> now[(q, v)] == was[(q, from as usize)]
            }
        }),
{
}

/// An import adds the listed worktrees whose paths are new, behind those that are
/// there, and keeps those; the project is saved if there were any.
pub proof fn law_an_import_adds_what_is_new(m: AppModel, p: int, entries: Seq<Worktree>, i: int)
    requires
        0 <= p < m.projects.len() <= usize::MAX,
    ensures
        ({
            let list = m.projects[p].worktrees;
            let (after, cmds) = worktrees_imported(m, p as usize, entries);
            let now = after.projects[p].worktrees;
            &&& list.len() <= now.len()
            &&& now.take(list.len() as int) == list
            &&& 0 <= i < entries.len() ==> has_path(now, entries[i]@.path)
            &&& cmds == (if now.len() > list.len() {
                seq![CommandModel::SaveProjectConfig(p as usize)]
            } else {
                seq![]
            })
            &&& after.pending_op is None
        }),
{
    lemma_merged(m.projects[p].worktrees, entries, entries.len());
}

proof fn lemma_merged(list: Seq<WorktreeModel>, entries: Seq<Worktree>, n: nat)
    requires
        n <= entries.len(),
    ensures
        list.len() <= merged(list, entries, n).len(),
        merged(list, entries, n).take(list.len() as int) == list,
        forall|i: int|
            0 <= i < n ==> has_path(merged(list, entries, n), (#[trigger] entries[i])@.path),
    decreases n,
{
    let now = merged(list, entries, n);
    if n > 0 {
        lemma_merged(list, entries, (n - 1) as nat);
        let before = merged(list, entries, (n - 1) as nat);
        assert(now.take(list.len() as int) =~= before.take(list.len() as int));
        assert forall|i: int| 0 <= i < n implies has_path(now, (#[trigger] entries[i])@.path) by {
            if i < n - 1 {
                assert(has_path(before, entries[i]@.path));
                let k = choose|k: int|
                    0 <= k < before.len() && crate::paths::same_way(
                        (#[trigger] before[k]).path,
                        entries[i]@.path,
                    );
                assert(now[k] == before[k]);
            } else if !has_path(before, entries[i]@.path) {
                assert(now[before.len() as int] == entries[i]@);
                assert(crate::paths::same_way(now[before.len() as int].path, entries[i]@.path));
            }
        }
    } else {
        assert(list.take(list.len() as int) =~= list);
    }
}

// ---------------------------------------------------------------------------
// Supervisors
// ---------------------------------------------------------------------------

proof fn lemma_staying(m: AppModel, sup: SupervisorId, n: nat)
    requires
        n <= m.sessions.len(),
    ensures
        forall|id: u64| #[trigger]
            staying(m, sup, n).contains(id) <==> m.sessions.take(n as int).contains(id)
                && !lives_on(m.projects, sup, id),
    decreases n,
{
    let now = staying(m, sup, n);
    if n > 0 {
        lemma_staying(m, sup, (n - 1) as nat);
        let before = staying(m, sup, (n - 1) as nat);
        let all = m.sessions.take(n as int);
        let front = m.sessions.take(n - 1);
        let last = m.sessions[n - 1];
        assert forall|id: u64| #[trigger] now.contains(id) <==> all.contains(id) && !lives_on(
            m.projects,
            sup,
            id,
        ) by {
            assert(before.contains(id) <==> front.contains(id) && !lives_on(m.projects, sup, id));
            assert(all.contains(id) <==> front.contains(id) || id == last) by {
                if all.contains(id) {
                    let k = choose|k: int| 0 <= k < all.len() && all[k] == id;
                    if k < n - 1 {
                        assert(front[k] == id);
                    }
                }
                if front.contains(id) {
                    let k = choose|k: int| 0 <= k < front.len() && front[k] == id;
                    assert(all[k] == id);
                }
                assert(all[n - 1] == last);
            }
            if !lives_on(m.projects, sup, last) {
                assert(now[before.len() as int] == last);
                if before.contains(id) {
                    let k = choose|k: int| 0 <= k < before.len() && before[k] == id;
                    assert(now[k] == id);
                }
                if now.contains(id) {
                    let k = choose|k: int| 0 <= k < now.len() && now[k] == id;
                    if k < before.len() {
                        assert(before[k] == id);
                    }
                }
            }
        }
    }
}

/// A remote that is lost takes its own sessions with it: they leave the state and the
/// tabs of its projects. Sessions and worktrees on other supervisors stay, and the
/// program goes on.
pub proof fn law_a_lost_remote_takes_only_its_own(
    m: AppModel,
    sup: SupervisorId,
    reason: Seq<char>,
    p: int,
    w: int,
)
    requires
        sup != crate::app::local_id(),
        0 <= p < m.projects.len(),
        0 <= w < m.projects[p].worktrees.len(),
    ensures
        ({
            let wt = m.projects[p].worktrees[w];
            let after = supervisor_lost(m, sup, reason);
            let now = after.projects[p].worktrees[w];
            &&& after.running == m.running
            &&& after.mode == m.mode
            &&& m.projects[p].supervisor == sup ==> now.sessions.len() == 0 && now.active_tab
                is None && now.path == wt.path
            &&& m.projects[p].supervisor != sup ==> now == wt
            &&& forall|id: u64| #[trigger]
                after.sessions.contains(id) <==> m.sessions.contains(id) && !lives_on(
                    m.projects,
                    sup,
                    id,
                )
            &&& (m.active_worktree matches Some((i, _)) && i < m.projects.len()
                && m.projects[i as int].supervisor == sup) ==> after.active_worktree is None
            &&& (m.active_worktree matches Some((i, _)) && i < m.projects.len()
                && m.projects[i as int].supervisor != sup) ==> after.active_worktree
                == m.active_worktree
        }),
{
    lemma_staying(m, sup, m.sessions.len());
    assert(m.sessions.take(m.sessions.len() as int) =~= m.sessions);
}

/// Without the local supervisor the program ends, and no session is left.
pub proof fn law_without_the_local_supervisor_it_ends(
    m: AppModel,
    reason: Seq<char>,
    p: int,
    w: int,
)
    requires
        0 <= p < m.projects.len(),
        0 <= w < m.projects[p].worktrees.len(),
    ensures
        ({
            let after = supervisor_lost(m, crate::app::local_id(), reason);
            &&& !after.running
            &&& after.sessions.len() == 0
            &&& after.projects[p].worktrees[w].sessions.len() == 0
            &&& after.mode is Normal
        }),
{
}

// ---------------------------------------------------------------------------
// Updates
// ---------------------------------------------------------------------------

/// A release that was found is installed at once where the user asked for that and
/// else only offered; a check that found nothing forgets an older offer; and a check
/// that failed keeps it. Only a user who asked hears that there is nothing.
pub proof fn law_found_releases_are_offered_or_installed(
    m: AppModel,
    r: Result<Option<UpdateInfo>, String>,
)
    ensures
        ({
            let (after, cmds) = update_checked(m, r);
            let asked = m.auto_install_after_check;
            &&& !after.auto_install_after_check
            &&& match r {
                Ok(Some(info)) => {
                    &&& after.available_update == Some(info)
                    &&& cmds == (if asked {
                        seq![CommandModel::InstallUpdate { tag: info.latest_tag@ }]
                    } else {
                        seq![]
                    })
                    &&& after.update_status == (if asked {
                        UpdateStatus::Installing
                    } else {
                        UpdateStatus::Idle
                    })
                },
                Ok(None) => after.available_update is None && cmds.len() == 0
                    && after.update_status is Idle && (!asked ==> after.command_status
                    == m.command_status),
                Err(_) => after.available_update == m.available_update && cmds.len() == 0
                    && after.update_status is Idle && (!asked ==> after.command_status
                    == m.command_status),
            }
        }),
{
}

/// The hourly check looks for a release unless a check or an install is under way or
/// a restart is due; an install that worked takes the offer away.
pub proof fn law_the_hourly_check_waits_its_turn(m: AppModel, r: Result<InstallOutcome, String>)
    ensures
        m.update_status is Idle ==> update_due(m).1 == seq![CommandModel::CheckForUpdate]
            && update_due(m).0.update_status is Checking,
        !(m.update_status is Idle) ==> update_due(m) == (m, Seq::<CommandModel>::empty()),
        r is Ok ==> update_installed(m, r).available_update is None && update_installed(
            m,
            r,
        ).update_status is InstalledPendingRestart,
        r is Err ==> update_installed(m, r).available_update == m.available_update
            && update_installed(m, r).update_status is Idle,
        update_installed(m, r).sessions == m.sessions && update_installed(m, r).projects
            == m.projects,
{
}

// ---------------------------------------------------------------------------
// Pull requests
// ---------------------------------------------------------------------------

proof fn lemma_fetches(m: AppModel, n: nat, p: int)
    requires
        0 <= p < n <= m.projects.len() <= usize::MAX,
        m.projects[p].github_enabled,
    ensures
        exists|k: int|
            0 <= k < pr_fetches(m, n).len() && asks_for(#[trigger] pr_fetches(m, n)[k], m, p),
    decreases n,
{
    let now = pr_fetches(m, n);
    let before = pr_fetches(m, (n - 1) as nat);
    if p < n - 1 {
        lemma_fetches(m, (n - 1) as nat, p);
        let k = choose|k: int| 0 <= k < before.len() && asks_for(#[trigger] before[k], m, p);
        assert(now[k] == before[k]);
    } else {
        assert(asks_for(now[before.len() as int], m, p));
    }
}

/// Whether a command asks for the statuses of all worktrees of a project.
pub open spec fn asks_for(c: CommandModel, m: AppModel, p: int) -> bool {
    c matches CommandModel::FetchPrStatuses { project_idx, repo_path, worktrees } && {
        &&& project_idx == p
        &&& repo_path == m.projects[p].repo_path
        &&& worktrees.len() == m.projects[p].worktrees.len()
        &&& forall|i: int|
            0 <= i < worktrees.len() ==> #[trigger] worktrees[i] == (
                i as usize,
                m.projects[p].worktrees[i].path,
            )
    }
}

/// The periodic check asks for the statuses of every project that has the
/// integration on, and of no other.
pub proof fn law_the_periodic_check_covers_enabled_projects(m: AppModel, p: int)
    requires
        0 <= p < m.projects.len() <= usize::MAX,
    ensures
        m.projects[p].github_enabled ==> exists|k: int|
            0 <= k < pr_fetches(m, m.projects.len()).len() && asks_for(
                #[trigger] pr_fetches(m, m.projects.len())[k],
                m,
                p,
            ),
        forall|k: int|
            0 <= k < pr_fetches(m, m.projects.len()).len() ==> enabled_one(
                #[trigger] pr_fetches(m, m.projects.len())[k],
                m,
            ),
{
    if m.projects[p].github_enabled {
        lemma_fetches(m, m.projects.len(), p);
    }
    lemma_only_enabled(m, m.projects.len());
}

/// Whether a command asks for statuses of a project that has the integration on.
pub open spec fn enabled_one(c: CommandModel, m: AppModel) -> bool {
    c matches CommandModel::FetchPrStatuses { project_idx, .. } && project_idx < m.projects.len()
        && m.projects[project_idx as int].github_enabled
}

proof fn lemma_only_enabled(m: AppModel, n: nat)
    requires
        n <= m.projects.len() <= usize::MAX,
    ensures
        forall|k: int|
            0 <= k < pr_fetches(m, n).len() ==> enabled_one(#[trigger] pr_fetches(m, n)[k], m),
    decreases n,
{
    if n > 0 {
        lemma_only_enabled(m, (n - 1) as nat);
        let before = pr_fetches(m, (n - 1) as nat);
        let now = pr_fetches(m, n);
        assert forall|k: int| 0 <= k < now.len() implies enabled_one(#[trigger] now[k], m) by {
            if k < before.len() {
                assert(now[k] == before[k]);
            }
        }
    }
}

/// The last answer for a worktree decides: a status is kept under the worktree, and
/// none takes away what was there; worktrees without an answer, and other projects,
/// keep what they had.
pub proof fn law_the_last_answer_is_the_status(
    m: AppModel,
    p: int,
    answers: Seq<(usize, Option<PrStatus>)>,
    k: int,
    w: usize,
    q: usize,
)
    requires
        0 <= p < m.projects.len() <= usize::MAX,
        w < m.projects[p].worktrees.len(),
    ensures
        ({
            let now = prs_fetched(m, p as usize, answers).pr_statuses;
            let key = (p as usize, w);
            &&& (0 <= k < answers.len() && answers[k].0 == w && forall|j: int|
                k < j < answers.len() ==> (#[trigger] answers[j]).0 != w) ==> match answers[k].1 {
                Some(s) => now.dom().contains(key) && now[key] == s,
                None => !now.dom().contains(key),
            }
            &&& (forall|j: int| 0 <= j < answers.len() ==> (#[trigger] answers[j]).0 != w) ==> (
            now.dom().contains(key) <==> m.pr_statuses.dom().contains(key)) && (
            m.pr_statuses.dom().contains(key) ==> now[key] == m.pr_statuses[key])
            &&& q != p ==> (now.dom().contains((q, w)) <==> m.pr_statuses.dom().contains((q, w)))
                && (m.pr_statuses.dom().contains((q, w)) ==> now[(q, w)] == m.pr_statuses[(q, w)])
        }),
{
    let count = m.projects[p].worktrees.len();
    lemma_noted(m.pr_statuses, p as usize, count, answers, answers.len(), k, w, q);
}

proof fn lemma_noted(
    map: Map<(usize, usize), PrStatus>,
    p: usize,
    count: nat,
    answers: Seq<(usize, Option<PrStatus>)>,
    n: nat,
    k: int,
    w: usize,
    q: usize,
)
    requires
        n <= answers.len(),
        w < count,
    ensures
        ({
            let now = noted(map, p, count, answers, n);
            let key = (p, w);
            &&& (0 <= k < n && answers[k].0 == w && forall|j: int|
                k < j < n ==> (#[trigger] answers[j]).0 != w) ==> match answers[k].1 {
                Some(s) => now.dom().contains(key) && now[key] == s,
                None => !now.dom().contains(key),
            }
            &&& (forall|j: int| 0 <= j < n ==> (#[trigger] answers[j]).0 != w) ==> (
            now.dom().contains(key) <==> map.dom().contains(key)) && (map.dom().contains(key)
                ==> now[key] == map[key])
            &&& q != p ==> (now.dom().contains((q, w)) <==> map.dom().contains((q, w))) && (
            map.dom().contains((q, w)) ==> now[(q, w)] == map[(q, w)])
        }),
    decreases n,
{
    if n > 0 {
        lemma_noted(map, p, count, answers, (n - 1) as nat, k, w, q);
        assert(answers[n - 1] == answers[n - 1]);
    }
}

} // verus!
