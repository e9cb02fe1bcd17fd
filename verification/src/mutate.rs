//! Small changes to the state, each with its effect on the model.

use crate::app::{AppModel, AppState, ProjectModel, Worktree, WorktreeModel};
use crate::session::SessionId;
use vstd::prelude::*;

verus! {

proof fn lemma_worktree_changed(before: AppState, after: AppState, p: usize, w: usize)
    requires
        p < before.projects@.len(),
        w < before.projects@[p as int].worktrees@.len(),
        after.projects@.len() == before.projects@.len(),
        forall|k: int|
            0 <= k < before.projects@.len() && k != p ==> after.projects@[k] == before.projects@[k],
        after.projects@[p as int].worktrees@.len() == before.projects@[p as int].worktrees@.len(),
        forall|k: int|
            0 <= k < before.projects@[p as int].worktrees@.len() && k != w
                ==> after.projects@[p as int].worktrees@[k]
                == before.projects@[p as int].worktrees@[k],
        after.projects@[p as int]@ == (ProjectModel {
            worktrees: after.projects@[p as int]@.worktrees,
            ..before.projects@[p as int]@
        }),
        after@ == (AppModel { projects: after@.projects, ..before@ }),
    ensures
        after@ == before@.with_worktree(
            p,
            w,
            after.projects@[p as int].worktrees@[w as int]@,
        ),
{
    let wt = after.projects@[p as int].worktrees@[w as int]@;
    let want = before@.with_worktree(p, w, wt);
    assert(after@.projects[p as int].worktrees =~= want.projects[p as int].worktrees);
    assert(after@.projects =~= want.projects);
}

/// Whether there is a worktree `w` of project `p`.
pub fn has_worktree(state: &AppState, p: usize, w: usize) -> (r: bool)
    ensures
        r == (state@.worktree(p, w) is Some),
{
    p < state.projects.len() && w < state.projects[p].worktrees.len()
}

/// Brings a tab of a worktree to the front.
pub fn set_tab(state: &mut AppState, p: usize, w: usize, tab: Option<usize>)
    requires
        old(state)@.worktree(p, w) is Some,
    ensures
        final(state)@ == old(state)@.with_worktree(
            p,
            w,
            WorktreeModel { active_tab: tab, ..old(state)@.worktree(p, w)->Some_0 },
        ),
{
    state.projects[p].worktrees[w].active_tab = tab;
    proof {
        lemma_worktree_changed(*old(state), *state, p, w);
    }
}

/// Opens a tab behind the others of a worktree.
pub fn push_session(state: &mut AppState, p: usize, w: usize, id: SessionId)
    requires
        old(state)@.worktree(p, w) is Some,
    ensures
        final(state)@ == old(state)@.with_worktree(
            p,
            w,
            WorktreeModel {
                sessions: old(state)@.worktree(p, w)->Some_0.sessions.push(id),
                ..old(state)@.worktree(p, w)->Some_0
            },
        ),
{
    state.projects[p].worktrees[w].sessions.push(id);
    proof {
        lemma_worktree_changed(*old(state), *state, p, w);
    }
}

/// Takes a tab out of a worktree.
pub fn remove_session_at(state: &mut AppState, p: usize, w: usize, at: usize) -> (id: SessionId)
    requires
        old(state)@.worktree(p, w) is Some,
        at < old(state)@.worktree(p, w)->Some_0.sessions.len(),
    ensures
        id == old(state)@.worktree(p, w)->Some_0.sessions[at as int],
        final(state)@ == old(state)@.with_worktree(
            p,
            w,
            WorktreeModel {
                sessions: old(state)@.worktree(p, w)->Some_0.sessions.remove(at as int),
                ..old(state)@.worktree(p, w)->Some_0
            },
        ),
{
    let id: u64 = state.projects[p].worktrees[w].sessions.remove(at);
    proof {
        lemma_worktree_changed(*old(state), *state, p, w);
    }
    id
}

/// Takes every tab out of a worktree.
pub fn clear_worktree(state: &mut AppState, p: usize, w: usize)
    requires
        old(state)@.worktree(p, w) is Some,
    ensures
        final(state)@ == old(state)@.with_worktree(
            p,
            w,
            WorktreeModel {
                sessions: seq![],
                active_tab: None,
                ..old(state)@.worktree(p, w)->Some_0
            },
        ),
{
    state.projects[p].worktrees[w].sessions.clear();
    state.projects[p].worktrees[w].active_tab = None;
    proof {
        lemma_worktree_changed(*old(state), *state, p, w);
    }
}

/// Appends a worktree to a project.
pub fn push_worktree(state: &mut AppState, p: usize, wt: Worktree)
    requires
        p < old(state)@.projects.len(),
    ensures
        final(state)@ == old(state)@.with_project(
            p,
            ProjectModel {
                worktrees: old(state)@.projects[p as int].worktrees.push(wt@),
                ..old(state)@.projects[p as int]
            },
        ),
{
    let ghost before = state@.projects[p as int].worktrees;
    state.projects[p].worktrees.push(wt);
    assert(state@.projects[p as int].worktrees =~= before.push(wt@));
    assert(state@.projects =~= old(state)@.with_project(
        p,
        ProjectModel { worktrees: before.push(wt@), ..old(state)@.projects[p as int] },
    ).projects);
}

/// Takes a worktree out of a project.
pub fn remove_worktree(state: &mut AppState, p: usize, w: usize)
    requires
        old(state)@.worktree(p, w) is Some,
    ensures
        final(state)@ == old(state)@.with_project(
            p,
            ProjectModel {
                worktrees: old(state)@.projects[p as int].worktrees.remove(w as int),
                ..old(state)@.projects[p as int]
            },
        ),
{
    let ghost before = state@.projects[p as int].worktrees;
    let _ = state.projects[p].worktrees.remove(w);
    assert(state@.projects[p as int].worktrees =~= before.remove(w as int));
    assert(state@.projects =~= old(state)@.with_project(
        p,
        ProjectModel { worktrees: before.remove(w as int), ..old(state)@.projects[p as int] },
    ).projects);
}

/// Folds or unfolds a project.
pub fn set_expanded(state: &mut AppState, p: usize, expanded: bool)
    requires
        p < old(state)@.projects.len(),
    ensures
        final(state)@ == old(state)@.with_project(
            p,
            ProjectModel { expanded, ..old(state)@.projects[p as int] },
        ),
{
    state.projects[p].expanded = expanded;
    assert(state@.projects =~= old(state)@.with_project(
        p,
        ProjectModel { expanded, ..old(state)@.projects[p as int] },
    ).projects);
}

/// Switches a project's GitHub integration.
pub fn set_github(state: &mut AppState, p: usize, github_enabled: bool)
    requires
        p < old(state)@.projects.len(),
    ensures
        final(state)@ == old(state)@.with_project(
            p,
            ProjectModel { github_enabled, ..old(state)@.projects[p as int] },
        ),
{
    state.projects[p].github_enabled = github_enabled;
    assert(state@.projects =~= old(state)@.with_project(
        p,
        ProjectModel { github_enabled, ..old(state)@.projects[p as int] },
    ).projects);
}

/// Gives a project its setup script.
pub fn set_script(state: &mut AppState, p: usize, script: Option<String>)
    requires
        p < old(state)@.projects.len(),
    ensures
        final(state)@ == old(state)@.with_project(
            p,
            ProjectModel {
                setup_script: crate::text::opt_text(script),
                ..old(state)@.projects[p as int]
            },
        ),
{
    state.projects[p].setup_script = script;
    assert(state@.projects =~= old(state)@.with_project(
        p,
        ProjectModel {
            setup_script: crate::text::opt_text(script),
            ..old(state)@.projects[p as int]
        },
    ).projects);
}

} // verus!
