//! Pure reducer: deterministic, free of side effects.
//!
//! The only entry point is `reduce(state, action)`: what happened changes the
//! state and asks for commands. `step` says how.

use crate::app::{
    dir_entries, opt_view, project_of, Action, AppModel, AppState, BrowserModel, Command,
    CommandModel, Commands, DirBrowser, Mode, OpenModel, PrStatus, UpdateStatus, WorktreeKey,
};
use crate::cmdline::{line_pasted, paste_into_line};
use crate::commands::{pr_fetch, push_pr_fetch, told};
use crate::editbox::{fresh_box, BoxModel};
use crate::ipc::DirEntry;
use crate::keys::{handle_key, key_step, key_types};
use crate::lifecycle::{
    self, opened_config, project_listed, resized, session_ended, session_spawned, supervisor_lost,
    worktree_added, worktree_removed, worktrees_imported,
};
use crate::mouse::{handle_mouse, mouse_step};
use crate::sidebar::{quiet, Step};
use crate::tabs;
use crate::text;
use crate::updater::{InstallOutcome, UpdateInfo};
use crate::usage::{client_sampled, receive_client_usage, receive_usage, usage_received};
use vstd::prelude::*;

verus! {

// ---------------------------------------------------------------------------
// Pastes and listings
// ---------------------------------------------------------------------------

/// What a paste does: the session in front gets it in Terminal mode, the command
/// line in Command mode; in Normal mode there is nothing to paste into.
pub open spec fn pasted(m: AppModel, s: Seq<char>) -> Step {
    match m.mode {
        Mode::Terminal => match m.focused_session() {
            Some(id) => (m, seq![CommandModel::WritePaste(id, s)]),
            None => quiet(m),
        },
        Mode::Command => quiet(line_pasted(m, s)),
        Mode::Normal => quiet(m),
    }
}

/// What a paste does.
pub fn handle_paste(state: &mut AppState, s: String, cmds: &mut Commands)
    ensures
        final(state)@ == pasted(old(state)@, s@).0,
        final(cmds)@ == old(cmds)@ + pasted(old(state)@, s@).1,
{
    let ghost what = s@;
    assert(cmds@ =~= old(cmds)@ + Seq::<CommandModel>::empty());
    match state.mode {
        Mode::Terminal => {
            let focused = state.focused_session_id();
            if let Some(id) = focused {
                cmds.push(Command::WritePaste(id, s));
                assert(cmds@ =~= old(cmds)@ + pasted(old(state)@, what).1);
            }
        },
        Mode::Command => paste_into_line(state, s.as_str()),
        Mode::Normal => {},
    }
}

/// A directory was listed: the open-project popup, if it is open, shows it.
pub open spec fn dir_listed(
    m: AppModel,
    dir: Seq<char>,
    parent: Option<Seq<char>>,
    entries: Seq<(Seq<char>, bool)>,
) -> AppModel {
    match m.open_project_popup {
        Some(popup) => AppModel {
            open_project_popup: Some(
                OpenModel {
                    path: dir,
                    browser: Some(BrowserModel { dir, parent, entries, cursor: 0 }),
                    ..popup
                },
            ),
            ..m
        },
        None => m,
    }
}

fn show_listing(
    state: &mut AppState,
    dir: String,
    parent: Option<String>,
    entries: Vec<DirEntry>,
)
    ensures
        final(state)@ == dir_listed(old(state)@, dir@, opt_view(parent), dir_entries(entries@)),
{
    if let Some(popup) = &mut state.open_project_popup {
        popup.path = dir.clone();
        popup.browser = Some(DirBrowser { dir, parent, entries, cursor: 0 });
    }
}

// ---------------------------------------------------------------------------
// Updates
// ---------------------------------------------------------------------------

/// A check for updates finished. A release that was found is installed at once
/// where the user asked for that, and else announced. That nothing is new, or
/// that the check failed, is said only to a user who asked.
pub open spec fn update_checked(m: AppModel, r: Result<Option<UpdateInfo>, String>) -> Step {
    let asked = m.auto_install_after_check;
    let m1 = AppModel { auto_install_after_check: false, update_status: UpdateStatus::Idle, ..m };
    match r {
        Ok(Some(info)) => {
            let tag = info.latest_tag@;
            let m2 = AppModel { available_update: Some(info), ..m1 };
            if asked {
                (
                    told(
                        AppModel { update_status: UpdateStatus::Installing, ..m2 },
                        "installing "@ + tag + "…"@,
                    ),
                    seq![CommandModel::InstallUpdate { tag }],
                )
            } else {
                quiet(told(m2, tag + " available — :update to install"@))
            }
        },
        Ok(None) => {
            let m2 = AppModel { available_update: None, ..m1 };
            quiet(
                if asked {
                    told(m2, "already on the latest release"@)
                } else {
                    m2
                },
            )
        },
        Err(e) => quiet(
            if asked {
                told(m1, "update check failed: "@ + e@)
            } else {
                m1
            },
        ),
    }
}

fn take_update_check(
    state: &mut AppState,
    r: Result<Option<UpdateInfo>, String>,
    cmds: &mut Commands,
)
    ensures
        final(state)@ == update_checked(old(state)@, r).0,
        final(cmds)@ == old(cmds)@ + update_checked(old(state)@, r).1,
{
    assert(cmds@ =~= old(cmds)@ + Seq::<CommandModel>::empty());
    let asked = state.auto_install_after_check;
    state.auto_install_after_check = false;
    state.update_status = UpdateStatus::Idle;
    match r {
        Ok(Some(info)) => {
            let tag = info.latest_tag.clone();
            state.available_update = Some(info);
            if asked {
                state.update_status = UpdateStatus::Installing;
                state.command_status = Some(text::concat3("installing ", tag.as_str(), "…"));
                cmds.push(Command::InstallUpdate { tag });
                assert(cmds@ =~= old(cmds)@ + update_checked(old(state)@, r).1);
            } else {
                state.command_status = Some(
                    text::concat2(tag.as_str(), " available — :update to install"),
                );
            }
        },
        Ok(None) => {
            state.available_update = None;
            if asked {
                state.command_status = Some(text::owned("already on the latest release"));
            }
        },
        Err(e) => {
            if asked {
                state.command_status = Some(text::concat2("update check failed: ", e.as_str()));
            }
        },
    }
}

/// An install finished. Where the protocol changed, the supervisor has to be
/// restarted too.
pub open spec fn update_installed(m: AppModel, r: Result<InstallOutcome, String>) -> AppModel {
    match r {
        Ok(outcome) => told(
            AppModel {
                update_status: UpdateStatus::InstalledPendingRestart,
                available_update: None,
                ..m
            },
            "installed "@ + outcome.installed_tag@ + (if outcome.supervisor_restart_required {
                " — supervisor protocol changed; run :rs (kills sessions) then relaunch"@
            } else {
                " — relaunch the client to switch over (sessions preserved)"@
            }),
        ),
        Err(e) => told(
            AppModel { update_status: UpdateStatus::Idle, ..m },
            "update failed: "@ + e@,
        ),
    }
}

fn take_install(state: &mut AppState, r: Result<InstallOutcome, String>)
    ensures
        final(state)@ == update_installed(old(state)@, r),
{
    match r {
        Ok(outcome) => {
            state.update_status = UpdateStatus::InstalledPendingRestart;
            state.available_update = None;
            let tag = outcome.installed_tag.as_str();
            state.command_status = Some(
                if outcome.supervisor_restart_required {
                    text::concat3(
                        "installed ",
                        tag,
                        " — supervisor protocol changed; run :rs (kills sessions) then relaunch",
                    )
                } else {
                    text::concat3(
                        "installed ",
                        tag,
                        " — relaunch the client to switch over (sessions preserved)",
                    )
                },
            );
        },
        Err(e) => {
            state.update_status = UpdateStatus::Idle;
            state.command_status = Some(text::concat2("update failed: ", e.as_str()));
        },
    }
}

/// The hourly tick: it starts a check unless an update is under way.
pub open spec fn update_due(m: AppModel) -> Step {
    if m.update_status is Idle {
        (
            AppModel { update_status: UpdateStatus::Checking, ..m },
            seq![CommandModel::CheckForUpdate],
        )
    } else {
        quiet(m)
    }
}

// ---------------------------------------------------------------------------
// PR statuses
// ---------------------------------------------------------------------------

/// One request for each of the first `n` projects that has the GitHub
/// integration on.
pub open spec fn pr_fetches(m: AppModel, n: nat) -> Seq<CommandModel>
    decreases n,
{
    if n == 0 {
        seq![]
    } else if m.projects[n - 1].github_enabled {
        pr_fetches(m, (n - 1) as nat).push(pr_fetch(m, (n - 1) as usize))
    } else {
        pr_fetches(m, (n - 1) as nat)
    }
}

fn ask_for_prs(state: &AppState, cmds: &mut Commands)
    ensures
        final(cmds)@ == old(cmds)@ + pr_fetches(state@, state@.projects.len()),
{
    let mut i: usize = 0;
    assert(cmds@ =~= old(cmds)@ + pr_fetches(state@, 0));
    while i < state.projects.len()
        invariant
            i <= state.projects.len(),
            cmds@ == old(cmds)@ + pr_fetches(state@, i as nat),
        decreases state.projects.len() - i,
    {
        assert(state@.projects[i as int] == state.projects@[i as int]@);
        if state.projects[i].github_enabled {
            push_pr_fetch(state, i, cmds);
            assert(cmds@ =~= old(cmds)@ + pr_fetches(state@, (i + 1) as nat));
        }
        i += 1;
    }
}

/// The PR statuses once the first `n` answers for project `p`, which has `count`
/// worktrees, are in: a status is noted, and none clears what was there. Answers
/// for worktrees that are gone are skipped.
pub open spec fn noted(
    map: Map<WorktreeKey, PrStatus>,
    p: usize,
    count: nat,
    answers: Seq<(usize, Option<PrStatus>)>,
    n: nat,
) -> Map<WorktreeKey, PrStatus>
    decreases n,
{
    if n == 0 {
        map
    } else {
        let before = noted(map, p, count, answers, (n - 1) as nat);
        let (w, status) = answers[n - 1];
        if w >= count {
            before
        } else {
            match status {
                Some(s) => before.insert((p, w), s),
                None => before.remove((p, w)),
            }
        }
    }
}

/// How many of the first `n` answers give a status for one of `count` worktrees.
pub open spec fn found(count: nat, answers: Seq<(usize, Option<PrStatus>)>, n: nat) -> nat
    decreases n,
{
    if n == 0 {
        0
    } else if answers[n - 1].0 < count && answers[n - 1].1 is Some {
        found(count, answers, (n - 1) as nat) + 1
    } else {
        found(count, answers, (n - 1) as nat)
    }
}

/// What is said of a refresh that found `n` PRs.
pub open spec fn refresh_message(n: nat) -> Seq<char> {
    if n == 0 {
        "PR status refreshed (no open PRs)"@
    } else {
        "PR status refreshed ("@ + text::decimal(n) + (if n == 1 {
            " PR)"@
        } else {
            " PRs)"@
        })
    }
}

/// PR statuses arrived for project `p`. What came of it is said where the user
/// had asked for a refresh.
pub open spec fn prs_fetched(
    m: AppModel,
    p: usize,
    answers: Seq<(usize, Option<PrStatus>)>,
) -> AppModel {
    if p >= m.projects.len() {
        m
    } else {
        let count = m.projects[p as int].worktrees.len();
        let m1 = AppModel {
            pr_statuses: noted(m.pr_statuses, p, count, answers, answers.len()),
            ..m
        };
        if m.pr_refresh_in_flight {
            told(
                AppModel { pr_refresh_in_flight: false, ..m1 },
                refresh_message(found(count, answers, answers.len())),
            )
        } else {
            m1
        }
    }
}

fn refreshed_text(n: usize) -> (r: String)
    ensures
        r@ == refresh_message(n as nat),
{
    if n == 0 {
        return text::owned("PR status refreshed (no open PRs)");
    }
    let tail = if n == 1 {
        " PR)"
    } else {
        " PRs)"
    };
    text::concat3("PR status refreshed (", text::to_decimal(n as u64).as_str(), tail)
}

fn take_prs(state: &mut AppState, p: usize, answers: &Vec<(usize, Option<PrStatus>)>)
    ensures
        final(state)@ == prs_fetched(old(state)@, p, answers@),
{
    if p >= state.projects.len() {
        return;
    }
    let count: usize = state.projects[p].worktrees.len();
    let ghost m = state@;
    assert(count == m.projects[p as int].worktrees.len());
    let mut matched: usize = 0;
    let mut i: usize = 0;
    while i < answers.len()
        invariant
            i <= answers.len(),
            matched <= i,
            matched == found(count as nat, answers@, i as nat),
            state@ == (AppModel {
                pr_statuses: noted(m.pr_statuses, p, count as nat, answers@, i as nat),
                ..m
            }),
        decreases answers.len() - i,
    {
        let (w, status) = answers[i];
        if w < count {
            match status {
                Some(s) => {
                    matched += 1;
                    state.pr_statuses.insert((p, w), s);
                },
                None => state.pr_statuses.remove(&(p, w)),
            }
        }
        i += 1;
    }
    if state.pr_refresh_in_flight {
        state.pr_refresh_in_flight = false;
        state.command_status = Some(refreshed_text(matched));
    }
}

/// PR statuses could not be had. That is said where the user had asked.
pub open spec fn pr_failed(m: AppModel, message: Seq<char>) -> AppModel {
    if m.pr_refresh_in_flight {
        told(
            AppModel { pr_refresh_in_flight: false, ..m },
            "PR refresh failed: "@ + message,
        )
    } else {
        m
    }
}

// ---------------------------------------------------------------------------
// The reducer
// ---------------------------------------------------------------------------

/// What follows from what happened: the next state, and the commands it asks
/// for. `typed` is what an edit box holds once a key has gone to it.
pub open spec fn step(m: AppModel, action: Action, typed: BoxModel) -> Step {
    match action {
        Action::SessionSpawned { session, dest } => session_spawned(m, session, dest),
        Action::Key(k) => key_step(m, k, typed),
        Action::Mouse(e) => mouse_step(m, e),
        Action::Paste(s) => pasted(m, s@),
        Action::Resize(size) => resized(m, size),
        Action::SessionExited(id) => quiet(session_ended(m, id)),
        Action::ProjectValidated {
            supervisor,
            canonical_path,
            repo_name,
            head_branch,
            setup_script,
            import_existing,
        } => project_listed(
            m,
            project_of(
                opened_config(
                    m,
                    supervisor,
                    canonical_path@,
                    repo_name@,
                    opt_view(head_branch),
                    opt_view(setup_script),
                ),
                supervisor,
            ),
            import_existing,
        ),
        Action::ProjectOpened { project, import_existing } => project_listed(
            m,
            project@,
            import_existing,
        ),
        Action::WorktreeAdded { project_idx, worktree } => worktree_added(
            m,
            project_idx,
            worktree@,
        ),
        Action::WorktreeRemoved { project_idx, worktree_idx } => worktree_removed(
            m,
            project_idx,
            worktree_idx,
        ),
        Action::WorktreesImported { project_idx, entries } => worktrees_imported(
            m,
            project_idx,
            entries@,
        ),
        Action::OperationFailed(msg) => quiet(told(AppModel { pending_op: None, ..m }, msg@)),
        Action::SupervisorLost(sup, reason) => quiet(supervisor_lost(m, sup, reason@)),
        Action::SupervisorConnected(_) => quiet(m),
        Action::UsageReceived(sup, report) => quiet(usage_received(m, sup, report)),
        Action::LocalUsageSampled(node) => quiet(client_sampled(m, node)),
        Action::DirListed { dir, parent, entries } => quiet(
            dir_listed(m, dir@, opt_view(parent), dir_entries(entries@)),
        ),
        Action::UpdateChecked(r) => update_checked(m, r),
        Action::UpdateInstalled(r) => quiet(update_installed(m, r)),
        Action::PeriodicUpdateCheck => update_due(m),
        Action::PeriodicPrCheck => (m, pr_fetches(m, m.projects.len())),
        Action::PrStatusesFetched { project_idx, statuses } => quiet(
            prs_fetched(m, project_idx, statuses@),
        ),
        Action::PrFetchFailed { project_idx: _, message } => quiet(pr_failed(m, message@)),
        Action::Quit => (AppModel { running: false, ..m }, seq![CommandModel::Shutdown]),
    }
}

/// What an edit box may hold after the action: where a key goes to one, what the
/// box makes of the key.
pub open spec fn may_type(m: AppModel, action: Action, typed: BoxModel) -> bool {
    match action {
        Action::Key(k) => key_types(m, k, typed),
        _ => true,
    }
}

fn reduce_inputs(state: &mut AppState, action: Action, cmds: &mut Commands)
    requires
        action is Key ==> old(state)@.consistent(),
        action is Key || action is Mouse || action is Paste || action is Resize,
    ensures
        exists|typed: BoxModel| #[trigger]
            may_type(old(state)@, action, typed) && final(state)@ == step(
                old(state)@,
                action,
                typed,
            ).0 && final(cmds)@ == old(cmds)@ + step(old(state)@, action, typed).1,
{
    let ghost any = fresh_box(seq![]);
    let ghost m = state@;
    match action {
        Action::Key(k) => {
            handle_key(state, k, cmds);
            proof {
                let typed = choose|typed: BoxModel| #[trigger]
                    key_types(m, k, typed) && state@ == key_step(m, k, typed).0 && cmds@ == old(
                        cmds,
                    )@ + key_step(m, k, typed).1;
                assert(may_type(m, action, typed));
            }
        },
        Action::Mouse(e) => {
            handle_mouse(state, e, cmds);
            assert(may_type(m, action, any));
        },
        Action::Paste(s) => {
            handle_paste(state, s, cmds);
            assert(may_type(m, action, any));
        },
        Action::Resize(size) => {
            state.term_size = size;
            tabs::broadcast_resize(state, cmds);
            assert(may_type(m, action, any));
        },
        _ => {},
    }
}

fn reduce_results(state: &mut AppState, action: Action, cmds: &mut Commands)
    requires
        !(action is Key || action is Mouse || action is Paste || action is Resize),
    ensures
        forall|typed: BoxModel|
            final(state)@ == #[trigger] step(old(state)@, action, typed).0 && final(cmds)@ == old(
                cmds,
            )@ + step(old(state)@, action, typed).1,
{
    assert(cmds@ =~= old(cmds)@ + Seq::<CommandModel>::empty());
    let ghost what = action;
    match action {
        Action::SessionSpawned { session, dest } => lifecycle::take_session(
            state,
            session,
            dest,
            cmds,
        ),
        Action::SessionExited(id) => lifecycle::drop_session(state, id),
        Action::ProjectValidated {
            supervisor,
            canonical_path,
            repo_name,
            head_branch,
            setup_script,
            import_existing,
        } => lifecycle::list_repository(
            state,
            supervisor,
            canonical_path,
            repo_name,
            head_branch,
            setup_script,
            import_existing,
            cmds,
        ),
        Action::ProjectOpened { project, import_existing } => lifecycle::list_project(
            state,
            project,
            import_existing,
            cmds,
        ),
        Action::WorktreeAdded { project_idx, worktree } => lifecycle::take_worktree(
            state,
            project_idx,
            worktree,
            cmds,
        ),
        Action::WorktreeRemoved { project_idx, worktree_idx } => lifecycle::drop_worktree(
            state,
            project_idx,
            worktree_idx,
            cmds,
        ),
        Action::WorktreesImported { project_idx, entries } => lifecycle::import_worktrees(
            state,
            project_idx,
            &entries,
            cmds,
        ),
        Action::OperationFailed(msg) => {
            state.pending_op = None;
            state.command_status = Some(msg);
        },
        Action::SupervisorLost(sup, reason) => lifecycle::lose_supervisor(
            state,
            sup,
            reason.as_str(),
        ),
        Action::SupervisorConnected(_) => {},
        Action::UsageReceived(sup, report) => receive_usage(state, sup, report),
        Action::LocalUsageSampled(node) => receive_client_usage(state, node),
        Action::DirListed { dir, parent, entries } => show_listing(state, dir, parent, entries),
        Action::UpdateChecked(r) => take_update_check(state, r, cmds),
        Action::UpdateInstalled(r) => take_install(state, r),
        Action::PeriodicUpdateCheck => {
            if state.update_status == UpdateStatus::Idle {
                state.update_status = UpdateStatus::Checking;
                cmds.push(Command::CheckForUpdate);
                assert(cmds@ =~= old(cmds)@ + update_due(old(state)@).1);
            }
        },
        Action::PeriodicPrCheck => ask_for_prs(state, cmds),
        Action::PrStatusesFetched { project_idx, statuses } => take_prs(
            state,
            project_idx,
            &statuses,
        ),
        Action::PrFetchFailed { project_idx: _, message } => {
            if state.pr_refresh_in_flight {
                state.pr_refresh_in_flight = false;
                state.command_status = Some(
                    text::concat2("PR refresh failed: ", message.as_str()),
                );
            }
        },
        Action::Quit => {
            state.running = false;
            cmds.push(Command::Shutdown);
            assert(cmds@ =~= old(cmds)@ + seq![CommandModel::Shutdown]);
        },
        _ => {},
    }
}

/// Changes the state by what happened, and returns what is to be done. Keys ask
/// for a cursor and an active worktree on projects that are there.
pub fn reduce(state: &mut AppState, action: Action) -> (cmds: Commands)
    requires
        action is Key ==> old(state)@.consistent(),
    ensures
        exists|typed: BoxModel| #[trigger]
            may_type(old(state)@, action, typed) && final(state)@ == step(
                old(state)@,
                action,
                typed,
            ).0 && cmds@ == step(old(state)@, action, typed).1,
{
    let mut cmds = Commands::new();
    let ghost m = state@;
    let input = match &action {
        Action::Key(_) | Action::Mouse(_) | Action::Paste(_) | Action::Resize(_) => true,
        _ => false,
    };
    if input {
        reduce_inputs(state, action, &mut cmds);
        proof {
            let typed = choose|typed: BoxModel| #[trigger]
                may_type(m, action, typed) && state@ == step(m, action, typed).0 && cmds@ == Seq::<
                    CommandModel,
                >::empty() + step(m, action, typed).1;
            assert(may_type(m, action, typed));
            assert(cmds@ =~= step(m, action, typed).1);
        }
    } else {
        reduce_results(state, action, &mut cmds);
        proof {
            let any = fresh_box(seq![]);
            assert(may_type(m, action, any));
            assert(state@ == step(m, action, any).0);
            assert(cmds@ =~= step(m, action, any).1);
        }
    }
    cmds
}

} // verus!
