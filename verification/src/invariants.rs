//! What every step keeps of the state.

use crate::app::{Action, AppModel, ProjectModel, SidebarRow, WorktreeModel};
use crate::cmdline::command_key;
use crate::cmdtable::CmdSpec;
use crate::commands::command_run;
use crate::editbox::BoxModel;
use crate::event::{KeyEvent, MouseEvent};
use crate::keybinds::BindableAction;
use crate::keys::{dispatched, entry_run, key_step, normal_key, palette_key, plain_key, terminal_key};
use crate::lifecycle::{merged, project_listed};
use crate::mouse::mouse_step;
use crate::popups::{confirm_key, edit_key, input_key, launch_key, open_key};
use crate::reducer::step;
use crate::sidebar::{
    cursor_moved, law_rows_are_there, row_place, selection_activated, visible_rows,
    worktree_activated,
};
use crate::tabs::{all_swept, project_swept, session_place, tab_closed, tab_switched, Sweep};
use crate::usage::usage_key;
use vstd::prelude::*;

verus! {

/// The tab in front of a worktree, if any, is one of its tabs.
pub open spec fn tab_there(wt: WorktreeModel) -> bool {
    wt.active_tab matches Some(t) ==> t < wt.sessions.len()
}

/// Every worktree of a project has a tab in front that is there.
pub open spec fn tabs_there(p: ProjectModel) -> bool {
    forall|j: int| 0 <= j < p.worktrees.len() ==> tab_there(#[trigger] p.worktrees[j])
}

/// The active worktree and the cursor are on projects that are there, and the
/// tab in front of each worktree is one of its tabs.
pub open spec fn sound(m: AppModel) -> bool {
    &&& m.consistent()
    &&& forall|i: int| 0 <= i < m.projects.len() ==> tabs_there(#[trigger] m.projects[i])
}

/// The lists of a state are no longer than a list in memory can be.
pub open spec fn in_memory(m: AppModel) -> bool {
    &&& m.projects.len() < usize::MAX
    &&& forall|i: int|
        0 <= i < m.projects.len() ==> (#[trigger] m.projects[i]).worktrees.len() < usize::MAX
    &&& forall|i: int, j: int|
        0 <= i < m.projects.len() && 0 <= j < m.projects[i].worktrees.len() ==> (
        #[trigger] m.projects[i].worktrees[j]).sessions.len() < usize::MAX
}

/// Whether the worktrees that an action brings along have a tab in front that is
/// there.
pub open spec fn brings_sound(action: Action) -> bool {
    match action {
        Action::ProjectOpened { project, import_existing: _ } => tabs_there(project@),
        Action::WorktreeAdded { project_idx: _, worktree } => tab_there(worktree@),
        Action::WorktreesImported { project_idx: _, entries } => forall|i: int|
            0 <= i < entries@.len() ==> tab_there((#[trigger] entries@[i])@),
        _ => true,
    }
}

/// Nothing that soundness speaks of differs.
spec fn same_ground(a: AppModel, b: AppModel) -> bool {
    &&& a.projects == b.projects
    &&& a.active_worktree == b.active_worktree
    &&& a.sidebar_selection == b.sidebar_selection
}

proof fn lemma_one_worktree(m: AppModel, n: AppModel, p: usize, w: usize, wt: WorktreeModel)
    requires
        sound(m),
        m.worktree(p, w) is Some,
        tab_there(wt),
        same_ground(m.with_worktree(p, w, wt), n),
    ensures
        sound(n),
{
    assert forall|i: int| 0 <= i < n.projects.len() implies tabs_there(
        #[trigger] n.projects[i],
    ) by {
        assert(tabs_there(m.projects[i]));
        assert forall|j: int| 0 <= j < n.projects[i].worktrees.len() implies tab_there(
            #[trigger] n.projects[i].worktrees[j],
        ) by {
            if i != p as int || j != w as int {
                assert(n.projects[i].worktrees[j] == m.projects[i].worktrees[j]);
            }
        }
    }
}

proof fn lemma_row_place_is_a_row(rows: Seq<SidebarRow>, row: SidebarRow, from: int)
    requires
        0 <= from,
    ensures
        row_place(rows, row, from) matches Some(i) ==> 0 <= i < rows.len(),
    decreases rows.len() - from,
{
    if from < rows.len() && rows[from] != row {
        lemma_row_place_is_a_row(rows, row, from + 1);
    }
}

proof fn lemma_rows(m: AppModel, k: int)
    requires
        in_memory(m),
        0 <= k < visible_rows(m.projects).len(),
    ensures
        crate::sidebar::selection_of(visible_rows(m.projects)[k]).0 < m.projects.len(),
{
    law_rows_are_there(m.projects, k);
}

proof fn lemma_cursor(m: AppModel, down: bool)
    requires
        sound(m),
        in_memory(m),
    ensures
        sound(cursor_moved(m, down)),
{
    let rows = visible_rows(m.projects);
    if rows.len() > 0 {
        match m.sidebar_selection {
            Some(sel) => lemma_row_place_is_a_row(rows, crate::sidebar::row_of(sel), 0),
            None => {},
        }
        let next = crate::sidebar::moved(crate::sidebar::cursor_row(m), down, rows.len());
        lemma_rows(m, next);
    }
}

proof fn lemma_activated(m: AppModel)
    requires
        sound(m),
    ensures
        sound(selection_activated(m).0),
{
    match m.sidebar_selection {
        Some((p, Some(w))) => {
            let n = worktree_activated(m, p, w).0;
            let m1 = AppModel { active_worktree: Some((p, w)), ..m };
            if m.worktree(p, w) is Some {
                let wt = m.worktree(p, w)->Some_0;
                assert(tabs_there(m.projects[p as int]));
                assert(tab_there(wt));
                lemma_one_worktree(m1, n, p, w, crate::sidebar::fronted(wt));
            }
        },
        Some((p, None)) => {
            let n = selection_activated(m).0;
            if p < m.projects.len() {
                assert forall|i: int| 0 <= i < n.projects.len() implies tabs_there(
                    #[trigger] n.projects[i],
                ) by {
                    assert(tabs_there(m.projects[i]));
                    assert(n.projects[i].worktrees == m.projects[i].worktrees);
                }
            }
        },
        None => {},
    }
}

proof fn lemma_tabs(m: AppModel, forward: bool)
    requires
        sound(m),
        in_memory(m),
    ensures
        sound(tab_switched(m, forward)),
        sound(tab_closed(m).0),
{
    match m.active_worktree {
        Some((p, w)) => if m.worktree(p, w) is Some {
            let wt = m.worktree(p, w)->Some_0;
            assert(tabs_there(m.projects[p as int]));
            assert(tab_there(wt));
            assert(m.projects[p as int].worktrees[w as int].sessions.len() < usize::MAX);
            if wt.sessions.len() > 0 {
                let at = match wt.active_tab {
                    Some(i) => i as int,
                    None => 0,
                };
                crate::tabs::law_tabs_go_round(at, wt.sessions.len() as int);
                let next = crate::tabs::neighbour(at, forward, wt.sessions.len() as int);
                lemma_one_worktree(
                    m,
                    tab_switched(m, forward),
                    p,
                    w,
                    WorktreeModel { active_tab: Some(next as usize), ..wt },
                );
            }
            if m.focused_session() is Some {
                let t = wt.active_tab->Some_0;
                let sessions = wt.sessions.remove(t as int);
                lemma_one_worktree(
                    m,
                    tab_closed(m).0,
                    p,
                    w,
                    WorktreeModel {
                        sessions,
                        active_tab: crate::tabs::tab_after_close(t, sessions.len()),
                        ..wt
                    },
                );
            }
        },
        None => {},
    }
}

proof fn lemma_same_worktrees(m: AppModel, n: AppModel)
    requires
        sound(m),
        n.projects.len() == m.projects.len(),
        forall|i: int|
            0 <= i < m.projects.len() ==> (#[trigger] n.projects[i]).worktrees
                == m.projects[i].worktrees,
        n.active_worktree == m.active_worktree,
        n.sidebar_selection == m.sidebar_selection,
    ensures
        sound(n),
{
    assert forall|i: int| 0 <= i < n.projects.len() implies tabs_there(
        #[trigger] n.projects[i],
    ) by {
        assert(tabs_there(m.projects[i]));
    }
}

proof fn lemma_command(m: AppModel, c: CmdSpec, args: Seq<Seq<char>>)
    requires
        sound(m),
        in_memory(m),
    ensures
        sound(command_run(m, c, args).0),
{
    let n = command_run(m, c, args).0;
    if c is TabClose {
        lemma_tabs(m, true);
    } else if c is RestartSupervisor {
        lemma_swept(m, n, Sweep::All);
    } else if c is GhEnable || c is GhDisable {
        lemma_same_worktrees(m, n);
    } else {
        assert(same_ground(m, n));
    }
}

/// The command that does what an action does, where there is one.
pub open spec fn as_command(action: BindableAction) -> Option<CmdSpec> {
    match action {
        BindableAction::CloseTab => Some(CmdSpec::TabClose),
        BindableAction::OpenTab => Some(CmdSpec::TabNew),
        BindableAction::OpenProjectPopup => Some(CmdSpec::Open),
        BindableAction::NewWorktree => Some(CmdSpec::Worktree),
        BindableAction::RemoveWorktree => Some(CmdSpec::WorktreeRemove),
        BindableAction::EditProject => Some(CmdSpec::Edit),
        BindableAction::LaunchPicker => Some(CmdSpec::Launch),
        BindableAction::UsagePopup => Some(CmdSpec::Usage),
        BindableAction::HelpPopup => Some(CmdSpec::Help),
        BindableAction::CommandPalette => Some(CmdSpec::Palette),
        BindableAction::Quit => Some(CmdSpec::Quit),
        _ => None,
    }
}

pub proof fn lemma_dispatched_command(m: AppModel, action: BindableAction)
    requires
        as_command(action) is Some,
    ensures
        dispatched(m, action) == command_run(m, as_command(action)->Some_0, seq![]),
{
    reveal(dispatched);
}

proof fn lemma_dispatched_move(m: AppModel, action: BindableAction)
    requires
        sound(m),
        in_memory(m),
        action is SidebarUp || action is SidebarDown || action is ActivateSelection
            || action is PrevTab || action is NextTab,
    ensures
        sound(dispatched(m, action).0),
{
    reveal(dispatched);
    match action {
        BindableAction::SidebarUp => lemma_cursor(m, false),
        BindableAction::SidebarDown => lemma_cursor(m, true),
        BindableAction::ActivateSelection => lemma_activated(m),
        BindableAction::PrevTab => lemma_tabs(m, false),
        _ => lemma_tabs(m, true),
    }
}

proof fn lemma_dispatched_width(m: AppModel, action: BindableAction)
    requires
        action is SidebarGrow || action is SidebarShrink || action is SidebarReset,
    ensures
        same_ground(m, dispatched(m, action).0),
{
    reveal(dispatched);
}

proof fn lemma_dispatched_mode(m: AppModel, action: BindableAction)
    requires
        action is FocusSidebar || action is FocusTerminal || action is EnterTerminalMode
            || action is EnterCommandMode || action is LeaveTerminal,
    ensures
        same_ground(m, dispatched(m, action).0),
{
    reveal(dispatched);
}

proof fn lemma_dispatched(m: AppModel, action: BindableAction)
    requires
        sound(m),
        in_memory(m),
    ensures
        sound(dispatched(m, action).0),
{
    match as_command(action) {
        Some(c) => {
            lemma_command(m, c, seq![]);
            lemma_dispatched_command(m, action);
        },
        None => match action {
            BindableAction::SidebarGrow
            | BindableAction::SidebarShrink
            | BindableAction::SidebarReset => lemma_dispatched_width(m, action),
            BindableAction::FocusSidebar
            | BindableAction::FocusTerminal
            | BindableAction::EnterTerminalMode
            | BindableAction::EnterCommandMode
            | BindableAction::LeaveTerminal => lemma_dispatched_mode(m, action),
            _ => lemma_dispatched_move(m, action),
        },
    }
}

proof fn lemma_palette_key(m: AppModel, k: KeyEvent)
    requires
        sound(m),
        in_memory(m),
    ensures
        sound(palette_key(m, k).0),
{
    reveal(entry_run);
    if m.palette_popup is Some && k.code is Enter {
        let p = m.palette_popup->Some_0;
        let m1 = AppModel { palette_popup: None, ..m };
        match crate::keys::chosen(p) {
            Some(run) => match run {
                crate::palette::ExecModel::Action(a) => lemma_dispatched(m1, a),
                crate::palette::ExecModel::Command(name) => {
                    match crate::cmdtable::command_named(name) {
                        Some(c) => lemma_command(m1, c, seq![]),
                        None => {},
                    }
                },
                crate::palette::ExecModel::Prefill(_) => {},
            },
            None => {},
        }
    } else {
        assert(same_ground(m, palette_key(m, k).0));
    }
}

proof fn lemma_normal_key(m: AppModel, k: KeyEvent)
    requires
        sound(m),
        in_memory(m),
    ensures
        sound(normal_key(m, k).0),
        sound(terminal_key(m, k).0),
{
    let keys = m.pending_chord.push(crate::keybinds::canonical_of(k.modifiers, k.code));
    match crate::keybinds::meaning_in(m.keys_normal, keys) {
        crate::keybinds::Meaning::Exact(a) => lemma_dispatched(
            AppModel { pending_chord: seq![], ..m },
            a,
        ),
        _ => {},
    }
    let key = crate::keys::normalised(k);
    let chords = m.pending_chord.push(crate::keybinds::canonical_of(key.modifiers, key.code));
    match crate::keybinds::meaning_in(m.keys_terminal, chords) {
        crate::keybinds::Meaning::Exact(a) => lemma_dispatched(
            AppModel { pending_chord: seq![], pending_terminal_keys: seq![], ..m },
            a,
        ),
        _ => {},
    }
}

proof fn lemma_command_key(m: AppModel, k: KeyEvent)
    requires
        sound(m),
        in_memory(m),
    ensures
        sound(command_key(m, k).0),
{
    if k.code is Enter && crate::cmdline::accepted(m) is None {
        let m1 = AppModel {
            command: seq![],
            command_completion: None,
            mode: crate::app::Mode::Normal,
            ..m
        };
        let line = crate::text::trimmed(m.command);
        let w = crate::text::words(line);
        if w.len() > 0 {
            match crate::cmdtable::command_named(w[0]) {
                Some(c) => lemma_command(m1, c, w.skip(1)),
                None => {},
            }
        }
    } else {
        assert(same_ground(m, command_key(m, k).0));
    }
}

proof fn lemma_confirm_key(m: AppModel, k: KeyEvent)
    requires
        sound(m),
    ensures
        sound(confirm_key(m, k).0),
{
    match m.pending_confirm {
        Some(crate::app::ConfirmModel::RemoveWorktree { project_idx, worktree_idx, .. }) => {
            let n = confirm_key(m, k).0;
            match m.worktree(project_idx, worktree_idx) {
                Some(wt) => {
                    let e = crate::tabs::emptied(wt);
                    if same_ground(m.with_worktree(project_idx, worktree_idx, e), n) {
                        lemma_one_worktree(m, n, project_idx, worktree_idx, e);
                    }
                },
                None => {},
            }
        },
        None => {},
    }
}

#[verifier::spinoff_prover]
proof fn lemma_key(m: AppModel, k: KeyEvent, typed: BoxModel)
    requires
        sound(m),
        in_memory(m),
    ensures
        sound(key_step(m, k, typed).0),
{
    let n = key_step(m, k, typed).0;
    if m.usage_popup is Some {
        assert(same_ground(m, usage_key(m, k).0));
    } else if m.edit_popup is Some {
        lemma_same_worktrees(m, edit_key(m, k, typed).0);
    } else if m.open_project_popup is Some {
        assert(same_ground(m, open_key(m, k, typed).0));
    } else if m.launch_popup is Some {
        assert(same_ground(m, launch_key(m, k).0));
    } else if m.palette_popup is Some {
        lemma_palette_key(m, k);
    } else {
        lemma_plain_key(m, k);
        lemma_plain_key(crate::keys::help_closed(m), k);
    }
}

proof fn lemma_plain_key(m: AppModel, k: KeyEvent)
    requires
        sound(m),
        in_memory(m),
    ensures
        sound(plain_key(m, k).0),
{
    if m.popup is Some {
        assert(same_ground(m, input_key(m, k).0));
    } else {
        lemma_confirm_key(m, k);
        lemma_normal_key(m, k);
        lemma_command_key(m, k);
    }
}

proof fn lemma_mouse(m: AppModel, e: MouseEvent)
    requires
        sound(m),
        in_memory(m),
    ensures
        sound(mouse_step(m, e).0),
{
    let n = mouse_step(m, e).0;
    let m1 = AppModel { ui_focus: crate::app::UiFocus::Sidebar, ..m };
    let rows = visible_rows(m.projects);
    let at = crate::mouse::row_under(m, e.row);
    let r = crate::sidebar::regions_of(m);
    if m.help_open || m.popup is Some {
    } else if r.sidebar.has_cell(e.column, e.row) {
        if 0 <= at < rows.len() {
            lemma_rows(m, at);
            let m2 = AppModel {
                sidebar_selection: Some(crate::sidebar::selection_of(rows[at])),
                ..m1
            };
            lemma_activated(m2);
        }
    } else if r.tab_bar.has_cell(e.column, e.row) {
        match m.active_worktree {
            Some((p, w)) => if m.worktree(p, w) is Some {
                let wt = m.worktree(p, w)->Some_0;
                let tab = (e.column - r.tab_bar.x) / crate::mouse::TAB_SLOT_WIDTH as int;
                let moved = WorktreeModel { active_tab: Some(tab as usize), ..wt };
                if 0 <= tab < wt.sessions.len() {
                    assert(m.projects[p as int].worktrees[w as int].sessions.len() < usize::MAX);
                    if same_ground(m.with_worktree(p, w, moved), n) {
                        lemma_one_worktree(m, n, p, w, moved);
                    }
                }
            },
            None => {},
        }
    }
}

proof fn lemma_place_is_there(s: Seq<u64>, id: u64, from: int)
    requires
        0 <= from,
    ensures
        session_place(s, id, from) matches Some(i) ==> 0 <= i < s.len(),
    decreases s.len() - from,
{
    if from < s.len() && s[from] != id {
        lemma_place_is_there(s, id, from + 1);
    }
}

proof fn lemma_swept(m: AppModel, n: AppModel, what: Sweep)
    requires
        sound(m),
        in_memory(m),
        n.projects == all_swept(m, what).projects,
        n.active_worktree == m.active_worktree || n.active_worktree is None,
        n.sidebar_selection == m.sidebar_selection,
    ensures
        sound(n),
{
    assert forall|i: int| 0 <= i < n.projects.len() implies tabs_there(
        #[trigger] n.projects[i],
    ) by {
        let p = m.projects[i];
        assert(tabs_there(p));
        assert(n.projects[i] == project_swept(what, p));
        assert forall|j: int| 0 <= j < n.projects[i].worktrees.len() implies tab_there(
            #[trigger] n.projects[i].worktrees[j],
        ) by {
            let wt = m.projects[i].worktrees[j];
            assert(tab_there(wt));
            assert(wt.sessions.len() < usize::MAX);
            match what {
                Sweep::Ended(id) => lemma_place_is_there(wt.sessions, id, 0),
                _ => {},
            }
        }
    }
}

proof fn lemma_merged(list: Seq<WorktreeModel>, entries: Seq<crate::app::Worktree>, n: nat)
    requires
        n <= entries.len(),
        forall|j: int| 0 <= j < list.len() ==> tab_there(#[trigger] list[j]),
        forall|i: int| 0 <= i < entries.len() ==> tab_there((#[trigger] entries[i])@),
    ensures
        forall|j: int|
            0 <= j < merged(list, entries, n).len() ==> tab_there(
                #[trigger] merged(list, entries, n)[j],
            ),
    decreases n,
{
    if n > 0 {
        lemma_merged(list, entries, (n - 1) as nat);
        let before = merged(list, entries, (n - 1) as nat);
        let all = merged(list, entries, n);
        assert(tab_there(entries[n - 1]@));
        assert forall|j: int| 0 <= j < all.len() implies tab_there(#[trigger] all[j]) by {
            if j < before.len() {
                assert(all[j] == before[j]);
            }
        }
    }
}

proof fn lemma_one_project(m: AppModel, n: AppModel, p: usize, project: ProjectModel)
    requires
        sound(m),
        p < m.projects.len(),
        tabs_there(project),
        n.projects == m.projects.update(p as int, project),
        n.consistent(),
    ensures
        sound(n),
{
    assert forall|i: int| 0 <= i < n.projects.len() implies tabs_there(
        #[trigger] n.projects[i],
    ) by {
        assert(tabs_there(m.projects[i]));
    }
}

proof fn lemma_worktrees_come_and_go(m: AppModel, action: Action, typed: BoxModel)
    requires
        sound(m),
        in_memory(m),
        brings_sound(action),
        action is WorktreeAdded || action is WorktreeRemoved || action is WorktreesImported,
    ensures
        sound(step(m, action, typed).0),
{
    let n = step(m, action, typed).0;
    match action {
        Action::WorktreeAdded { project_idx: p, worktree } => {
            if p < m.projects.len() {
                let old = m.projects[p as int];
                assert(tabs_there(old));
                let project = ProjectModel { worktrees: old.worktrees.push(worktree@), ..old };
                assert(tabs_there(project)) by {
                    assert forall|j: int| 0 <= j < project.worktrees.len() implies tab_there(
                        #[trigger] project.worktrees[j],
                    ) by {
                        if j < old.worktrees.len() {
                            assert(project.worktrees[j] == old.worktrees[j]);
                        }
                    }
                }
                lemma_one_project(m, n, p, project);
            }
        },
        Action::WorktreeRemoved { project_idx: p, worktree_idx: w } => {
            if m.worktree(p, w) is Some {
                let old = m.projects[p as int];
                assert(tabs_there(old));
                let project = ProjectModel { worktrees: old.worktrees.remove(w as int), ..old };
                assert(tabs_there(project)) by {
                    assert forall|j: int| 0 <= j < project.worktrees.len() implies tab_there(
                        #[trigger] project.worktrees[j],
                    ) by {
                        if j < w {
                            assert(project.worktrees[j] == old.worktrees[j]);
                        } else {
                            assert(project.worktrees[j] == old.worktrees[j + 1]);
                        }
                    }
                }
                lemma_one_project(m, n, p, project);
            } else {
                assert(n.projects == m.projects);
            }
        },
        Action::WorktreesImported { project_idx: p, entries } => {
            if p < m.projects.len() {
                let old = m.projects[p as int];
                assert(tabs_there(old));
                lemma_merged(old.worktrees, entries@, entries@.len());
                let project = ProjectModel {
                    worktrees: merged(old.worktrees, entries@, entries@.len()),
                    ..old
                };
                lemma_one_project(m, n, p, project);
            }
        },
        _ => {},
    }
}

proof fn lemma_listed(m: AppModel, project: ProjectModel, import: bool)
    requires
        sound(m),
        in_memory(m),
        tabs_there(project),
    ensures
        sound(project_listed(m, project, import).0),
{
    let n = project_listed(m, project, import).0;
    assert forall|i: int| 0 <= i < n.projects.len() implies tabs_there(
        #[trigger] n.projects[i],
    ) by {
        if i < m.projects.len() {
            assert(tabs_there(m.projects[i]));
        }
    }
}

/// Whatever happens to a sound state, it stays sound: the active worktree and
/// the cursor are on projects that are there, and the tab in front of each
/// worktree is one of its tabs.
#[verifier::spinoff_prover]
#[verifier::rlimit(60)]
pub proof fn law_every_step_keeps_the_state_sound(m: AppModel, action: Action, typed: BoxModel)
    requires
        sound(m),
        in_memory(m),
        brings_sound(action),
    ensures
        sound(step(m, action, typed).0),
{
    let n = step(m, action, typed).0;
    match action {
        Action::SessionSpawned { session, dest } => {
            match m.worktree(dest.0, dest.1) {
                Some(wt) => {
                    assert(m.projects[dest.0 as int].worktrees[dest.1 as int].sessions.len()
                        < usize::MAX);
                    lemma_one_worktree(
                        m,
                        n,
                        dest.0,
                        dest.1,
                        WorktreeModel {
                            sessions: wt.sessions.push(session),
                            active_tab: Some(wt.sessions.len() as usize),
                            ..wt
                        },
                    );
                },
                None => {},
            }
        },
        Action::Key(k) => lemma_key(m, k, typed),
        Action::Mouse(e) => lemma_mouse(m, e),
        Action::SessionExited(id) => lemma_swept(m, n, Sweep::Ended(id)),
        Action::ProjectValidated {
            supervisor,
            canonical_path,
            repo_name,
            head_branch,
            setup_script,
            import_existing,
        } => {
            let project = crate::app::project_of(
                crate::lifecycle::opened_config(
                    m,
                    supervisor,
                    canonical_path@,
                    repo_name@,
                    crate::app::opt_view(head_branch),
                    crate::app::opt_view(setup_script),
                ),
                supervisor,
            );
            assert(tabs_there(project));
            lemma_listed(m, project, import_existing);
        },
        Action::ProjectOpened { project, import_existing } => lemma_listed(
            m,
            project@,
            import_existing,
        ),
        Action::WorktreeAdded { .. }
        | Action::WorktreeRemoved { .. }
        | Action::WorktreesImported { .. } => lemma_worktrees_come_and_go(m, action, typed),
        Action::SupervisorLost(sup, reason) => {
            if sup == crate::app::local_id() {
                lemma_swept(m, n, Sweep::All);
            } else {
                lemma_swept(m, n, Sweep::On(sup));
            }
        },
        _ => {
            assert(same_ground(m, n));
        },
    }
}

/// The state that the program starts with is sound.
pub proof fn law_the_first_state_is_sound()
    ensures
        sound(crate::app::initial_model()),
{
}

} // verus!
