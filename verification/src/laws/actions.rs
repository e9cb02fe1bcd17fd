//! What bound actions, the sidebar, the tabs and the mouse do.

use crate::app::{AppModel, CommandModel, Mode, ProjectModel, SidebarRow, UiFocus, WorktreeModel};
use crate::event::{KeyCode, KeyEvent, MouseButton, MouseEvent, MouseEventKind};
use crate::keybinds::BindableAction;
use crate::keys::{dispatched, help_key, terminal_key};
use crate::mouse::mouse_step;
use crate::reducer::pasted;
use crate::sidebar::{cursor_row, regions_of, row_of, row_place, selection_of, visible_rows};
use vstd::prelude::*;

verus! {

/// The active worktree, where it has tabs and one of them is in front.
pub open spec fn in_front(m: AppModel, p: int, w: int, at: int) -> bool {
    &&& m.active_worktree == Some((p as usize, w as usize))
    &&& 0 <= p < m.projects.len() <= usize::MAX
    &&& 0 <= w < m.projects[p].worktrees.len() <= usize::MAX
    &&& m.projects[p].worktrees[w].active_tab == Some(at as usize)
    &&& 0 <= at < m.projects[p].worktrees[w].sessions.len() <= usize::MAX
}

/// Whether two states differ at most in one worktree.
pub open spec fn same_but_worktree(a: AppModel, b: AppModel, p: int, w: int) -> bool {
    &&& a == (AppModel { projects: a.projects, ..b })
    &&& a.projects.len() == b.projects.len()
    &&& forall|i: int| 0 <= i < a.projects.len() && i != p ==> #[trigger] a.projects[i] == b.projects[i]
    &&& a.projects[p] == (ProjectModel { worktrees: a.projects[p].worktrees, ..b.projects[p] })
    &&& a.projects[p].worktrees.len() == b.projects[p].worktrees.len()
    &&& forall|j: int|
        0 <= j < a.projects[p].worktrees.len() && j != w ==> #[trigger] a.projects[p].worktrees[j]
            == b.projects[p].worktrees[j]
}

// ---------------------------------------------------------------------------
// Tabs
// ---------------------------------------------------------------------------

/// The next tab is the one behind the tab in front, round at the end, and the
/// previous one the one before it; the tabs themselves stay.
pub proof fn law_next_and_previous_tab(m: AppModel, p: int, w: int, at: int)
    requires
        in_front(m, p, w, at),
    ensures
        ({
            let n = m.projects[p].worktrees[w].sessions.len() as int;
            let wt = m.projects[p].worktrees[w];
            let next = dispatched(m, BindableAction::NextTab);
            let prev = dispatched(m, BindableAction::PrevTab);
            &&& next.1.len() == 0 && prev.1.len() == 0
            &&& same_but_worktree(next.0, m, p, w) && same_but_worktree(prev.0, m, p, w)
            &&& next.0.projects[p].worktrees[w] == (WorktreeModel {
                active_tab: Some(
                    (if at + 1 < n {
                        at + 1
                    } else {
                        0
                    }) as usize,
                ),
                ..wt
            })
            &&& prev.0.projects[p].worktrees[w] == (WorktreeModel {
                active_tab: Some(
                    (if at > 0 {
                        at - 1
                    } else {
                        n - 1
                    }) as usize,
                ),
                ..wt
            })
        }),
{
    reveal(dispatched);
    let n = m.projects[p].worktrees[w].sessions.len() as int;
    assert(at % n == at) by (nonlinear_arith)
        requires
            0 <= at < n,
    ;
}

/// Closing a tab kills the session in front and no other: it leaves its worktree and
/// the state, the other tabs keep their order, and the tab that took its place comes
/// to the front, else the last one.
pub proof fn law_closing_a_tab_ends_its_session(m: AppModel, p: int, w: int, at: int)
    requires
        in_front(m, p, w, at),
    ensures
        ({
            let wt = m.projects[p].worktrees[w];
            let id = wt.sessions[at];
            let left = wt.sessions.len() - 1;
            let (after, cmds) = dispatched(m, BindableAction::CloseTab);
            let now = after.projects[p].worktrees[w];
            &&& cmds == seq![CommandModel::KillSession(id)]
            &&& now.sessions == wt.sessions.take(at) + wt.sessions.skip(at + 1)
            &&& now.active_tab == (if left == 0 {
                None
            } else if at < left {
                Some(at as usize)
            } else {
                Some((left - 1) as usize)
            })
            &&& now.name == wt.name && now.path == wt.path && now.branch == wt.branch
            &&& after.projects.len() == m.projects.len()
            &&& forall|i: int|
                0 <= i < m.projects.len() && i != p ==> #[trigger] after.projects[i]
                    == m.projects[i]
        }),
{
    reveal(dispatched);
    let wt = m.projects[p].worktrees[w];
    assert(wt.sessions.remove(at) =~= wt.sessions.take(at) + wt.sessions.skip(at + 1));
}

/// Opening a tab asks for a shell in the active worktree: on its project's
/// supervisor, in its directory, as large as the terminal pane, with nothing typed
/// into it.
pub proof fn law_a_new_tab_opens_in_the_active_worktree(m: AppModel, p: int, w: int)
    requires
        m.active_worktree == Some((p as usize, w as usize)),
        0 <= p < m.projects.len() <= usize::MAX,
        0 <= w < m.projects[p].worktrees.len() <= usize::MAX,
    ensures
        dispatched(m, BindableAction::OpenTab) == (
            m,
            seq![
                CommandModel::SpawnInWorktree {
                    supervisor: m.projects[p].supervisor,
                    rows: regions_of(m).terminal.height,
                    cols: regions_of(m).terminal.width,
                    cwd: m.projects[p].worktrees[w].path,
                    dest: (p as usize, w as usize),
                    initial_command: None,
                    project_slug: m.projects[p].slug,
                    worktree_name: m.projects[p].worktrees[w].name,
                },
            ],
        ),
{
    reveal(dispatched);
}

// ---------------------------------------------------------------------------
// The sidebar
// ---------------------------------------------------------------------------

/// The rows of the sidebar run through the projects in order, each with its
/// worktrees in order below it while it is unfolded, and none while it is folded.
pub proof fn law_rows_run_through_the_projects(projects: Seq<ProjectModel>, project: ProjectModel)
    ensures
        ({
            let p = projects.len();
            let before = visible_rows(projects);
            let rows = visible_rows(projects.push(project));
            let n = before.len();
            &&& rows.take(n as int) == before
            &&& rows.len() == n + 1 + (if project.expanded {
                project.worktrees.len()
            } else {
                0
            })
            &&& rows[n as int] == SidebarRow::Project(p as usize)
            &&& project.expanded ==> forall|w: int|
                0 <= w < project.worktrees.len() ==> #[trigger] rows[n + 1 + w]
                    == SidebarRow::Worktree(p as usize, w as usize)
        }),
        visible_rows(seq![]).len() == 0,
{
    let all = projects.push(project);
    assert(all.drop_last() =~= projects);
    assert(visible_rows(all).take(visible_rows(projects).len() as int) =~= visible_rows(projects));
}

/// The sidebar's cursor moves by one row, stops at the ends, and stays in view; it
/// starts from the first row where it is on none.
pub proof fn law_the_sidebar_cursor_moves_by_one(m: AppModel, at: int)
    requires
        m.ui_focus is Sidebar,
        visible_rows(m.projects).len() > 0,
        at == cursor_row(m),
        0 <= at < visible_rows(m.projects).len(),
    ensures
        ({
            let rows = visible_rows(m.projects);
            let down = dispatched(m, BindableAction::SidebarDown);
            let up = dispatched(m, BindableAction::SidebarUp);
            let below = if at + 1 < rows.len() {
                at + 1
            } else {
                at
            };
            let above = if at > 0 {
                at - 1
            } else {
                at
            };
            &&& down.1.len() == 0 && up.1.len() == 0
            &&& row_of(down.0.sidebar_selection->Some_0) == rows[below]
            &&& row_of(up.0.sidebar_selection->Some_0) == rows[above]
            &&& down.0.sidebar_selection is Some && up.0.sidebar_selection is Some
            &&& down.0.projects == m.projects && down.0.active_worktree == m.active_worktree
            &&& rows.len() <= u16::MAX && regions_of(m).sidebar.height > 1 ==> {
                let shown = regions_of(m).sidebar.height - 1;
                &&& down.0.sidebar_scroll <= below < down.0.sidebar_scroll + shown
                &&& up.0.sidebar_scroll <= above < up.0.sidebar_scroll + shown
            }
        }),
{
    reveal(dispatched);
}

/// The row that the cursor is on is the row of its project or worktree.
pub proof fn law_the_cursor_is_on_its_row(m: AppModel, i: int)
    requires
        0 <= i < visible_rows(m.projects).len(),
        m.sidebar_selection is Some,
        visible_rows(m.projects)[i] == row_of(m.sidebar_selection->Some_0),
    ensures
        visible_rows(m.projects)[cursor_row(m)] == row_of(m.sidebar_selection->Some_0),
        0 <= cursor_row(m) <= i,
        forall|p: usize| row_of((p, None)) == SidebarRow::Project(p),
        forall|p: usize, w: usize| row_of((p, Some(w))) == SidebarRow::Worktree(p, w),
{
    lemma_row_place(visible_rows(m.projects), row_of(m.sidebar_selection->Some_0), 0, i);
}

proof fn lemma_row_place(rows: Seq<SidebarRow>, row: SidebarRow, from: int, i: int)
    requires
        0 <= from <= i < rows.len(),
        rows[i] == row,
    ensures
        row_place(rows, row, from) matches Some(k) && from <= k <= i && rows[k] == row,
    decreases i - from,
{
    if rows[from] != row {
        lemma_row_place(rows, row, from + 1, i);
    }
}

/// Enter on a project folds it if it was unfolded and unfolds it if it was folded,
/// and has it saved; its worktrees and all other projects stay as they are.
pub proof fn law_enter_on_a_project_folds_it(m: AppModel, p: int)
    requires
        m.ui_focus is Sidebar,
        0 <= p < m.projects.len() <= usize::MAX,
        m.sidebar_selection == Some((p as usize, None::<usize>)),
    ensures
        ({
            let (after, cmds) = dispatched(m, BindableAction::ActivateSelection);
            &&& cmds == seq![CommandModel::SaveProjectConfig(p as usize)]
            &&& after.projects.len() == m.projects.len()
            &&& after.projects[p] == (ProjectModel {
                expanded: !m.projects[p].expanded,
                ..m.projects[p]
            })
            &&& forall|i: int|
                0 <= i < m.projects.len() && i != p ==> #[trigger] after.projects[i]
                    == m.projects[i]
            &&& after.active_worktree == m.active_worktree
        }),
{
    reveal(dispatched);
}

/// Enter on a worktree makes it the active one. Its first tab comes to the front if
/// none is; no session is started or ended. A worktree without a session leaves
/// Terminal mode. If it was not active before, its PR status is asked for where its
/// project has that on.
pub proof fn law_enter_on_a_worktree_activates_it(m: AppModel, p: int, w: int)
    requires
        m.ui_focus is Sidebar,
        0 <= p < m.projects.len() <= usize::MAX,
        0 <= w < m.projects[p].worktrees.len() <= usize::MAX,
        m.sidebar_selection == Some((p as usize, Some(w as usize))),
    ensures
        ({
            let wt = m.projects[p].worktrees[w];
            let (after, cmds) = dispatched(m, BindableAction::ActivateSelection);
            let now = after.projects[p].worktrees[w];
            &&& after.active_worktree == Some((p as usize, w as usize))
            &&& now.sessions == wt.sessions
            &&& now.active_tab == (if wt.active_tab is None && wt.sessions.len() > 0 {
                Some(0usize)
            } else {
                wt.active_tab
            })
            &&& after.sessions == m.sessions
            &&& after.mode == (if wt.sessions.len() == 0 && m.mode is Terminal {
                Mode::Normal
            } else {
                m.mode
            })
            &&& cmds == (if m.projects[p].github_enabled && m.active_worktree != Some(
                (p as usize, w as usize),
            ) {
                seq![
                    CommandModel::FetchPrStatuses {
                        project_idx: p as usize,
                        repo_path: m.projects[p].repo_path,
                        worktrees: seq![(w as usize, wt.path)],
                    },
                ]
            } else {
                seq![]
            })
        }),
{
    reveal(dispatched);
}

/// Growing and shrinking change the sidebar by two columns, between ten and half the
/// terminal, and resetting makes it 24 wide; a width that changes reaches every
/// session as the new size of the terminal pane and is saved, and one that does not
/// asks for nothing.
pub proof fn law_the_sidebar_grows_and_shrinks(m: AppModel)
    requires
        10 <= m.sidebar_width <= m.term_size.cols / 2,
        m.term_size.cols >= 20,
    ensures
        ({
            let half = m.term_size.cols as int / 2;
            let w = m.sidebar_width as int;
            let grown = dispatched(m, BindableAction::SidebarGrow);
            let shrunk = dispatched(m, BindableAction::SidebarShrink);
            let reset = dispatched(m, BindableAction::SidebarReset);
            &&& grown.0.sidebar_width == (if w + 2 <= half {
                w + 2
            } else {
                half
            })
            &&& shrunk.0.sidebar_width == (if w - 2 >= 10 {
                w - 2
            } else {
                10
            })
            &&& reset.0.sidebar_width == (if half >= 24 {
                24
            } else {
                half
            })
            &&& width_is_told(m, grown) && width_is_told(m, shrunk) && width_is_told(m, reset)
        }),
{
    reveal(dispatched);
}

/// Whether a step that sets the sidebar's width tells every session the new size of
/// the pane and has the width saved, where it changed anything.
pub open spec fn width_is_told(m: AppModel, step: (AppModel, Seq<CommandModel>)) -> bool {
    let (after, cmds) = step;
    let pane = regions_of(after).terminal;
    let n = m.sessions.len() as int;
    &&& after == (AppModel { sidebar_width: after.sidebar_width, ..m })
    &&& if after.sidebar_width == m.sidebar_width {
        cmds.len() == 0
    } else {
        &&& cmds.len() == n + 1
        &&& forall|i: int|
            0 <= i < n ==> #[trigger] cmds[i] == CommandModel::ResizePty(
                m.sessions[i],
                pane.height,
                pane.width,
            )
        &&& cmds[n] == CommandModel::SaveGlobalConfig
    }
}

/// The actions that change the mode, the focus, or what is open, change just that.
pub proof fn law_actions_do_what_they_are_called(m: AppModel)
    ensures
        dispatched(m, BindableAction::FocusSidebar) == (
            AppModel { ui_focus: UiFocus::Sidebar, ..m },
            Seq::<CommandModel>::empty(),
        ),
        dispatched(m, BindableAction::FocusTerminal) == (
            AppModel { ui_focus: UiFocus::Terminal, ..m },
            Seq::<CommandModel>::empty(),
        ),
        dispatched(m, BindableAction::EnterTerminalMode) == (
            AppModel { mode: Mode::Terminal, ..m },
            Seq::<CommandModel>::empty(),
        ),
        dispatched(m, BindableAction::LeaveTerminal) == (
            AppModel { mode: Mode::Normal, ..m },
            Seq::<CommandModel>::empty(),
        ),
        dispatched(m, BindableAction::Quit) == (
            AppModel { running: false, ..m },
            Seq::<CommandModel>::empty(),
        ),
        dispatched(m, BindableAction::HelpPopup) == (
            AppModel { help_open: true, ..m },
            Seq::<CommandModel>::empty(),
        ),
        ({
            let (after, cmds) = dispatched(m, BindableAction::EnterCommandMode);
            after.mode is Command && after.command.len() == 0 && !after.help_open && cmds.len()
                == 0
        }),
        ({
            let (after, cmds) = dispatched(m, BindableAction::UsagePopup);
            &&& after.usage_popup matches Some(u) && u.reports.len() == 0 && u.cursor == 0
                && u.expanded.len() == 0
            &&& cmds == seq![CommandModel::SubscribeUsage]
        }),
        ({
            let (after, cmds) = dispatched(m, BindableAction::OpenProjectPopup);
            &&& cmds.len() == 0
            &&& after.open_project_popup matches Some(o) && o.path.len() == 0 && o.browser is None
                && o.focus is Path && !o.import_existing && o.supervisor
                == crate::app::local_id()
        }),
        m.ui_focus is Terminal ==> dispatched(m, BindableAction::SidebarDown) == (
            m,
            Seq::<CommandModel>::empty(),
        ) && dispatched(m, BindableAction::SidebarUp) == (m, Seq::<CommandModel>::empty())
            && dispatched(m, BindableAction::ActivateSelection) == (
            m,
            Seq::<CommandModel>::empty(),
        ),
{
    reveal(dispatched);
}

// ---------------------------------------------------------------------------
// Keys
// ---------------------------------------------------------------------------

/// In Terminal mode a key that starts no chord goes to the session in front as it
/// is, and nothing else happens.
pub proof fn law_terminal_keys_reach_the_session(m: AppModel, k: KeyEvent, id: u64)
    requires
        m.pending_chord.len() == 0,
        m.pending_terminal_keys.len() == 0,
        m.focused_session() == Some(id),
        m.keys_terminal.len() == 0,
        !(k.modifiers.control && (k.code == KeyCode::Char('\\') || k.code == KeyCode::Char('4'))),
    ensures
        ({
            let (after, cmds) = terminal_key(m, k);
            cmds == seq![CommandModel::WriteKey(id, k)] && after == m
        }),
{
    let (after, cmds) = terminal_key(m, k);
    assert(m.pending_chord =~= seq![]);
    assert(m.pending_terminal_keys =~= seq![]);
    assert(m.pending_terminal_keys.push(k) =~= seq![k]);
    assert(cmds =~= seq![CommandModel::WriteKey(id, k)]);
}

/// The session in front is the one whose tab is in front in the active worktree.
pub proof fn law_the_session_in_front(m: AppModel, p: int, w: int, at: int)
    requires
        in_front(m, p, w, at),
    ensures
        m.focused_session() == Some(m.projects[p].worktrees[w].sessions[at]),
{
}

/// A paste goes to the session in front in Terminal mode, as it is; in Normal mode
/// it goes nowhere.
pub proof fn law_pastes_go_where_keys_go(m: AppModel, s: Seq<char>)
    ensures
        m.mode is Terminal ==> pasted(m, s) == (
            m,
            match m.focused_session() {
                Some(id) => seq![CommandModel::WritePaste(id, s)],
                None => seq![],
            },
        ),
        m.mode is Normal ==> pasted(m, s) == (m, Seq::<CommandModel>::empty()),
        m.mode is Command ==> pasted(m, s).1.len() == 0 && pasted(m, s).0.projects == m.projects
            && pasted(m, s).0.mode is Command,
{
}

/// The help page scrolls by one row, or by ten, between its ends; Home and End go to
/// them; Esc and `q` close it.
pub proof fn law_the_help_page_scrolls(m: AppModel)
    requires
        m.help_scroll <= m.help_max_scroll,
    ensures
        ({
            let at = m.help_scroll as int;
            let max = m.help_max_scroll as int;
            let down = help_key(m, KeyCode::Down)->Some_0;
            let up = help_key(m, KeyCode::Up)->Some_0;
            let page_down = help_key(m, KeyCode::PageDown)->Some_0;
            let page_up = help_key(m, KeyCode::PageUp)->Some_0;
            &&& down.help_scroll == (if at < max { at + 1 } else { max })
            &&& up.help_scroll == (if at > 0 { at - 1 } else { 0 })
            &&& page_down.help_scroll == (if at + 10 <= max { at + 10 } else { max })
            &&& page_up.help_scroll == (if at >= 10 { at - 10 } else { 0 })
            &&& help_key(m, KeyCode::Home)->Some_0.help_scroll == 0
            &&& help_key(m, KeyCode::End)->Some_0.help_scroll == max
            &&& help_key(m, KeyCode::Char('j')) == help_key(m, KeyCode::Down)
            &&& help_key(m, KeyCode::Char('k')) == help_key(m, KeyCode::Up)
            &&& !help_key(m, KeyCode::Esc)->Some_0.help_open && !help_key(
                m,
                KeyCode::Char('q'),
            )->Some_0.help_open
            &&& down.help_open == m.help_open && page_up.help_open == m.help_open
            &&& help_key(m, KeyCode::Char(':')) is None && help_key(m, KeyCode::Char('i')) is None
        }),
{
}

// ---------------------------------------------------------------------------
// The mouse
// ---------------------------------------------------------------------------

/// Whether an event is a click.
pub open spec fn click(e: MouseEvent) -> bool {
    e.kind == MouseEventKind::Down(MouseButton::Left)
}

/// A click on the slot of a tab, four columns wide, brings that tab of the active
/// worktree to the front and gives the terminal the focus; nothing is asked for.
pub proof fn law_a_click_on_a_tab_brings_it_to_the_front(
    m: AppModel,
    e: MouseEvent,
    p: int,
    w: int,
    tab: int,
)
    requires
        !m.help_open,
        m.popup is None,
        click(e),
        regions_of(m).tab_bar.has_cell(e.column, e.row),
        !regions_of(m).sidebar.has_cell(e.column, e.row),
        m.active_worktree == Some((p as usize, w as usize)),
        0 <= p < m.projects.len() <= usize::MAX,
        0 <= w < m.projects[p].worktrees.len() <= usize::MAX,
        0 <= tab < m.projects[p].worktrees[w].sessions.len(),
        regions_of(m).tab_bar.x + 4 * tab <= e.column < regions_of(m).tab_bar.x + 4 * tab + 4,
    ensures
        ({
            let (after, cmds) = mouse_step(m, e);
            &&& cmds.len() == 0
            &&& after.ui_focus is Terminal
            &&& after.projects[p].worktrees[w] == (WorktreeModel {
                active_tab: Some(tab as usize),
                ..m.projects[p].worktrees[w]
            })
            &&& same_but_worktree(AppModel { ui_focus: m.ui_focus, ..after }, m, p, w)
        }),
{
    let left = regions_of(m).tab_bar.x;
    assert((e.column - left) / 4 == tab);
}

/// A click on a row of the sidebar puts the cursor on it and does what Enter does
/// there; the first row of the sidebar is its title.
pub proof fn law_a_click_on_a_row_activates_it(m: AppModel, e: MouseEvent, row: int)
    requires
        !m.help_open,
        m.popup is None,
        click(e),
        regions_of(m).sidebar.has_cell(e.column, e.row),
        0 <= row < visible_rows(m.projects).len(),
        e.row == regions_of(m).sidebar.y + 1 + row - m.sidebar_scroll,
        e.row > regions_of(m).sidebar.y,
    ensures
        ({
            let sel = selection_of(visible_rows(m.projects)[row]);
            let selected = AppModel {
                ui_focus: UiFocus::Sidebar,
                sidebar_selection: Some(sel),
                ..m
            };
            &&& row_of(sel) == visible_rows(m.projects)[row]
            &&& mouse_step(m, e) == dispatched(selected, BindableAction::ActivateSelection)
        }),
{
    reveal(dispatched);
}

/// Over the sidebar the wheel scrolls by three rows between the ends and changes
/// nothing but the focus.
pub proof fn law_the_wheel_scrolls_the_sidebar(m: AppModel, e: MouseEvent)
    requires
        !m.help_open,
        m.popup is None,
        regions_of(m).sidebar.has_cell(e.column, e.row),
        visible_rows(m.projects).len() <= u16::MAX,
        e.kind is ScrollUp || e.kind is ScrollDown,
    ensures
        ({
            let (after, cmds) = mouse_step(m, e);
            let over = visible_rows(m.projects).len() - (regions_of(m).sidebar.height - 1);
            let max = if over > 0 {
                over
            } else {
                0
            };
            &&& cmds.len() == 0
            &&& after == (AppModel {
                ui_focus: UiFocus::Sidebar,
                sidebar_scroll: after.sidebar_scroll,
                ..m
            })
            &&& e.kind is ScrollUp ==> after.sidebar_scroll == (if m.sidebar_scroll >= 3 {
                m.sidebar_scroll - 3
            } else {
                0
            })
            &&& e.kind is ScrollDown ==> after.sidebar_scroll == (if m.sidebar_scroll + 3
                <= max {
                m.sidebar_scroll + 3
            } else {
                max
            })
        }),
{
}

/// Over the terminal pane an event goes to the session in front, counted from the
/// pane's corner, and the pane gets the focus; a click enters Terminal mode.
pub proof fn law_the_pane_passes_the_mouse_on(m: AppModel, e: MouseEvent, id: u64)
    requires
        !m.help_open,
        m.popup is None,
        regions_of(m).terminal.has_cell(e.column, e.row),
        !regions_of(m).sidebar.has_cell(e.column, e.row),
        !regions_of(m).tab_bar.has_cell(e.column, e.row),
        m.focused_session() == Some(id),
    ensures
        ({
            let pane = regions_of(m).terminal;
            let (after, cmds) = mouse_step(m, e);
            &&& cmds.len() == 1
            &&& cmds[0] matches CommandModel::WriteMouse(to, sent) && to == id && sent.kind
                == e.kind && sent.modifiers == e.modifiers && sent.column + pane.x == e.column
                && sent.row + pane.y == e.row
            &&& after.ui_focus is Terminal
            &&& after.mode == (if click(e) && m.mode is Normal {
                Mode::Terminal
            } else {
                m.mode
            })
            &&& after.projects == m.projects
        }),
{
}

} // verus!
