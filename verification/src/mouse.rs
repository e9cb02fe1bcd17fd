//! What the mouse does.

use crate::app::{AppModel, AppState, Command, CommandModel, Commands, Mode, UiFocus, WorktreeModel};
use crate::event::{MouseButton, MouseEvent, MouseEventKind};
use crate::keys::{bump_help_scroll, help_closed, help_scrolled};
use crate::layout::rect_contains;
use crate::mutate;
use crate::sidebar::{
    self, quiet, regions, regions_of, scrolled_down, selection_activated, selection_of,
    visible_rows, Step,
};
use vstd::prelude::*;

verus! {

/// Each tab is drawn as ` N ` (three columns) and a space (one column).
pub const TAB_SLOT_WIDTH: u16 = 4;

/// Whether the event is a press of the left button.
pub open spec fn left_down(e: MouseEvent) -> bool {
    e.kind == MouseEventKind::Down(MouseButton::Left)
}

/// Whether the event is a press of the left button.
pub fn is_left_down(e: &MouseEvent) -> (r: bool)
    ensures
        r == left_down(*e),
{
    e.kind == MouseEventKind::Down(MouseButton::Left)
}

/// The help page under the mouse: the wheel scrolls it, a click closes it.
pub open spec fn help_mouse(m: AppModel, e: MouseEvent) -> AppModel {
    match e.kind {
        MouseEventKind::ScrollUp => help_scrolled(m, -3),
        MouseEventKind::ScrollDown => help_scrolled(m, 3),
        MouseEventKind::Down(MouseButton::Left) => help_closed(m),
        _ => m,
    }
}

fn handle_help_mouse(state: &mut AppState, e: MouseEvent)
    ensures
        final(state)@ == help_mouse(old(state)@, e),
{
    match e.kind {
        MouseEventKind::ScrollUp => bump_help_scroll(state, -3),
        MouseEventKind::ScrollDown => bump_help_scroll(state, 3),
        MouseEventKind::Down(MouseButton::Left) => {
            state.help_open = false;
            state.help_scroll = 0;
        },
        _ => {},
    }
}

/// Which row of the tree lies under a row of the screen. The title takes the
/// sidebar's first row.
pub open spec fn row_under(m: AppModel, row: u16) -> int {
    row - (regions_of(m).sidebar.y + 1) + m.sidebar_scroll
}

/// The sidebar under the mouse: it takes the focus; the wheel scrolls it; a
/// click on a row selects and activates it.
pub open spec fn sidebar_mouse(m: AppModel, e: MouseEvent) -> Step {
    let m1 = AppModel { ui_focus: UiFocus::Sidebar, ..m };
    let rows = visible_rows(m.projects);
    let at = row_under(m, e.row);
    match e.kind {
        MouseEventKind::ScrollUp => quiet(
            AppModel {
                sidebar_scroll: if m.sidebar_scroll >= 3 {
                    (m.sidebar_scroll - 3) as u16
                } else {
                    0
                },
                ..m1
            },
        ),
        MouseEventKind::ScrollDown => quiet(scrolled_down(m1, 3)),
        _ => if left_down(e) && e.row > regions_of(m).sidebar.y && at < rows.len() {
            selection_activated(
                AppModel { sidebar_selection: Some(selection_of(rows[at])), ..m1 },
            )
        } else {
            quiet(m1)
        },
    }
}

/// The mouse over the sidebar.
#[verifier::spinoff_prover]
pub fn handle_sidebar_mouse(state: &mut AppState, e: MouseEvent, cmds: &mut Commands)
    ensures
        final(state)@ == sidebar_mouse(old(state)@, e).0,
        final(cmds)@ == old(cmds)@ + sidebar_mouse(old(state)@, e).1,
{
    assert(cmds@ =~= old(cmds)@ + Seq::<CommandModel>::empty());
    let top: u16 = regions(state).sidebar.y;
    state.ui_focus = UiFocus::Sidebar;
    match e.kind {
        MouseEventKind::ScrollUp => {
            state.sidebar_scroll = if state.sidebar_scroll >= 3 {
                state.sidebar_scroll - 3
            } else {
                0
            };
            return;
        },
        MouseEventKind::ScrollDown => {
            sidebar::scroll_sidebar_down(state, 3);
            return;
        },
        _ => {},
    }
    if !is_left_down(&e) || e.row <= top {
        return;
    }
    let at: usize = (e.row - top - 1) as usize + state.sidebar_scroll as usize;
    let rows = sidebar::sidebar_visible_rows(state);
    if at >= rows.len() {
        return;
    }
    state.sidebar_selection = Some(sidebar::row_to_selection(rows[at]));
    sidebar::activate_sidebar_selection(state, cmds);
}

/// The tab bar under the mouse: a click on a tab of the active worktree brings
/// it to the front and gives the terminal the focus.
pub open spec fn tab_bar_mouse(m: AppModel, e: MouseEvent) -> AppModel {
    let left = regions_of(m).tab_bar.x;
    match m.active_worktree {
        Some((p, w)) => match m.worktree(p, w) {
            Some(wt) => {
                let tab = (e.column - left) / TAB_SLOT_WIDTH as int;
                if left_down(e) && e.column >= left && tab < wt.sessions.len() {
                    AppModel {
                        ui_focus: UiFocus::Terminal,
                        ..m.with_worktree(
                            p,
                            w,
                            WorktreeModel { active_tab: Some(tab as usize), ..wt },
                        )
                    }
                } else {
                    m
                }
            },
            None => m,
        },
        None => m,
    }
}

/// The mouse over the tab bar.
pub fn handle_tab_bar_mouse(state: &mut AppState, e: MouseEvent)
    ensures
        final(state)@ == tab_bar_mouse(old(state)@, e),
{
    let left: u16 = regions(state).tab_bar.x;
    if !is_left_down(&e) || e.column < left {
        return;
    }
    let (p, w) = match state.active_worktree {
        Some(at) => at,
        None => return,
    };
    if !mutate::has_worktree(state, p, w) {
        return;
    }
    let tab: usize = ((e.column - left) / TAB_SLOT_WIDTH) as usize;
    let tabs: usize = state.projects[p].worktrees[w].sessions.len();
    assert(tabs == state@.worktree(p, w)->Some_0.sessions.len());
    if tab < tabs {
        mutate::set_tab(state, p, w, Some(tab));
        state.ui_focus = UiFocus::Terminal;
    }
}

/// The terminal pane under the mouse: it takes the focus; a click enters
/// Terminal mode; the session gets the event, counted from the pane's corner.
pub open spec fn terminal_mouse(m: AppModel, e: MouseEvent) -> Step {
    let pane = regions_of(m).terminal;
    let m1 = AppModel { ui_focus: UiFocus::Terminal, ..m };
    match m.focused_session() {
        Some(id) => (
            AppModel {
                mode: if left_down(e) && m.mode is Normal {
                    Mode::Terminal
                } else {
                    m.mode
                },
                ..m1
            },
            seq![
                CommandModel::WriteMouse(
                    id,
                    MouseEvent {
                        column: (e.column - pane.x) as u16,
                        row: (e.row - pane.y) as u16,
                        ..e
                    },
                ),
            ],
        ),
        None => quiet(m1),
    }
}

/// The mouse over the terminal pane.
pub fn handle_terminal_mouse(state: &mut AppState, e: MouseEvent, cmds: &mut Commands)
    requires
        regions_of(old(state)@).terminal.x <= e.column,
        regions_of(old(state)@).terminal.y <= e.row,
    ensures
        final(state)@ == terminal_mouse(old(state)@, e).0,
        final(cmds)@ == old(cmds)@ + terminal_mouse(old(state)@, e).1,
{
    assert(cmds@ =~= old(cmds)@ + Seq::<CommandModel>::empty());
    let pane = regions(state).terminal;
    let focused = state.focused_session_id();
    state.ui_focus = UiFocus::Terminal;
    if let Some(id) = focused {
        if is_left_down(&e) && state.mode == Mode::Normal {
            state.mode = Mode::Terminal;
        }
        cmds.push(
            Command::WriteMouse(
                id,
                MouseEvent { column: e.column - pane.x, row: e.row - pane.y, ..e },
            ),
        );
        assert(cmds@ =~= old(cmds)@ + terminal_mouse(old(state)@, e).1);
    }
}

/// What the mouse does: the help page takes it, then an input, which a click
/// dismisses, then the part of the screen under it.
pub open spec fn mouse_step(m: AppModel, e: MouseEvent) -> Step {
    let r = regions_of(m);
    if m.help_open {
        quiet(help_mouse(m, e))
    } else if m.popup is Some {
        quiet(
            if left_down(e) {
                AppModel { popup: None, ..m }
            } else {
                m
            },
        )
    } else if r.sidebar.has_cell(e.column, e.row) {
        sidebar_mouse(m, e)
    } else if r.tab_bar.has_cell(e.column, e.row) {
        quiet(tab_bar_mouse(m, e))
    } else if r.terminal.has_cell(e.column, e.row) {
        terminal_mouse(m, e)
    } else {
        quiet(m)
    }
}

/// What the mouse does.
#[verifier::spinoff_prover]
pub fn handle_mouse(state: &mut AppState, e: MouseEvent, cmds: &mut Commands)
    ensures
        final(state)@ == mouse_step(old(state)@, e).0,
        final(cmds)@ == old(cmds)@ + mouse_step(old(state)@, e).1,
{
    assert(cmds@ =~= old(cmds)@ + Seq::<CommandModel>::empty());
    if state.help_open {
        handle_help_mouse(state, e);
        return;
    }
    if state.popup.is_some() {
        if is_left_down(&e) {
            state.popup = None;
        }
        return;
    }
    let r = regions(state);
    if rect_contains(r.sidebar, e.column, e.row) {
        handle_sidebar_mouse(state, e, cmds);
    } else if rect_contains(r.tab_bar, e.column, e.row) {
        handle_tab_bar_mouse(state, e);
    } else if rect_contains(r.terminal, e.column, e.row) {
        handle_terminal_mouse(state, e, cmds);
    }
}

/// What a session is told of the mouse lies inside the terminal pane.
pub proof fn law_sessions_see_pane_positions(m: AppModel, e: MouseEvent, i: int)
    requires
        0 <= i < mouse_step(m, e).1.len(),
        mouse_step(m, e).1[i] is WriteMouse,
    ensures
        mouse_step(m, e).1[i]->WriteMouse_1.column < regions_of(m).terminal.width,
        mouse_step(m, e).1[i]->WriteMouse_1.row < regions_of(m).terminal.height,
{
}

} // verus!
