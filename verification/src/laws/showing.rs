//! What is shown, and where.

use crate::app::{AppModel, ConfirmModel, LaunchModel, OpenModel, PrStatus, ProjectModel};
use crate::cells::{
    bg_in, cell_on, cursor_place, drawn_cell, fg_in, is_bold, is_inverse, is_italic,
    is_underlined, pane_drawn, row_drawn, rows_drawn, size_on, text_in, ScreenColor,
};
use crate::drawing::{
    cut_to_chars, cut_to_columns, filled, flush_right, held, least, less, shade, spaces,
    text_columns,
};
use crate::cmdtable::COMMANDS;
use crate::editbox::{box_input, BoxKey};
use crate::event::{KeyCode, KeyEvent};
use crate::help::{bound_keys, command_row, help_page, HelpModel};
use crate::ipc::rss_of;
use crate::keybinds::{BindableAction, Table};
use crate::layout::{chrome_of, clamped_width, ChromeRects, Rect, TermSize};
use crate::overlays::{
    browser_row, browser_rows_of, first_shown, launch_row, row_label, row_memory,
    sessions_memory, whole_memory,
};
use crate::render::{
    floating_of, header_text, hints_in, middle_of, notice_of, pane_of, tabs_shown, worktree_row,
    NoticeModel, PaneModel,
};
use crate::text;
use crate::theme::{palette, Color, Theme, ThemeKind};
use crate::usage::RowModel;
use vstd::prelude::*;
use vt100::Screen;

verus! {

// ---------------------------------------------------------------------------
// The regions of the screen
// ---------------------------------------------------------------------------

/// On a terminal with room for all of it the action bar is the last row, the sidebar
/// is as wide as was asked for and stands at the left, and right of it the tab bar
/// takes two rows and the terminal all the others.
pub proof fn law_the_screen_is_laid_out(size: TermSize, width: u16)
    requires
        size.rows >= 4,
        width >= 10,
        width + 10 <= size.cols,
    ensures
        ({
            let r = chrome_of(size.rect(), width);
            &&& r.action_bar.x == 0 && r.action_bar.y == size.rows - 1 && r.action_bar.width
                == size.cols && r.action_bar.height == 1
            &&& r.sidebar.x == 0 && r.sidebar.y == 0 && r.sidebar.width == width
                && r.sidebar.height == size.rows - 1
            &&& r.tab_bar.x == width && r.tab_bar.y == 0 && r.tab_bar.width == size.cols - width
                && r.tab_bar.height == 2
            &&& r.terminal.x == width && r.terminal.y == 2 && r.terminal.width == size.cols
                - width && r.terminal.height == size.rows - 3
        }),
{
}

/// A sidebar is never set under ten columns, nor wider than half the terminal unless
/// that is under ten; in between it is what was asked for.
pub proof fn law_the_sidebar_stays_in_bounds(width: u16, cols: u16)
    ensures
        clamped_width(width, cols) >= 10,
        cols >= 20 ==> clamped_width(width, cols) <= cols / 2,
        10 <= width <= cols / 2 ==> clamped_width(width, cols) == width,
        cols < 20 ==> clamped_width(width, cols) == 10,
{
}

// ---------------------------------------------------------------------------
// The sidebar
// ---------------------------------------------------------------------------

/// A project's row shows whether it is unfolded and its name; one on a remote names
/// that too, and marks it where it is not connected.
pub proof fn law_project_rows_say_where_they_are(m: AppModel, p: ProjectModel)
    ensures
        ({
            let head = (if p.expanded { "▼ "@ } else { "▶ "@ }) + p.name;
            let remote = m.supervisors.config_name(p.supervisor);
            &&& remote is None ==> header_text(m, p) =~= head
            &&& remote matches Some(sup) ==> header_text(m, p) =~= head + "  ["@ + sup + (
            if m.supervisors.connected.contains(p.supervisor) { "]"@ } else { " ✗]"@ })
        }),
        p.supervisor == crate::app::local_id() ==> m.supervisors.config_name(p.supervisor) is None,
{
    reveal_strlit("");
}

/// A worktree's row has a filled dot exactly where it is the active one, its name
/// behind that as far as there is room, a bar in the color of its own PR status, and
/// stands out exactly where the cursor is on it.
pub proof fn law_worktree_rows_show_their_worktree(m: AppModel, i: int, j: int, max: nat)
    requires
        0 <= i < m.projects.len() <= usize::MAX,
        0 <= j < m.projects[i].worktrees.len() <= usize::MAX,
        m.projects[i].worktrees[j].name.len() + 4 <= max,
    ensures
        ({
            let row = worktree_row(m, i, j, max);
            let active = m.active_worktree == Some((i as usize, j as usize));
            let selected = m.sidebar_selection == Some((i as usize, Some(j as usize)));
            &&& row.text == (if active { "● "@ } else { "○ "@ }) + m.projects[i].worktrees[j].name
            &&& row.bar == Some(
                shade(
                    m.theme,
                    if m.pr_statuses.dom().contains((i as usize, j as usize)) {
                        Some(m.pr_statuses[(i as usize, j as usize)])
                    } else {
                        None
                    },
                ),
            )
            &&& selected ==> row.style.bg == m.theme.selection_bg
            &&& !selected ==> row.style.bg == m.theme.bg && row.style.fg == m.theme.fg
        }),
{
    reveal_strlit("● ");
    reveal_strlit("○ ");
}

/// A status has its own color: merged PRs the one of changes, failed checks and
/// requested changes that of errors, running checks that of running, open ones that of
/// success; without a PR the bar is dim.
pub proof fn law_statuses_have_their_color(theme: Theme)
    ensures
        shade(theme, Some(PrStatus::Merged)) == theme.status_changes,
        shade(theme, Some(PrStatus::Failed)) == theme.status_error,
        shade(theme, Some(PrStatus::ChangesRequested)) == theme.status_error,
        shade(theme, Some(PrStatus::Running)) == theme.status_running,
        shade(theme, Some(PrStatus::Approved)) == theme.status_approved,
        shade(theme, Some(PrStatus::Open)) == theme.status_ok,
        shade(theme, None) == theme.fg_dim,
{
}

/// A text that is too long is cut to the room there is, and ends in an ellipsis; one
/// that fits stays.
pub proof fn law_long_texts_end_in_an_ellipsis(s: Seq<char>, max: nat)
    ensures
        s.len() <= max ==> cut_to_chars(s, max) == s,
        s.len() > max && max > 0 ==> cut_to_chars(s, max).len() == max && cut_to_chars(
            s,
            max,
        ).last() == '…' && cut_to_chars(s, max).take(max - 1) == s.take(max - 1),
{
    if s.len() > max && max > 0 {
        assert(cut_to_chars(s, max).take(max - 1) =~= s.take(max - 1));
    }
}

// ---------------------------------------------------------------------------
// Tabs, pane and bar
// ---------------------------------------------------------------------------

/// The tab bar numbers the tabs of the active worktree from 1, and marks exactly the
/// one in front.
pub proof fn law_tabs_are_numbered_from_one(m: AppModel, p: int, w: int, i: int)
    requires
        m.active_worktree == Some((p as usize, w as usize)),
        0 <= p < m.projects.len() <= usize::MAX,
        0 <= w < m.projects[p].worktrees.len() <= usize::MAX,
        0 <= i < m.projects[p].worktrees[w].sessions.len() <= usize::MAX,
    ensures
        tabs_shown(m).len() == m.projects[p].worktrees[w].sessions.len(),
        tabs_shown(m)[i].0 == " "@ + text::decimal((i + 1) as nat) + " "@,
        tabs_shown(m)[i].1 <==> m.projects[p].worktrees[w].active_tab == Some(i as usize),
{
}

/// The terminal pane shows the session in front of the active worktree; without one
/// it says how to get one.
pub proof fn law_the_pane_shows_the_session_in_front(m: AppModel, id: u64)
    ensures
        m.focused_session() == Some(id) && m.sessions.contains(id) ==> pane_of(m)
            == PaneModel::Session(id),
        m.focused_session() is None ==> pane_of(m) is Lines,
{
}

/// The action bar names the project and the worktree that are active, and the rows
/// and columns of the terminal.
pub proof fn law_the_bar_names_the_active_worktree(m: AppModel, r: ChromeRects, p: int, w: int)
    requires
        m.active_worktree == Some((p as usize, w as usize)),
        0 <= p < m.projects.len() <= usize::MAX,
        0 <= w < m.projects[p].worktrees.len() <= usize::MAX,
    ensures
        middle_of(m, r) == m.projects[p].name + " · "@ + m.projects[p].worktrees[w].name + " · "@
            + text::decimal(r.terminal.height as nat) + "×"@ + text::decimal(
            r.terminal.width as nat,
        ),
{
}

/// A question comes before what is under way, that before the last message, and that
/// before news of updates; an available release is announced with its tag.
pub proof fn law_questions_come_before_messages(m: AppModel)
    ensures
        (m.pending_confirm matches Some(ConfirmModel::RemoveWorktree { name, .. }) ==> notice_of(m)
            == NoticeModel::Confirm("delete worktree '"@ + name + "'? [y/N]"@)),
        m.pending_confirm is None && m.pending_op is Some ==> notice_of(m) == NoticeModel::Busy(
            m.pending_op->Some_0,
        ),
        m.pending_confirm is None && m.pending_op is None && m.command_status is Some
            ==> notice_of(m) == NoticeModel::Status(m.command_status->Some_0),
        m.pending_confirm is None && m.pending_op is None && m.command_status is None
            && m.update_status is Idle ==> (match m.available_update {
            Some(info) => notice_of(m) == NoticeModel::Banner(
                info.latest_tag@ + " available · :update to install"@,
            ),
            None => notice_of(m) is Nothing,
        }),
{
}

/// The popup that is drawn is one that is open, and none is drawn where none is.
pub proof fn law_an_open_popup_is_drawn(m: AppModel)
    ensures
        floating_of(m) is Nothing <==> !m.help_open && m.popup is None && m.open_project_popup
            is None && m.edit_popup is None && m.usage_popup is None && m.launch_popup is None
            && m.palette_popup is None,
        floating_of(m) is Help <==> m.help_open,
        floating_of(m) is Input ==> m.popup is Some,
        floating_of(m) is OpenProject ==> m.open_project_popup is Some,
        floating_of(m) is Edit ==> m.edit_popup is Some,
        floating_of(m) is Usage ==> m.usage_popup is Some,
        floating_of(m) is Launch ==> m.launch_popup is Some,
        floating_of(m) is Palette ==> m.palette_popup is Some,
{
}

// ---------------------------------------------------------------------------
// Cells
// ---------------------------------------------------------------------------

proof fn lemma_row_has(s: Screen, row: u16, n: nat, theme: Theme, col: u16)
    requires
        col < n <= u16::MAX,
        cell_on(s, row, col) is Some,
    ensures
        row_drawn(s, row, n, theme).contains(
            drawn_cell(cell_on(s, row, col)->Some_0, row, col, theme),
        ),
    decreases n,
{
    let want = drawn_cell(cell_on(s, row, col)->Some_0, row, col, theme);
    let before = row_drawn(s, row, (n - 1) as nat, theme);
    let all = row_drawn(s, row, n, theme);
    if col < n - 1 {
        lemma_row_has(s, row, (n - 1) as nat, theme, col);
        let k = choose|k: int| 0 <= k < before.len() && before[k] == want;
        assert(all[k] == want);
    } else {
        assert(all[before.len() as int] == want);
    }
}

proof fn lemma_rows_have(s: Screen, n: nat, w: nat, theme: Theme, row: u16, col: u16)
    requires
        row < n <= u16::MAX,
        col < w <= u16::MAX,
        cell_on(s, row, col) is Some,
    ensures
        rows_drawn(s, n, w, theme).contains(
            drawn_cell(cell_on(s, row, col)->Some_0, row, col, theme),
        ),
    decreases n,
{
    let want = drawn_cell(cell_on(s, row, col)->Some_0, row, col, theme);
    let before = rows_drawn(s, (n - 1) as nat, w, theme);
    let last = row_drawn(s, (n - 1) as u16, w, theme);
    let all = rows_drawn(s, n, w, theme);
    if row < n - 1 {
        lemma_rows_have(s, (n - 1) as nat, w, theme, row, col);
        let k = choose|k: int| 0 <= k < before.len() && before[k] == want;
        assert(all[k] == want);
    } else {
        lemma_row_has(s, row, w, theme, col);
        let k = choose|k: int| 0 <= k < last.len() && last[k] == want;
        assert(all[before.len() + k] == want);
    }
}

/// Every cell of a screen that the pane has room for is drawn at its own place, with
/// its text, its colors and its attributes; a cell without text is blank, and one
/// without a color has the theme's.
pub proof fn law_cells_are_drawn_as_they_are(
    s: Screen,
    width: u16,
    height: u16,
    theme: Theme,
    row: u16,
    col: u16,
)
    requires
        row < height && row < size_on(s).0,
        col < width && col < size_on(s).1,
        cell_on(s, row, col) is Some,
    ensures
        ({
            let c = cell_on(s, row, col)->Some_0;
            let d = drawn_cell(c, row, col, theme);
            &&& pane_drawn(s, width, height, theme).contains(d)
            &&& d.row == row && d.col == col
            &&& text_in(c).len() > 0 ==> d.symbol == text_in(c)
            &&& text_in(c).len() == 0 ==> d.symbol == " "@
            &&& d.style.bold == is_bold(c) && d.style.italic == is_italic(c)
                && d.style.underlined == is_underlined(c) && d.style.reversed == is_inverse(c)
            &&& fg_in(c) is Default ==> d.style.fg == theme.fg
            &&& bg_in(c) is Default ==> d.style.bg == theme.bg
            &&& fg_in(c) matches ScreenColor::Idx(i) ==> d.style.fg == Color::Indexed(i)
            &&& bg_in(c) matches ScreenColor::Idx(i) ==> d.style.bg == Color::Indexed(i)
            &&& fg_in(c) matches ScreenColor::Rgb(r, g, b) ==> d.style.fg == Color::Rgb(r, g, b)
            &&& bg_in(c) matches ScreenColor::Rgb(r, g, b) ==> d.style.bg == Color::Rgb(r, g, b)
        }),
{
    lemma_rows_have(
        s,
        least(height as int, size_on(s).0 as int) as nat,
        least(width as int, size_on(s).1 as int) as nat,
        theme,
        row,
        col,
    );
}

/// The cursor is drawn at its place on the screen, counted from the pane's corner, and
/// held inside the pane.
pub proof fn law_the_cursor_is_drawn_inside_the_pane(area: Rect, row: u16, col: u16)
    requires
        area.width > 0 && area.height > 0,
    ensures
        col < area.width ==> cursor_place(area, row, col).0 == area.x + col,
        row < area.height ==> cursor_place(area, row, col).1 == area.y + row,
        area.x <= cursor_place(area, row, col).0 < area.x + area.width,
        area.y <= cursor_place(area, row, col).1 < area.y + area.height,
{
}

// ---------------------------------------------------------------------------
// Usage
// ---------------------------------------------------------------------------

/// A session's row shows the memory of its whole tree, a process's row its own; the
/// sessions' total is over the session rows alone, and the whole total counts the
/// processes of a session once.
pub proof fn law_totals_count_everything_once(rows: Seq<RowModel>, row: RowModel)
    ensures
        ({
            let n = rows.len();
            let more = rows.push(row);
            &&& sessions_memory(more, n + 1) == sessions_memory(rows, n) + (match row {
                RowModel::Session { usage, .. } => rss_of(usage.root),
                _ => 0,
            })
            &&& whole_memory(more, n + 1) == whole_memory(rows, n) + (match row {
                RowModel::Session { usage, .. } => rss_of(usage.root),
                RowModel::Supervisor(node) => node.rss_bytes as nat,
                RowModel::Client(node) => node.rss_bytes as nat,
                _ => 0,
            })
        }),
        row matches RowModel::Process { node, .. } ==> row_memory(row) == node.rss_bytes,
        sessions_memory(rows, 0) == 0 && whole_memory(rows, 0) == 0,
{
    lemma_memory_front(rows, row, rows.len());
}

proof fn lemma_memory_front(rows: Seq<RowModel>, row: RowModel, n: nat)
    requires
        n <= rows.len(),
    ensures
        sessions_memory(rows.push(row), n) == sessions_memory(rows, n),
        whole_memory(rows.push(row), n) == whole_memory(rows, n),
    decreases n,
{
    if n > 0 {
        lemma_memory_front(rows, row, (n - 1) as nat);
        assert(rows.push(row)[n - 1] == rows[n - 1]);
    }
}

/// A session's row names its project and worktree and its shell, a process's row its
/// name and number, further in the deeper it is.
pub proof fn law_usage_rows_name_what_they_show(row: RowModel)
    ensures
        row matches RowModel::Session { usage, expanded, .. } ==> row_label(row) == (if expanded {
            "▾ "@
        } else {
            "▸ "@
        }) + usage.project_slug@ + "/"@ + usage.worktree_name@ + ("  (pid "@ + text::decimal(
            usage.root.pid as nat,
        ) + ")"@),
        row matches RowModel::Process { depth, node } ==> row_label(row) == spaces(
            2 * depth + 2,
        ) + "└ "@ + node.name@ + ("  (pid "@ + text::decimal(node.pid as nat) + ")"@),
        row matches RowModel::SupervisorHeader { name } ==> row_label(row) == "▏"@ + name,
{
}

// ---------------------------------------------------------------------------
// Lists and help
// ---------------------------------------------------------------------------

/// The cursor's row of a list is always among those that show, and no row is left out
/// above it without need.
pub proof fn law_lists_scroll_to_their_cursor(cursor: u16, visible: u16)
    requires
        visible > 0,
    ensures
        first_shown(cursor, visible) <= cursor < first_shown(cursor, visible) + visible,
        cursor < visible ==> first_shown(cursor, visible) == 0,
{
}

/// A repository is marked in the directory browser, a directory is not, and the row
/// under the cursor stands out while the list has the focus.
pub proof fn law_repositories_are_marked(
    entries: Seq<(Seq<char>, bool)>,
    cursor: u16,
    focused: bool,
    i: int,
)
    requires
        0 <= i < entries.len(),
    ensures
        ({
            let row = browser_row(entries, cursor, focused, i);
            &&& row.repo == entries[i].1
            &&& row.label == (if entries[i].1 { "  ◆ "@ } else { "    "@ }) + entries[i].0 + "/"@
            &&& row.selected <==> focused && cursor == i
        }),
{
}

/// Filling up keeps the text at the left and flushing keeps it at the right, and both
/// bring it to the width if it is shorter.
pub proof fn law_texts_are_filled_up(s: Seq<char>, width: nat)
    requires
        s.len() <= width,
    ensures
        filled(s, width as int).len() == width,
        filled(s, width as int).take(s.len() as int) == s,
        flush_right(s, width as int).len() == width,
        flush_right(s, width as int).skip(width - s.len()) == s,
        forall|i: int| s.len() <= i < width ==> #[trigger] filled(s, width as int)[i] == ' ',
{
    assert(filled(s, width as int).take(s.len() as int) =~= s);
    assert(flush_right(s, width as int).skip(width - s.len()) =~= s);
}

/// The two themes are told apart by their kind, and text stands out against the
/// background in both.
pub proof fn law_themes_are_told_apart(kind: ThemeKind)
    ensures
        palette(kind).kind == kind,
        palette(kind).fg != palette(kind).bg,
        palette(kind).selection_fg != palette(kind).selection_bg,
        palette(ThemeKind::Dark).bg != palette(ThemeKind::Light).bg,
        palette(kind).status_ok != palette(kind).status_error,
{
}

/// A text that is too wide is cut behind one of its characters; what is left of it is
/// its start.
pub proof fn law_cut_texts_keep_their_start(s: Seq<char>, max: nat)
    requires
        max >= 1,
        text_columns(s) > max,
    ensures
        ({
            let t = cut_to_columns(s, max);
            &&& t.len() > 0 && t.len() - 1 <= s.len()
            &&& t.take(t.len() - 1) == s.take(t.len() - 1)
            &&& t.last() == '…'
        }),
{
    crate::drawing::law_cut_texts_fit(s, max);
    let n = crate::drawing::fitting(s, max, s.len());
    lemma_fitting(s, max, s.len());
    assert(s.take(s.len() as int) =~= s);
    if n == s.len() {
        assert(cut_to_columns(s, max) == s);
        lemma_fitting_fits(s, max, s.len());
    }
    lemma_room(s, n, max);
    let p = crate::drawing::with_room(s, n, max);
    assert(p.push('…').take(p.len() as int) =~= p);
}

proof fn lemma_fitting(s: Seq<char>, max: nat, n: nat)
    requires
        n <= s.len(),
    ensures
        crate::drawing::fitting(s, max, n) <= n,
    decreases n,
{
    if n > 0 {
        lemma_fitting(s, max, (n - 1) as nat);
    }
}

proof fn lemma_fitting_fits(s: Seq<char>, max: nat, n: nat)
    requires
        n <= s.len(),
        n > 0,
        crate::drawing::fitting(s, max, n) == n,
    ensures
        text_columns(s.take(n as int)) <= max,
{
    lemma_fitting(s, max, (n - 1) as nat);
}

proof fn lemma_room(s: Seq<char>, n: nat, max: nat)
    requires
        n <= s.len(),
    ensures
        crate::drawing::with_room(s, n, max).len() <= n,
        crate::drawing::with_room(s, n, max) == s.take(
            crate::drawing::with_room(s, n, max).len() as int,
        ),
    decreases n,
{
    if n > 0 && text_columns(s.take(n as int)) + 1 > max {
        lemma_room(s, (n - 1) as nat, max);
    }
}

/// A row of the launcher picker shows the label, says what is run, and tags launchers
/// of the project and global ones; the row under the cursor is pointed at.
pub proof fn law_launcher_rows_say_what_they_run(p: LaunchModel, i: int)
    requires
        0 <= i < p.entries.len(),
    ensures
        ({
            let e = p.entries[i];
            let row = launch_row(p, i);
            &&& row.selected <==> p.cursor == i
            &&& row.head == (if p.cursor == i { "▸ "@ } else { "  "@ }) + e.label
            &&& e.command is None ==> row.detail == "  (plain shell)"@
            &&& e.command matches Some(c) ==> (text_columns(c) <= 44 ==> row.detail == "  "@ + c)
            &&& e.source is Project ==> row.tag == "  [project]"@
            &&& e.source is Global ==> row.tag == "  [global]"@
            &&& e.source is Builtin ==> row.tag == ""@
        }),
{
    let e = p.entries[i];
    if let Some(c) = e.command {
        crate::drawing::law_cut_texts_fit(c, 44);
    }
}

/// The help page names every command with what it does, and every action with the
/// first of its bindings, or says that it has none.
pub proof fn law_the_help_page_shows_commands_and_bindings(
    normal: Table,
    terminal: Table,
    i: int,
    a: BindableAction,
    k: int,
)
    requires
        0 <= i < COMMANDS.len(),
    ensures
        help_page(normal, terminal).contains(command_row(COMMANDS[i])),
        command_row(COMMANDS[i]) matches HelpModel::Row { what, .. } && what
            == COMMANDS[i].description_text(),
        (!(a is LeaveTerminal) && 0 <= k < normal.len() && normal[k].1 == a && forall|j: int|
            0 <= j < k ==> (#[trigger] normal[j]).1 != a) ==> bound_keys(normal, terminal, a)
            == crate::keybinds::written(normal[k].0),
        (!(a is LeaveTerminal) && forall|j: int|
            0 <= j < normal.len() ==> (#[trigger] normal[j]).1 != a) ==> bound_keys(
            normal,
            terminal,
            a,
        ) == "(unbound)"@,
{
    let page = help_page(normal, terminal);
    let head = crate::help::help_bindings(normal, terminal) + crate::help::help_fixed();
    let rows = crate::help::command_rows(COMMANDS@.len());
    assert(rows[i] == command_row(COMMANDS[i]));
    let part = crate::help::help_section("COMMANDS"@, rows);
    assert(part[i + 1] == rows[i]);
    assert(page[head.len() + i + 1] == command_row(COMMANDS[i]));
    lemma_first_binding(normal, a, k);
}

proof fn lemma_first_binding(t: Table, a: BindableAction, k: int)
    ensures
        (0 <= k < t.len() && t[k].1 == a && forall|j: int| 0 <= j < k ==> (#[trigger] t[j]).1 != a)
            ==> crate::keybinds::first_binding(t, a) == Some(t[k].0),
        (forall|j: int| 0 <= j < t.len() ==> (#[trigger] t[j]).1 != a)
            ==> crate::keybinds::first_binding(t, a) is None,
    decreases t.len(),
{
    if t.len() > 0 && t[0].1 != a {
        let rest = t.skip(1);
        lemma_first_binding(rest, a, k - 1);
        if 0 <= k < t.len() && t[k].1 == a && forall|j: int|
            0 <= j < k ==> (#[trigger] t[j]).1 != a {
            assert(rest[k - 1] == t[k]);
            assert forall|j: int| 0 <= j < k - 1 implies (#[trigger] rest[j]).1 != a by {
                assert(rest[j] == t[j + 1]);
            }
        }
        if forall|j: int| 0 <= j < t.len() ==> (#[trigger] t[j]).1 != a {
            assert forall|j: int| 0 <= j < rest.len() implies (#[trigger] rest[j]).1 != a by {
                assert(rest[j] == t[j + 1]);
            }
        }
    }
}

/// The leader menu shows, for each chord that starts with the space bar, the keys
/// behind it and what they do.
pub proof fn law_the_leader_menu_shows_what_may_follow(t: Table, n: nat, i: int)
    requires
        0 <= i < n <= t.len(),
        t[i].0.len() >= 2,
    ensures
        hints_in(t, n).contains((crate::keybinds::written(t[i].0.skip(1)), t[i].1.meaning())),
    decreases n,
{
    let before = hints_in(t, (n - 1) as nat);
    let all = hints_in(t, n);
    let want = (crate::keybinds::written(t[i].0.skip(1)), t[i].1.meaning());
    if i < n - 1 {
        law_the_leader_menu_shows_what_may_follow(t, (n - 1) as nat, i);
        let k = choose|k: int| 0 <= k < before.len() && before[k] == want;
        assert(all[k] == want);
    } else {
        assert(all[before.len() as int] == want);
    }
}

/// A key event reaches an edit box as the key it is, with its modifiers.
pub proof fn law_edit_boxes_get_the_key_that_was_pressed(k: KeyEvent, c: char, n: u8)
    ensures
        box_input(k).ctrl == k.modifiers.control && box_input(k).alt == k.modifiers.alt
            && box_input(k).shift == k.modifiers.shift,
        k.code == KeyCode::Char(c) ==> box_input(k).key == BoxKey::Char(c),
        k.code == KeyCode::F(n) ==> box_input(k).key == BoxKey::F(n),
        k.code is Enter <==> box_input(k).key is Enter,
        k.code is Backspace <==> box_input(k).key is Backspace,
        k.code is Delete <==> box_input(k).key is Delete,
        k.code is Tab <==> box_input(k).key is Tab,
        k.code is Left <==> box_input(k).key is Left,
        k.code is Right <==> box_input(k).key is Right,
        k.code is Up <==> box_input(k).key is Up,
        k.code is Down <==> box_input(k).key is Down,
        k.code is Home <==> box_input(k).key is Home,
        k.code is End <==> box_input(k).key is End,
        k.code is PageUp <==> box_input(k).key is PageUp,
        k.code is PageDown <==> box_input(k).key is PageDown,
        k.code is Esc <==> box_input(k).key is Esc,
{
}

/// The directory browser shows the way up where there is one, and below it the
/// directories in order, with the one under the cursor among them.
pub proof fn law_the_browser_shows_its_cursor(p: OpenModel, height: u16)
    requires
        p.browser matches Some(b) && b.cursor < b.entries.len(),
    ensures
        ({
            let b = p.browser->Some_0;
            let rows = browser_rows_of(p, height);
            let up = if b.parent is Some {
                1int
            } else {
                0
            };
            let first = if b.cursor >= height - 2 && height >= 2 {
                b.cursor - (height - 2)
            } else if height < 2 {
                b.cursor as int
            } else {
                0
            };
            &&& b.parent is Some ==> rows[0].label == "  ../"@ && !rows[0].repo
            &&& rows.len() == up + b.entries.len() - first
            &&& forall|i: int|
                first <= i < b.entries.len() ==> #[trigger] rows[up + i - first] == browser_row(
                    b.entries,
                    b.cursor,
                    p.focus is Path,
                    i,
                )
            &&& first <= b.cursor
        }),
{
    let b = p.browser->Some_0;
    let rows = browser_rows_of(p, height);
    let start = less(b.cursor as int, less(height as int, 2));
    let up = if b.parent is Some {
        1int
    } else {
        0
    };
    assert forall|i: int| start <= i < b.entries.len() implies #[trigger] rows[up + i - start]
        == browser_row(b.entries, b.cursor, p.focus is Path, i) by {}
}

/// What is said of an import or a refresh counts what it found.
pub proof fn law_messages_count_what_was_found(n: nat)
    ensures
        n == 1 ==> crate::lifecycle::import_message(n) =~= "imported 1 worktree"@
            && crate::reducer::refresh_message(n) =~= "PR status refreshed (1 PR)"@,
        n > 1 ==> crate::lifecycle::import_message(n) == "imported "@ + text::decimal(n)
            + " worktree"@ + "s"@,
        n > 1 ==> crate::reducer::refresh_message(n) == "PR status refreshed ("@ + text::decimal(n)
            + " PRs)"@,
        n == 0 ==> crate::lifecycle::import_message(n) == "no new worktrees to import"@,
{
    reveal_strlit("imported ");
    reveal_strlit(" worktree");
    reveal_strlit("");
    reveal_strlit("imported 1 worktree");
    reveal_strlit("PR status refreshed (");
    reveal_strlit(" PR)");
    reveal_strlit("PR status refreshed (1 PR)");
}

} // verus!
