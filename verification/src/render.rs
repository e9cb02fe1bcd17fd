//! What is drawn where: the texts and places of everything on the screen.

use crate::app::{
    local, AppModel, AppState, Mode, PendingConfirm, ProjectModel, UiFocus, UpdateStatus,
};
use crate::drawing::{
    cut_to_chars, row_style, row_style_of, shade, status_color, truncate_to_width, TextStyle,
};
use crate::event::{no_mods, KeyCode, KeyModifiers};
use crate::keybinds::{format_binding, under, written, Binding, Chord, Scope, Table};
use crate::layout::{ChromeRects, Rect};
use crate::mutate;
use crate::session::SessionId;
use crate::text;
use crate::theme::Color;
use vstd::prelude::*;

verus! {

// ---------------------------------------------------------------------------
// What floats on top
// ---------------------------------------------------------------------------

/// The popup that is drawn.
#[derive(Copy, Clone, Debug, PartialEq, Eq, Structural)]
pub enum Floating {
    Nothing,
    Help,
    Input,
    OpenProject,
    Edit,
    Usage,
    Launch,
    Palette,
}

/// The popup that is drawn: the first that is open, in this order.
pub open spec fn floating_of(m: AppModel) -> Floating {
    if m.help_open {
        Floating::Help
    } else if m.popup is Some {
        Floating::Input
    } else if m.open_project_popup is Some {
        Floating::OpenProject
    } else if m.edit_popup is Some {
        Floating::Edit
    } else if m.usage_popup is Some {
        Floating::Usage
    } else if m.launch_popup is Some {
        Floating::Launch
    } else if m.palette_popup is Some {
        Floating::Palette
    } else {
        Floating::Nothing
    }
}

/// The popup that is drawn.
pub fn floating(state: &AppState) -> (r: Floating)
    ensures
        r == floating_of(state@),
{
    if state.help_open {
        Floating::Help
    } else if state.popup.is_some() {
        Floating::Input
    } else if state.open_project_popup.is_some() {
        Floating::OpenProject
    } else if state.edit_popup.is_some() {
        Floating::Edit
    } else if state.usage_popup.is_some() {
        Floating::Usage
    } else if state.launch_popup.is_some() {
        Floating::Launch
    } else if state.palette_popup.is_some() {
        Floating::Palette
    } else {
        Floating::Nothing
    }
}

/// True when exactly one chord — `<Space>` — is pending. Used to gate the
/// which-key popup so it only appears for the Space leader (not for `g` or
/// `<C-w>`).
pub fn pending_chord_is_space(state: &AppState) -> (r: bool)
    ensures
        r == (state@.pending_chord.len() == 1 && state@.pending_chord[0].code == KeyCode::Char(
            ' ',
        )),
{
    if state.pending_chord.len() != 1 {
        return false;
    }
    let chords = state.pending_chord.chords();
    chords[0].code == KeyCode::Char(' ')
}

/// The bare space bar.
pub open spec fn space_chord() -> Chord {
    Chord { mods: no_mods(), code: KeyCode::Char(' ') }
}

/// What may follow the space bar, of the first `n` bindings that start with it:
/// the keys behind it and what they do.
pub open spec fn hints_in(t: Table, n: nat) -> Seq<(Seq<char>, Seq<char>)>
    decreases n,
{
    if n == 0 {
        seq![]
    } else {
        let (b, a) = t[n - 1];
        let before = hints_in(t, (n - 1) as nat);
        if b.len() < 2 {
            before
        } else {
            before.push((written(b.skip(1)), a.meaning()))
        }
    }
}

/// What may follow the space bar.
pub open spec fn leader_hints_of(m: AppModel) -> Seq<(Seq<char>, Seq<char>)> {
    let t = under(m.keys_normal, space_chord());
    hints_in(t, t.len())
}

/// The keys and their meanings in a list.
pub open spec fn hint_models(v: Seq<(String, &'static str)>) -> Seq<(Seq<char>, Seq<char>)> {
    Seq::new(v.len(), |i: int| (v[i].0@, v[i].1@))
}

/// What may follow the space bar, from the live keymap: every Normal binding
/// that starts with `<Space>`, without it.
pub fn leader_hints(state: &AppState) -> (r: Vec<(String, &'static str)>)
    ensures
        hint_models(r@) == leader_hints_of(state@),
{
    let space = Chord { mods: KeyModifiers::none(), code: KeyCode::Char(' ') };
    let all = state.keymap.bindings_starting_with(Scope::Normal, &space);
    let ghost t = under(state@.keys_normal, space_chord());
    let mut out: Vec<(String, &'static str)> = Vec::new();
    let mut i: usize = 0;
    assert(hint_models(out@) =~= seq![]);
    while i < all.len()
        invariant
            i <= all.len(),
            crate::keybinds::table_of(all@) == t,
            hint_models(out@) == hints_in(t, i as nat),
        decreases all.len() - i,
    {
        let ghost before = out@;
        let keys = &all[i].0.0;
        assert(t[i as int] == (all@[i as int].0@, all@[i as int].1));
        if keys.len() >= 2 {
            let mut tail: Vec<Chord> = Vec::new();
            let mut k: usize = 1;
            while k < keys.len()
                invariant
                    1 <= k <= keys.len(),
                    tail@ == keys@.subrange(1, k as int),
                decreases keys.len() - k,
            {
                tail.push(keys[k]);
                assert(tail@ =~= keys@.subrange(1, k + 1));
                k += 1;
            }
            assert(tail@ =~= keys@.skip(1));
            let shown = format_binding(&Binding(tail));
            out.push((shown, all[i].1.description()));
            assert(hint_models(out@) =~= hint_models(before).push(
                (written(keys@.skip(1)), all@[i as int].1.meaning()),
            ));
        }
        i += 1;
    }
    out
}

// ---------------------------------------------------------------------------
// The sidebar
// ---------------------------------------------------------------------------

/// A row of the sidebar: a colored bar in front of a worktree, and a text.
#[derive(Debug)]
pub struct SidebarLine {
    pub bar: Option<Color>,
    pub text: String,
    pub style: TextStyle,
}

/// A row of the sidebar in the abstract.
pub struct SidebarModel {
    pub bar: Option<Color>,
    pub text: Seq<char>,
    pub style: TextStyle,
}

impl View for SidebarLine {
    type V = SidebarModel;

    open spec fn view(&self) -> SidebarModel {
        SidebarModel { bar: self.bar, text: self.text@, style: self.style }
    }
}

/// The rows in a list.
pub open spec fn sidebar_models(v: Seq<SidebarLine>) -> Seq<SidebarModel> {
    Seq::new(v.len(), |i: int| v[i]@)
}

/// What a project's row says: whether it is unfolded, its name, and the remote
/// supervisor that it is on, with a `✗` where that is not connected.
pub open spec fn header_text(m: AppModel, p: ProjectModel) -> Seq<char> {
    let up = m.supervisors.connected.contains(p.supervisor);
    (if p.expanded {
        "▼ "@
    } else {
        "▶ "@
    }) + p.name + (match m.supervisors.config_name(p.supervisor) {
        Some(sup) => "  ["@ + sup + (if up {
            "]"@
        } else {
            " ✗]"@
        }),
        None => ""@,
    })
}

/// A project's row. One on a remote that is not connected is dim.
pub open spec fn header_line(m: AppModel, i: int, max: nat) -> SidebarModel {
    let p = m.projects[i];
    let up = m.supervisors.connected.contains(p.supervisor);
    SidebarModel {
        bar: None,
        text: cut_to_chars(header_text(m, p), max),
        style: row_style_of(
            m.theme,
            m.sidebar_selection == Some((i as usize, None::<usize>)),
            m.ui_focus is Sidebar,
            true,
            !up && p.supervisor != crate::app::local_id(),
        ),
    }
}

/// The PR status of a worktree.
pub open spec fn status_of(m: AppModel, p: usize, w: usize) -> Option<crate::app::PrStatus> {
    if m.pr_statuses.contains_key((p, w)) {
        Some(m.pr_statuses[(p, w)])
    } else {
        None
    }
}

/// A worktree's row: a bar in the color of its PR status, a dot that is filled
/// for the active worktree, and its name.
pub open spec fn worktree_row(m: AppModel, i: int, j: int, max: nat) -> SidebarModel {
    let wt = m.projects[i].worktrees[j];
    SidebarModel {
        bar: Some(shade(m.theme, status_of(m, i as usize, j as usize))),
        text: cut_to_chars(
            (if m.active_worktree == Some((i as usize, j as usize)) {
                "● "@
            } else {
                "○ "@
            }) + wt.name,
            if max >= 2 {
                (max - 2) as nat
            } else {
                0
            },
        ),
        style: row_style_of(
            m.theme,
            m.sidebar_selection == Some((i as usize, Some(j as usize))),
            m.ui_focus is Sidebar,
            false,
            false,
        ),
    }
}

/// The rows of a project.
pub open spec fn project_lines(m: AppModel, i: int, max: nat) -> Seq<SidebarModel> {
    seq![header_line(m, i, max)] + (if m.projects[i].expanded {
        Seq::new(m.projects[i].worktrees.len(), |j: int| worktree_row(m, i, j, max))
    } else {
        seq![]
    })
}

/// The rows of the first `n` projects.
pub open spec fn sidebar_rows(m: AppModel, n: nat, max: nat) -> Seq<SidebarModel>
    decreases n,
{
    if n == 0 {
        seq![]
    } else {
        sidebar_rows(m, (n - 1) as nat, max) + project_lines(m, n - 1, max)
    }
}

fn project_header(state: &AppState, i: usize, max_w: usize) -> (r: SidebarLine)
    requires
        i < state@.projects.len(),
    ensures
        r@ == header_line(state@, i as int, max_w as nat),
{
    let p = &state.projects[i];
    assert(state@.projects[i as int] == p@);
    let up = state.supervisors.is_connected(p.supervisor);
    let mut s = text::concat2(
        if p.expanded {
            "▼ "
        } else {
            "▶ "
        },
        p.name.as_str(),
    );
    match state.supervisors.config_name(p.supervisor) {
        Some(sup) => {
            let tail = if up {
                "]"
            } else {
                " ✗]"
            };
            s.push_str(text::concat3("  [", sup.as_str(), tail).as_str());
        },
        None => s.push_str(""),
    }
    assert(s@ =~= header_text(state@, p@));
    let selected = match state.sidebar_selection {
        Some((a, None)) => a == i,
        _ => false,
    };
    SidebarLine {
        bar: None,
        text: truncate_to_width(s.as_str(), max_w),
        style: row_style(
            &state.theme,
            selected,
            state.ui_focus == UiFocus::Sidebar,
            true,
            !up && p.supervisor != local(),
        ),
    }
}

/// Sidebar row for a single worktree. A leading colored bar reflects the GitHub
/// PR status (dim when no PR / integration disabled), then the usual `● name` /
/// `○ name` content. The bar keeps its color regardless of selection.
fn worktree_line(state: &AppState, i: usize, j: usize, max_w: usize) -> (r: SidebarLine)
    requires
        state@.worktree(i, j) is Some,
    ensures
        r@ == worktree_row(state@, i as int, j as int, max_w as nat),
{
    let wt = &state.projects[i].worktrees[j];
    let ghost model = state@.projects[i as int];
    assert(model == state.projects@[i as int]@);
    assert(model.worktrees[j as int] == wt@);
    let active = match state.active_worktree {
        Some((a, b)) => a == i && b == j,
        None => false,
    };
    let selected = match state.sidebar_selection {
        Some((a, Some(b))) => a == i && b == j,
        _ => false,
    };
    let s = text::concat2(
        if active {
            "● "
        } else {
            "○ "
        },
        wt.name.as_str(),
    );
    let room: usize = if max_w >= 2 {
        max_w - 2
    } else {
        0
    };
    SidebarLine {
        bar: Some(status_color(&state.theme, state.pr_statuses.get(&(i, j)))),
        text: truncate_to_width(s.as_str(), room),
        style: row_style(
            &state.theme,
            selected,
            state.ui_focus == UiFocus::Sidebar,
            false,
            false,
        ),
    }
}

fn push_project(state: &AppState, i: usize, max_w: usize, out: &mut Vec<SidebarLine>)
    requires
        i < state@.projects.len(),
    ensures
        sidebar_models(final(out)@) == sidebar_models(old(out)@) + project_lines(
            state@,
            i as int,
            max_w as nat,
        ),
{
    let ghost start = sidebar_models(out@);
    let ghost head = header_line(state@, i as int, max_w as nat);
    out.push(project_header(state, i, max_w));
    assert(sidebar_models(out@) =~= start + seq![head]);
    let p = &state.projects[i];
    assert(state@.projects[i as int] == p@);
    if p.expanded {
        let ghost rows = Seq::new(
            p@.worktrees.len(),
            |j: int| worktree_row(state@, i as int, j, max_w as nat),
        );
        let mut j: usize = 0;
        assert(sidebar_models(out@) =~= start + seq![head] + rows.take(0));
        while j < p.worktrees.len()
            invariant
                j <= p.worktrees.len(),
                i < state@.projects.len(),
                state@.projects[i as int] == p@,
                p == &state.projects@[i as int],
                rows == Seq::new(
                    p@.worktrees.len(),
                    |j: int| worktree_row(state@, i as int, j, max_w as nat),
                ),
                sidebar_models(out@) == start + seq![head] + rows.take(j as int),
            decreases p.worktrees.len() - j,
        {
            let ghost before = out@;
            out.push(worktree_line(state, i, j, max_w));
            assert(sidebar_models(out@) =~= sidebar_models(before).push(rows[j as int]));
            assert(start + seq![head] + rows.take(j + 1) =~= (start + seq![head] + rows.take(
                j as int,
            )).push(rows[j as int]));
            j += 1;
        }
        assert(rows.take(rows.len() as int) =~= rows);
    }
    assert(sidebar_models(out@) =~= start + project_lines(state@, i as int, max_w as nat));
}

/// The rows of the sidebar.
pub fn sidebar_lines(state: &AppState, max_w: usize) -> (r: Vec<SidebarLine>)
    ensures
        sidebar_models(r@) == sidebar_rows(state@, state@.projects.len(), max_w as nat),
{
    let mut out: Vec<SidebarLine> = Vec::new();
    let mut i: usize = 0;
    assert(sidebar_models(out@) =~= seq![]);
    while i < state.projects.len()
        invariant
            i <= state.projects.len(),
            sidebar_models(out@) == sidebar_rows(state@, i as nat, max_w as nat),
        decreases state.projects.len() - i,
    {
        push_project(state, i, max_w, &mut out);
        i += 1;
    }
    out
}

/// The sidebar draws one row for each row that the cursor can be on.
pub proof fn law_rows_are_drawn_one_for_one(m: AppModel, n: nat, max: nat)
    requires
        n <= m.projects.len(),
    ensures
        sidebar_rows(m, n, max).len() == crate::sidebar::visible_rows(
            m.projects.take(n as int),
        ).len(),
    decreases n,
{
    if n > 0 {
        law_rows_are_drawn_one_for_one(m, (n - 1) as nat, max);
        assert(m.projects.take(n as int).drop_last() =~= m.projects.take(n - 1));
        assert(m.projects.take(n as int).last() == m.projects[n - 1]);
    }
}

// ---------------------------------------------------------------------------
// The tab bar and the terminal
// ---------------------------------------------------------------------------

/// The tabs of the active worktree.
pub open spec fn tabs_shown(m: AppModel) -> Seq<(Seq<char>, bool)> {
    match m.active_worktree {
        Some((p, w)) => match m.worktree(p, w) {
            Some(wt) => Seq::new(
                wt.sessions.len(),
                |i: int|
                    (
                        " "@ + text::decimal((i + 1) as nat) + " "@,
                        wt.active_tab == Some(i as usize),
                    ),
            ),
            None => seq![],
        },
        None => seq![],
    }
}

/// The labels in a list.
pub open spec fn label_models(v: Seq<(String, bool)>) -> Seq<(Seq<char>, bool)> {
    Seq::new(v.len(), |i: int| (v[i].0@, v[i].1))
}

/// The tabs of the active worktree, each with whether it is in front.
pub fn tab_labels(state: &AppState) -> (r: Vec<(String, bool)>)
    ensures
        label_models(r@) == tabs_shown(state@),
{
    let ghost want = tabs_shown(state@);
    let mut out: Vec<(String, bool)> = Vec::new();
    assert(label_models(out@) =~= seq![]);
    let (p, w) = match state.active_worktree {
        Some(at) => at,
        None => return out,
    };
    if !mutate::has_worktree(state, p, w) {
        return out;
    }
    let wt = &state.projects[p].worktrees[w];
    assert(state@.worktree(p, w) == Some(wt@));
    let mut i: usize = 0;
    while i < wt.sessions.len()
        invariant
            i <= wt.sessions.len(),
            want.len() == wt.sessions@.len(),
            forall|k: int|
                0 <= k < want.len() ==> #[trigger] want[k] == (
                    " "@ + text::decimal((k + 1) as nat) + " "@,
                    wt.active_tab == Some(k as usize),
                ),
            label_models(out@) =~= want.take(i as int),
        decreases wt.sessions.len() - i,
    {
        let ghost before = out@;
        let front = match wt.active_tab {
            Some(t) => t == i,
            None => false,
        };
        let label = text::concat3(" ", text::to_decimal(i as u64 + 1).as_str(), " ");
        out.push((label, front));
        assert(label_models(out@) =~= label_models(before).push(want[i as int]));
        assert(want.take(i + 1) =~= want.take(i as int).push(want[i as int]));
        i += 1;
    }
    assert(want.take(want.len() as int) =~= want);
    out
}

/// What the terminal pane shows.
#[derive(Debug)]
pub enum Pane {
    /// A session's screen.
    Session(SessionId),
    /// Lines in the middle.
    Lines(Vec<&'static str>),
    Empty,
}

/// What the terminal pane shows, in the abstract.
pub enum PaneModel {
    Session(SessionId),
    Lines(Seq<Seq<char>>),
    Empty,
}

/// The texts in a list.
pub open spec fn str_views(v: Seq<&'static str>) -> Seq<Seq<char>> {
    Seq::new(v.len(), |i: int| v[i]@)
}

impl View for Pane {
    type V = PaneModel;

    open spec fn view(&self) -> PaneModel {
        match *self {
            Pane::Session(id) => PaneModel::Session(id),
            Pane::Lines(v) => PaneModel::Lines(str_views(v@)),
            Pane::Empty => PaneModel::Empty,
        }
    }
}

/// What the terminal pane shows: the session in front, or what to do next.
pub open spec fn pane_of(m: AppModel) -> PaneModel {
    match (m.active_worktree, m.focused_session()) {
        (Some(_), Some(id)) => if m.sessions.contains(id) {
            PaneModel::Session(id)
        } else {
            PaneModel::Empty
        },
        (Some(_), None) => PaneModel::Lines(
            seq!["No terminal open — press 'o' or :tabnew to open one."@],
        ),
        (None, _) => if m.projects.len() == 0 {
            PaneModel::Lines(
                seq![
                    "No projects yet."@,
                    ""@,
                    "Press O or run :open <path> to add one."@,
                    "Type :help to see all commands."@,
                ],
            )
        } else {
            PaneModel::Lines(
                seq!["No worktree selected — press Enter on a worktree in the sidebar."@],
            )
        },
    }
}

/// What the terminal pane shows.
pub fn pane(state: &AppState) -> (r: Pane)
    ensures
        r@ == pane_of(state@),
{
    let focused = state.focused_session_id();
    let mut lines: Vec<&'static str> = Vec::new();
    if state.active_worktree.is_some() {
        if let Some(id) = focused {
            if state.sessions.contains(&id) {
                return Pane::Session(id);
            }
            return Pane::Empty;
        }
        lines.push("No terminal open — press 'o' or :tabnew to open one.");
    } else if state.projects.len() == 0 {
        lines.push("No projects yet.");
        lines.push("");
        lines.push("Press O or run :open <path> to add one.");
        lines.push("Type :help to see all commands.");
    } else {
        lines.push("No worktree selected — press Enter on a worktree in the sidebar.");
    }
    assert(str_views(lines@) =~= pane_of(state@)->Lines_0);
    Pane::Lines(lines)
}

// ---------------------------------------------------------------------------
// The action bar
// ---------------------------------------------------------------------------

/// What the middle of the action bar says: which worktree is active, and how
/// large its terminal is.
pub open spec fn middle_of(m: AppModel, regions: ChromeRects) -> Seq<char> {
    match m.active_worktree {
        Some((p, w)) => match m.worktree(p, w) {
            Some(wt) => m.projects[p as int].name + " · "@ + wt.name + " · "@ + text::decimal(
                regions.terminal.height as nat,
            ) + "×"@ + text::decimal(regions.terminal.width as nat),
            None => ""@,
        },
        None => if m.projects.len() == 0 {
            "no projects — :open <path> or press O"@
        } else {
            "no worktree"@
        },
    }
}

/// What the middle of the action bar says.
pub fn action_bar_middle(state: &AppState, regions: &ChromeRects) -> (r: String)
    ensures
        r@ == middle_of(state@, *regions),
{
    match state.active_worktree {
        Some((p, w)) => {
            if !mutate::has_worktree(state, p, w) {
                return text::owned("");
            }
            let project = &state.projects[p];
            assert(state@.projects[p as int] == project@);
            let wt = &project.worktrees[w];
            assert(state@.worktree(p, w) == Some(wt@));
            let mut s = text::concat3(project.name.as_str(), " · ", wt.name.as_str());
            s.push_str(" · ");
            s.push_str(text::to_decimal(regions.terminal.height as u64).as_str());
            s.push_str("×");
            s.push_str(text::to_decimal(regions.terminal.width as u64).as_str());
            s
        },
        None => {
            if state.projects.len() == 0 {
                text::owned("no projects — :open <path> or press O")
            } else {
                text::owned("no worktree")
            }
        },
    }
}

/// What the action bar says behind the middle.
#[derive(Debug)]
pub enum Notice {
    Nothing,
    /// A question to be answered.
    Confirm(String),
    /// Something under way.
    Busy(String),
    /// The outcome of the last command.
    Status(String),
    /// A newer release.
    Banner(String),
}

/// A notice in the abstract.
pub enum NoticeModel {
    Nothing,
    Confirm(Seq<char>),
    Busy(Seq<char>),
    Status(Seq<char>),
    Banner(Seq<char>),
}

impl View for Notice {
    type V = NoticeModel;

    open spec fn view(&self) -> NoticeModel {
        match *self {
            Notice::Nothing => NoticeModel::Nothing,
            Notice::Confirm(s) => NoticeModel::Confirm(s@),
            Notice::Busy(s) => NoticeModel::Busy(s@),
            Notice::Status(s) => NoticeModel::Status(s@),
            Notice::Banner(s) => NoticeModel::Banner(s@),
        }
    }
}

/// The question that waits for an answer.
pub open spec fn prompt_of(m: AppModel) -> Option<Seq<char>> {
    match m.pending_confirm {
        Some(crate::app::ConfirmModel::RemoveWorktree { name, .. }) => Some(
            "delete worktree '"@ + name + "'? [y/N]"@,
        ),
        None => None,
    }
}

/// What is said of updates: that one is being installed, or that one is there.
pub open spec fn banner_of(m: AppModel) -> Option<Seq<char>> {
    match m.update_status {
        UpdateStatus::Installing => Some("updating…"@),
        UpdateStatus::Checking => None,
        _ => match m.available_update {
            Some(info) => Some(info.latest_tag@ + " available · :update to install"@),
            None => None,
        },
    }
}

/// The notice in the action bar: a question comes first, then what is under way,
/// then the last outcome; updates are mentioned only where nothing else is.
pub open spec fn notice_of(m: AppModel) -> NoticeModel {
    match prompt_of(m) {
        Some(s) => NoticeModel::Confirm(s),
        None => match m.pending_op {
            Some(s) => NoticeModel::Busy(s),
            None => match m.command_status {
                Some(s) => NoticeModel::Status(s),
                None => match banner_of(m) {
                    Some(s) => NoticeModel::Banner(s),
                    None => NoticeModel::Nothing,
                },
            },
        },
    }
}

/// The question that waits for an answer.
pub fn confirm_prompt_text(state: &AppState) -> (r: Option<String>)
    ensures
        text::opt_text(r) == prompt_of(state@),
{
    match &state.pending_confirm {
        Some(PendingConfirm::RemoveWorktree { name, .. }) => Some(
            text::concat3("delete worktree '", name.as_str(), "'? [y/N]"),
        ),
        None => None,
    }
}

/// What is said of updates.
pub fn update_banner_text(state: &AppState) -> (r: Option<String>)
    ensures
        text::opt_text(r) == banner_of(state@),
{
    match state.update_status {
        UpdateStatus::Installing => Some(text::owned("updating…")),
        UpdateStatus::Checking => None,
        _ => match &state.available_update {
            Some(info) => Some(
                text::concat2(info.latest_tag.as_str(), " available · :update to install"),
            ),
            None => None,
        },
    }
}

/// The notice in the action bar.
pub fn notice(state: &AppState) -> (r: Notice)
    ensures
        r@ == notice_of(state@),
{
    if let Some(s) = confirm_prompt_text(state) {
        return Notice::Confirm(s);
    }
    if let Some(s) = &state.pending_op {
        return Notice::Busy(s.clone());
    }
    if let Some(s) = &state.command_status {
        return Notice::Status(s.clone());
    }
    match update_banner_text(state) {
        Some(s) => Notice::Banner(s),
        None => Notice::Nothing,
    }
}

/// What the action bar calls the mode; in Command mode it shows the line
/// instead.
pub fn mode_label(mode: Mode) -> (r: Option<&'static str>)
    ensures
        match mode {
            Mode::Normal => r matches Some(s) && s@ == " -- NORMAL -- "@,
            Mode::Terminal => r matches Some(s) && s@ == " -- TERMINAL -- "@,
            Mode::Command => r is None,
        },
{
    match mode {
        Mode::Normal => Some(" -- NORMAL -- "),
        Mode::Terminal => Some(" -- TERMINAL -- "),
        Mode::Command => None,
    }
}

/// The column of the cursor behind the command line, inside the action bar.
pub fn command_cursor(area: Rect, command: &str) -> (r: u16)
    requires
        crate::drawing::countable(area),
    ensures
        r == area.x + crate::drawing::least(
            command@.len() as int + 1,
            crate::drawing::less(area.width as int, 1),
        ),
{
    let n: usize = text::chars_of(command).len();
    let right: u16 = crate::drawing::less_u16(area.width, 1);
    if n < right as usize {
        area.x + (n as u16 + 1)
    } else {
        area.x + right
    }
}

} // verus!
