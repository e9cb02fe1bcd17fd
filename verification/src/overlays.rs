//! The popups that float over the screen: where they lie and what they say.

use crate::app::{
    CommandCompletion, CompletionModel, InputModel, InputPopup, LaunchEntryModel,
    LaunchModel, LaunchPopup, LaunchSource, OpenModel, OpenProjectFocus, OpenProjectPopup,
    PaletteModel, PalettePopup, SupervisorDirectory, UsagePopup,
};
use crate::drawing::{
    byte_len, bytes_of, centered, centered_rect, countable, cut_to_columns, filled, held, held_u16,
    least, less, less_u16, min_u16, pad_right, spaces, truncate,
};
use crate::ipc::{rss_of, UsageReport};
use crate::layout::Rect;
use crate::render::hint_models;
use crate::text;
use crate::usage::{row_models, RowModel, UsageRow};
use vstd::prelude::*;

verus! {

/// `n` held between `low` and `high`.
fn held_len(n: usize, low: u16, high: u16) -> (r: u16)
    ensures
        r == held(n as int, low as int, high as int),
{
    if n < low as usize {
        low
    } else if n > high as usize {
        high
    } else {
        n as u16
    }
}

/// One more than `n`, so many times, as far as a `usize` goes.
fn plus(n: usize, more: usize) -> (r: usize)
    ensures
        r == least(n + more, usize::MAX as int),
{
    if n <= usize::MAX - more {
        n + more
    } else {
        usize::MAX
    }
}

// ---------------------------------------------------------------------------
// What may follow the leader
// ---------------------------------------------------------------------------

/// The columns that the widest of the first `n` hints needs.
pub open spec fn widest_hint(hints: Seq<(Seq<char>, Seq<char>)>, n: nat) -> int
    decreases n,
{
    if n == 0 {
        0
    } else {
        let before = widest_hint(hints, (n - 1) as nat);
        let here = hints[n - 1].0.len() as int + 3 + hints[n - 1].1.len();
        if here > before {
            here
        } else {
            before
        }
    }
}

/// Where the hints lie: at the bottom right, so that they do not cover the
/// terminal; nowhere without hints.
pub open spec fn leader_place(area: Rect, hints: Seq<(Seq<char>, Seq<char>)>) -> Option<Rect> {
    if hints.len() == 0 {
        None
    } else {
        let w = least(widest_hint(hints, hints.len()) + 4, less(area.width as int, 2));
        let h = least(hints.len() as int + 3, less(area.height as int, 2));
        Some(
            Rect {
                x: (area.x + less(less(area.width as int, w), 1)) as u16,
                y: (area.y + less(less(area.height as int, h), 2)) as u16,
                width: w as u16,
                height: h as u16,
            },
        )
    }
}

/// Where the hints lie.
pub fn leader_rect(area: Rect, hints: &Vec<(String, &'static str)>) -> (r: Option<Rect>)
    requires
        countable(area),
    ensures
        r == leader_place(area, hint_models(hints@)),
{
    let ghost m = hint_models(hints@);
    if hints.len() == 0 {
        return None;
    }
    let room: u16 = less_u16(area.width, 2);
    let mut w: u16 = min_u16(4, room);
    let mut i: usize = 0;
    while i < hints.len()
        invariant
            i <= hints.len(),
            m == hint_models(hints@),
            w == least(widest_hint(m, i as nat) + 4, room as int),
        decreases hints.len() - i,
    {
        let keys: usize = text::chars_of(hints[i].0.as_str()).len();
        let what: usize = text::chars_of(hints[i].1).len();
        assert(m[i as int].0 == hints@[i as int].0@);
        assert(m[i as int].1 == hints@[i as int].1@);
        let need: usize = plus(plus(keys, what), 7);
        let here: u16 = if need < room as usize {
            need as u16
        } else {
            room
        };
        if here > w {
            w = here;
        }
        i += 1;
    }
    let h: u16 = held_len(plus(hints.len(), 3), 0, less_u16(area.height, 2));
    let x: u16 = area.x + less_u16(less_u16(area.width, w), 1);
    let y: u16 = area.y + less_u16(less_u16(area.height, h), 2);
    Some(Rect::new(x, y, w, h))
}

// ---------------------------------------------------------------------------
// The launcher picker
// ---------------------------------------------------------------------------

/// The bytes of the longest of the first `n` labels.
pub open spec fn widest_label(entries: Seq<LaunchEntryModel>, n: nat) -> usize
    decreases n,
{
    if n == 0 {
        0
    } else {
        let before = widest_label(entries, (n - 1) as nat);
        let here = byte_len(entries[n - 1].label);
        if here > before {
            here
        } else {
            before
        }
    }
}

/// Where the launcher picker lies.
pub open spec fn launch_place(area: Rect, entries: Seq<LaunchEntryModel>) -> Rect {
    let label = if entries.len() == 0 {
        20
    } else {
        widest_label(entries, entries.len())
    };
    centered(
        least(held(label + 8, 28, 80), less(area.width as int, 4)) as u16,
        least(held(entries.len() as int + 4, 6, 24), less(area.height as int, 4)) as u16,
        area,
    )
}

/// Where the launcher picker lies.
pub fn launch_rect(area: Rect, popup: &LaunchPopup) -> (r: Rect)
    requires
        countable(area),
    ensures
        r == launch_place(area, popup@.entries),
{
    let n: usize = popup.entries.len();
    let mut label: usize = if n == 0 {
        20
    } else {
        0
    };
    let mut i: usize = 0;
    while i < n
        invariant
            i <= n == popup.entries.len(),
            n > 0 ==> label == widest_label(popup@.entries, i as nat),
            n == 0 ==> label == 20,
        decreases n - i,
    {
        let here: usize = bytes_of(popup.entries[i].label.as_str());
        assert(popup@.entries[i as int].label == popup.entries@[i as int].label@);
        if here > label {
            label = here;
        }
        i += 1;
    }
    let w: u16 = min_u16(held_len(plus(label, 8), 28, 80), less_u16(area.width, 4));
    let h: u16 = min_u16(held_len(plus(n, 4), 6, 24), less_u16(area.height, 4));
    centered_rect(w, h, area)
}

/// A row of the launcher picker.
#[derive(Debug)]
pub struct LaunchRow {
    pub head: String,
    pub detail: String,
    pub tag: &'static str,
    pub selected: bool,
}

/// A row of a list: its head, what stands behind it, and whether the cursor is
/// on it.
pub struct ListRowModel {
    pub head: Seq<char>,
    pub detail: Seq<char>,
    pub tag: Seq<char>,
    pub selected: bool,
}

impl View for LaunchRow {
    type V = ListRowModel;

    open spec fn view(&self) -> ListRowModel {
        ListRowModel {
            head: self.head@,
            detail: self.detail@,
            tag: self.tag@,
            selected: self.selected,
        }
    }
}

/// The rows in a list.
pub open spec fn launch_row_models(v: Seq<LaunchRow>) -> Seq<ListRowModel> {
    Seq::new(v.len(), |i: int| v[i]@)
}

/// What stands in front of a row.
pub open spec fn pointer(selected: bool) -> Seq<char> {
    if selected {
        "▸ "@
    } else {
        "  "@
    }
}

fn pointer_text(selected: bool) -> (r: &'static str)
    ensures
        r@ == pointer(selected),
{
    if selected {
        "▸ "
    } else {
        "  "
    }
}

/// A row of the launcher picker: the label, the command or that it is a plain
/// shell, and where the launcher was defined.
pub open spec fn launch_row(p: LaunchModel, i: int) -> ListRowModel {
    let e = p.entries[i];
    let selected = i == p.cursor;
    ListRowModel {
        head: pointer(selected) + e.label,
        detail: match e.command {
            Some(c) => "  "@ + cut_to_columns(c, 44),
            None => "  (plain shell)"@,
        },
        tag: match e.source {
            LaunchSource::Builtin => ""@,
            LaunchSource::Project => "  [project]"@,
            LaunchSource::Global => "  [global]"@,
        },
        selected,
    }
}

fn launch_row_at(popup: &LaunchPopup, i: usize) -> (r: LaunchRow)
    requires
        i < popup@.entries.len(),
    ensures
        r@ == launch_row(popup@, i as int),
{
    let e = &popup.entries[i];
    assert(popup@.entries[i as int] == e@);
    let selected = i == popup.cursor as usize;
    LaunchRow {
        head: text::concat2(pointer_text(selected), e.label.as_str()),
        detail: match &e.command {
            Some(c) => text::concat2("  ", truncate(c.as_str(), 44).as_str()),
            None => text::owned("  (plain shell)"),
        },
        tag: match e.source {
            LaunchSource::Builtin => "",
            LaunchSource::Project => "  [project]",
            LaunchSource::Global => "  [global]",
        },
        selected,
    }
}

/// The rows of the launcher picker.
pub fn launch_rows(popup: &LaunchPopup) -> (r: Vec<LaunchRow>)
    ensures
        launch_row_models(r@) == Seq::new(
            popup@.entries.len(),
            |i: int| launch_row(popup@, i),
        ),
{
    let mut out: Vec<LaunchRow> = Vec::new();
    let mut i: usize = 0;
    while i < popup.entries.len()
        invariant
            i == out.len(),
            i <= popup.entries.len(),
            forall|k: int| 0 <= k < i ==> #[trigger] out@[k]@ == launch_row(popup@, k),
        decreases popup.entries.len() - i,
    {
        out.push(launch_row_at(popup, i));
        i += 1;
    }
    assert(launch_row_models(out@) =~= Seq::new(
        popup@.entries.len(),
        |i: int| launch_row(popup@, i),
    ));
    out
}

// ---------------------------------------------------------------------------
// The command palette
// ---------------------------------------------------------------------------

/// Where the palette lies. Its top edge is fixed, a sixth down the screen, so
/// that the query does not jump while typing narrows the list.
pub open spec fn palette_place(area: Rect, matches: nat) -> Rect {
    let w = least(72, less(area.width as int, 4));
    let down = area.height as int / 6;
    Rect {
        x: (area.x + less(area.width as int, w) / 2) as u16,
        y: (area.y + down) as u16,
        width: w as u16,
        height: least(held(matches as int + 5, 7, 24), less(area.height as int, down + 2)) as u16,
    }
}

/// Where the palette lies.
pub fn palette_rect(area: Rect, popup: &PalettePopup) -> (r: Rect)
    requires
        countable(area),
    ensures
        r == palette_place(area, popup@.filtered.len()),
{
    let w: u16 = min_u16(72, less_u16(area.width, 4));
    let down: u16 = area.height / 6;
    let h: u16 = min_u16(
        held_len(plus(popup.filtered.len(), 5), 7, 24),
        less_u16(area.height, down + 2),
    );
    Rect::new(area.x + less_u16(area.width, w) / 2, area.y + down, w, h)
}

/// The top edge of the palette does not depend on how many entries match.
pub proof fn law_the_query_does_not_jump(area: Rect, a: nat, b: nat)
    ensures
        palette_place(area, a).y == palette_place(area, b).y,
        palette_place(area, a).x == palette_place(area, b).x,
{
}

/// The first row of a list that shows when so many rows are visible: as few are
/// left out as keep the cursor in view.
pub open spec fn first_shown(cursor: u16, visible: u16) -> int {
    less(cursor + 1, visible as int)
}

/// The cursor's row shows.
pub proof fn law_the_cursor_stays_in_view(cursor: u16, visible: u16)
    requires
        visible > 0,
    ensures
        first_shown(cursor, visible) <= cursor < first_shown(cursor, visible) + visible,
{
}

/// A row of the palette.
#[derive(Debug)]
pub struct PaletteRow {
    pub head: String,
    pub detail: String,
    pub keybind: String,
    pub selected: bool,
}

impl View for PaletteRow {
    type V = ListRowModel;

    open spec fn view(&self) -> ListRowModel {
        ListRowModel {
            head: self.head@,
            detail: self.detail@,
            tag: self.keybind@,
            selected: self.selected,
        }
    }
}

/// The rows in a list.
pub open spec fn palette_row_models(v: Seq<PaletteRow>) -> Seq<ListRowModel> {
    Seq::new(v.len(), |i: int| v[i]@)
}

/// The keys of an entry, behind two spaces.
pub open spec fn key_text(keybind: Option<Seq<char>>) -> Seq<char> {
    match keybind {
        Some(b) => "  "@ + b,
        None => seq![],
    }
}

/// The columns that are left for a description in a palette of that width.
pub open spec fn description_room(width: u16, keys: Seq<char>) -> int {
    let room = less(width as int, 23 + byte_len(keys));
    if room < 8 {
        8
    } else {
        room
    }
}

/// A row of the palette: the name, as much of the description as there is room
/// for, and the keys.
pub open spec fn palette_row(p: PaletteModel, width: u16, i: int) -> ListRowModel {
    let e = p.entries[p.filtered[i] as int];
    let selected = i == p.cursor;
    let keys = key_text(e.keybind);
    ListRowModel {
        head: pointer(selected) + filled(e.name, 18),
        detail: " "@ + cut_to_columns(e.description, description_room(width, keys) as nat),
        tag: keys,
        selected,
    }
}

/// The rows of the palette that show.
pub open spec fn palette_rows_of(p: PaletteModel, width: u16, visible: u16) -> Seq<ListRowModel> {
    let first = first_shown(p.cursor, visible);
    Seq::new(
        least(visible as int, less(p.filtered.len() as int, first)) as nat,
        |k: int| palette_row(p, width, first + k),
    )
}

fn palette_row_at(popup: &PalettePopup, width: u16, i: usize) -> (r: PaletteRow)
    requires
        i < popup@.filtered.len(),
        popup@.filtered[i as int] < popup@.entries.len(),
    ensures
        r@ == palette_row(popup@, width, i as int),
{
    let e = &popup.entries[popup.filtered[i]];
    assert(popup@.entries[popup@.filtered[i as int] as int] == e@);
    let selected = i == popup.cursor as usize;
    let keybind = match &e.keybind {
        Some(b) => text::concat2("  ", b.as_str()),
        None => String::new(),
    };
    assert(keybind@ =~= key_text(e@.keybind));
    let used: usize = plus(bytes_of(keybind.as_str()), 23);
    let room: usize = if used < width as usize && width as usize - used >= 8 {
        width as usize - used
    } else {
        8
    };
    assert(room == description_room(width, keybind@));
    PaletteRow {
        head: text::concat2(pointer_text(selected), pad_right(e.name, 18).as_str()),
        detail: text::concat2(" ", truncate(e.description, room).as_str()),
        keybind,
        selected,
    }
}

/// The rows of the palette that show where so many can be seen.
pub fn palette_rows(popup: &PalettePopup, width: u16, visible: u16) -> (r: Vec<PaletteRow>)
    requires
        forall|k: int|
            0 <= k < popup@.filtered.len() ==> #[trigger] popup@.filtered[k] < popup@.entries.len(),
    ensures
        palette_row_models(r@) == palette_rows_of(popup@, width, visible),
{
    let cursor: usize = popup.cursor as usize + 1;
    let first: usize = if cursor >= visible as usize {
        cursor - visible as usize
    } else {
        0
    };
    assert(first == first_shown(popup.cursor, visible));
    let n: usize = popup.filtered.len();
    let mut out: Vec<PaletteRow> = Vec::new();
    let mut k: usize = 0;
    while k < visible as usize && first < n && k < n - first
        invariant
            k == out.len(),
            k <= visible,
            k > 0 ==> first + k <= n,
            first == first_shown(popup.cursor, visible),
            n == popup.filtered.len(),
            forall|k: int|
                0 <= k < popup@.filtered.len() ==> #[trigger] popup@.filtered[k]
                    < popup@.entries.len(),
            forall|j: int|
                0 <= j < k ==> #[trigger] out@[j]@ == palette_row(popup@, width, first + j),
        decreases visible - k,
    {
        assert(popup@.filtered[first + k] < popup@.entries.len());
        out.push(palette_row_at(popup, width, first + k));
        k += 1;
    }
    assert(palette_row_models(out@) =~= palette_rows_of(popup@, width, visible));
    out
}

// ---------------------------------------------------------------------------
// Opening a project
// ---------------------------------------------------------------------------

/// Where the open-project popup lies.
pub open spec fn open_place(area: Rect) -> Rect {
    centered(
        least(70, less(area.width as int, 4)) as u16,
        least(16, less(area.height as int, 4)) as u16,
        area,
    )
}

/// Where the open-project popup lies.
pub fn open_rect(area: Rect) -> (r: Rect)
    requires
        countable(area),
    ensures
        r == open_place(area),
{
    centered_rect(
        min_u16(70, less_u16(area.width, 4)),
        min_u16(16, less_u16(area.height, 4)),
        area,
    )
}

/// The lines of the open-project popup that are no list.
#[derive(Debug)]
pub struct OpenTexts {
    pub supervisor: String,
    pub supervisor_hint: &'static str,
    pub dir: String,
    pub checkbox: &'static str,
}

/// The supervisor that a project will be opened on, the directory that is shown,
/// and whether worktrees are imported.
pub fn open_texts(popup: &OpenProjectPopup, supervisors: &SupervisorDirectory) -> (r: OpenTexts)
    ensures
        r.supervisor@ == supervisors@.name_of(popup@.supervisor),
        r.supervisor_hint@ == if popup@.focus is Supervisor {
            "  (←/→ change)"@
        } else {
            ""@
        },
        r.dir@ == match popup@.browser {
            Some(b) => b.dir,
            None => "(listing…)"@,
        },
        r.checkbox@ == if popup@.import_existing {
            " [x] "@
        } else {
            " [ ] "@
        },
{
    OpenTexts {
        supervisor: supervisors.name_of(popup.supervisor),
        supervisor_hint: if popup.focus == OpenProjectFocus::Supervisor {
            "  (←/→ change)"
        } else {
            ""
        },
        dir: match &popup.browser {
            Some(b) => b.dir.clone(),
            None => text::owned("(listing…)"),
        },
        checkbox: if popup.import_existing {
            " [x] "
        } else {
            " [ ] "
        },
    }
}

/// A row of the directory browser.
#[derive(Debug)]
pub struct BrowserRow {
    pub label: String,
    pub repo: bool,
    pub selected: bool,
}

/// A row of the directory browser in the abstract.
pub struct BrowserRowModel {
    pub label: Seq<char>,
    pub repo: bool,
    pub selected: bool,
}

impl View for BrowserRow {
    type V = BrowserRowModel;

    open spec fn view(&self) -> BrowserRowModel {
        BrowserRowModel { label: self.label@, repo: self.repo, selected: self.selected }
    }
}

/// The rows in a list.
pub open spec fn browser_row_models(v: Seq<BrowserRow>) -> Seq<BrowserRowModel> {
    Seq::new(v.len(), |i: int| v[i]@)
}

/// A directory's row: repositories are marked.
pub open spec fn browser_row(
    entries: Seq<(Seq<char>, bool)>,
    cursor: u16,
    focused: bool,
    i: int,
) -> BrowserRowModel {
    BrowserRowModel {
        label: (if entries[i].1 {
            "  ◆ "@
        } else {
            "    "@
        }) + entries[i].0 + "/"@,
        repo: entries[i].1,
        selected: focused && i == cursor,
    }
}

/// The row that leads to the parent directory.
pub open spec fn parent_row() -> BrowserRowModel {
    BrowserRowModel { label: "  ../"@, repo: false, selected: false }
}

/// The rows of the directory browser: the way up, and the directories from as
/// far down as keeps the cursor in view.
pub open spec fn browser_rows_of(p: OpenModel, height: u16) -> Seq<BrowserRowModel> {
    match p.browser {
        None => seq![],
        Some(b) => {
            let start = less(b.cursor as int, less(height as int, 2));
            (if b.parent is Some {
                seq![parent_row()]
            } else {
                seq![]
            }) + Seq::new(
                less(b.entries.len() as int, start) as nat,
                |k: int| browser_row(b.entries, b.cursor, p.focus is Path, start + k),
            )
        },
    }
}

/// The rows of the directory browser, in a view of that height.
pub fn browser_rows(popup: &OpenProjectPopup, height: u16) -> (r: Vec<BrowserRow>)
    ensures
        browser_row_models(r@) == browser_rows_of(popup@, height),
{
    let mut out: Vec<BrowserRow> = Vec::new();
    let b = match &popup.browser {
        Some(b) => b,
        None => {
            assert(browser_row_models(out@) =~= seq![]);
            return out;
        },
    };
    let ghost head: Seq<BrowserRowModel> = if b@.parent is Some {
        seq![parent_row()]
    } else {
        seq![]
    };
    if b.parent.is_some() {
        out.push(BrowserRow { label: text::owned("  ../"), repo: false, selected: false });
    }
    assert(browser_row_models(out@) =~= head);
    let focused = popup.focus == OpenProjectFocus::Path;
    let start: usize = less_u16(b.cursor, less_u16(height, 2)) as usize;
    let n: usize = b.entries.len();
    let mut i: usize = start;
    while i < n
        invariant
            start <= i,
            n == b.entries.len(),
            i <= n || i == start,
            out.len() == head.len() + (i - start),
            forall|k: int| 0 <= k < head.len() ==> #[trigger] out@[k]@ == head[k],
            forall|k: int|
                head.len() <= k < out.len() ==> #[trigger] out@[k]@ == browser_row(
                    b@.entries,
                    b.cursor,
                    focused,
                    start + (k - head.len()),
                ),
        decreases n - i,
    {
        let e = &b.entries[i];
        assert(b@.entries[i as int] == (e.name@, e.is_repo));
        let marker = if e.is_repo {
            "  ◆ "
        } else {
            "    "
        };
        let row = BrowserRow {
            label: text::concat3(marker, e.name.as_str(), "/"),
            repo: e.is_repo,
            selected: focused && i == b.cursor as usize,
        };
        assert(row@ == browser_row(b@.entries, b.cursor, focused, i as int));
        let ghost before = out@;
        out.push(row);
        assert forall|k: int| 0 <= k < head.len() implies #[trigger] out@[k]@ == head[k] by {
            assert(out@[k] == before[k]);
        }
        i += 1;
    }
    assert(browser_row_models(out@) =~= browser_rows_of(popup@, height));
    out
}

// ---------------------------------------------------------------------------
// Resource usage
// ---------------------------------------------------------------------------

/// Where the usage popup lies.
pub open spec fn usage_place(area: Rect) -> Rect {
    centered(
        held(less(area.width as int, 6), 60, 120) as u16,
        held(less(area.height as int, 4), 12, 30) as u16,
        area,
    )
}

/// Where the usage popup lies.
pub fn usage_rect(area: Rect) -> (r: Rect)
    requires
        countable(area),
    ensures
        r == usage_place(area),
{
    centered_rect(
        held_u16(less_u16(area.width, 6), 60, 120),
        held_u16(less_u16(area.height, 4), 12, 30),
        area,
    )
}

/// The title of the usage popup.
pub fn usage_title(popup: &UsagePopup) -> (r: &'static str)
    ensures
        r@ == if popup@.reports.len() == 0 && popup@.client is None {
            " Resource usage  (waiting for first sample…) "@
        } else {
            " Resource usage  (Enter/l expand · h collapse · j/k move · Esc close) "@
        },
{
    if popup.reports.len() == 0 && popup.client.is_none() {
        " Resource usage  (waiting for first sample…) "
    } else {
        " Resource usage  (Enter/l expand · h collapse · j/k move · Esc close) "
    }
}

/// `(pid N)`, behind two spaces.
pub open spec fn pid_text(pid: u32) -> Seq<char> {
    "  (pid "@ + text::decimal(pid as nat) + ")"@
}

/// What a row of the usage popup is called.
pub open spec fn row_label(row: RowModel) -> Seq<char> {
    match row {
        RowModel::SupervisorHeader { name } => "▏"@ + name,
        RowModel::Session { usage, expanded, .. } => (if expanded {
            "▾ "@
        } else {
            "▸ "@
        }) + usage.project_slug@ + "/"@ + usage.worktree_name@ + pid_text(usage.root.pid),
        RowModel::Process { depth, node } => spaces(2 * (depth + 1)) + "└ "@ + node.name@
            + pid_text(node.pid),
        RowModel::Supervisor(node) => "  ◆ imbuia (supervisor pid "@ + text::decimal(
            node.pid as nat,
        ) + ")"@,
        RowModel::Client(node) => "◆ imbuia (client pid "@ + text::decimal(node.pid as nat) + ")"@,
    }
}

fn push_pid(out: &mut String, pid: u32)
    ensures
        final(out)@ == old(out)@ + pid_text(pid),
{
    out.push_str("  (pid ");
    out.push_str(text::to_decimal(pid as u64).as_str());
    out.push_str(")");
    assert(out@ =~= old(out)@ + pid_text(pid));
}

/// What a row of the usage popup is called.
pub fn usage_label(row: &UsageRow<'_>) -> (r: String)
    ensures
        r@ == row_label(row@),
{
    match row {
        UsageRow::SupervisorHeader { name } => text::concat2("▏", name.as_str()),
        UsageRow::Session { usage, expanded, .. } => {
            let mut s = text::concat2(
                if *expanded {
                    "▾ "
                } else {
                    "▸ "
                },
                usage.project_slug.as_str(),
            );
            s.push_str("/");
            s.push_str(usage.worktree_name.as_str());
            push_pid(&mut s, usage.root.pid);
            s
        },
        UsageRow::Process { depth, node } => {
            let mut s = crate::drawing::blanks(2 * (*depth as usize + 1));
            s.push_str("└ ");
            s.push_str(node.name.as_str());
            push_pid(&mut s, node.pid);
            s
        },
        UsageRow::Supervisor(node) => text::concat3(
            "  ◆ imbuia (supervisor pid ",
            text::to_decimal(node.pid as u64).as_str(),
            ")",
        ),
        UsageRow::Client(node) => text::concat3(
            "◆ imbuia (client pid ",
            text::to_decimal(node.pid as u64).as_str(),
            ")",
        ),
    }
}

/// The memory that a row shows: a session's whole tree, a process alone.
pub open spec fn row_memory(row: RowModel) -> nat {
    match row {
        RowModel::SupervisorHeader { .. } => 0,
        RowModel::Session { usage, .. } => rss_of(usage.root),
        RowModel::Process { node, .. } => node.rss_bytes as nat,
        RowModel::Supervisor(node) => node.rss_bytes as nat,
        RowModel::Client(node) => node.rss_bytes as nat,
    }
}

/// The memory of the sessions in the first `n` rows.
pub open spec fn sessions_memory(rows: Seq<RowModel>, n: nat) -> nat
    decreases n,
{
    if n == 0 {
        0
    } else {
        sessions_memory(rows, (n - 1) as nat) + (if rows[n - 1] is Session {
            row_memory(rows[n - 1])
        } else {
            0
        })
    }
}

/// The memory of everything in the first `n` rows. The processes of a session
/// are in its own row already.
pub open spec fn whole_memory(rows: Seq<RowModel>, n: nat) -> nat
    decreases n,
{
    if n == 0 {
        0
    } else {
        whole_memory(rows, (n - 1) as nat) + (if rows[n - 1] is Process {
            0
        } else {
            row_memory(rows[n - 1])
        })
    }
}

proof fn lemma_memory_grows(rows: Seq<RowModel>, i: nat, n: nat)
    requires
        i <= n <= rows.len(),
    ensures
        sessions_memory(rows, i) <= sessions_memory(rows, n),
        whole_memory(rows, i) <= whole_memory(rows, n),
        sessions_memory(rows, n) <= whole_memory(rows, n),
        forall|k: int|
            0 <= k < n && !(rows[k] is Process) ==> #[trigger] row_memory(rows[k]) <= whole_memory(
                rows,
                n,
            ),
    decreases n,
{
    if n > 0 {
        if i < n {
            lemma_memory_grows(rows, i, (n - 1) as nat);
        } else {
            lemma_memory_grows(rows, (n - 1) as nat, (n - 1) as nat);
        }
    }
}

/// A number that is counted only as far as a `u64` goes.
pub open spec fn counted(n: nat) -> Option<u64> {
    if n <= u64::MAX {
        Some(n as u64)
    } else {
        None
    }
}

/// The memory that a row shows; none where it cannot be counted.
pub fn usage_memory(row: &UsageRow<'_>) -> (r: Option<u64>)
    ensures
        r == counted(row_memory(row@)),
{
    match row {
        UsageRow::SupervisorHeader { .. } => Some(0),
        UsageRow::Session { usage, .. } => usage.root.checked_total_rss(),
        UsageRow::Process { node, .. } => Some(node.rss_bytes),
        UsageRow::Supervisor(node) => Some(node.rss_bytes),
        UsageRow::Client(node) => Some(node.rss_bytes),
    }
}

/// The memory of all sessions across every supervisor, and that of everything:
/// also each supervisor's own process and the client. None where they cannot be
/// counted.
pub fn usage_totals(rows: &Vec<UsageRow<'_>>) -> (r: Option<(u64, u64)>)
    ensures
        r is Some <==> whole_memory(row_models(rows@), rows@.len()) <= u64::MAX,
        r matches Some(t) ==> t.0 == sessions_memory(row_models(rows@), rows@.len()),
        r matches Some(t) ==> t.1 == whole_memory(row_models(rows@), rows@.len()),
{
    let ghost m = row_models(rows@);
    let mut sessions: u64 = 0;
    let mut all: u64 = 0;
    let mut i: usize = 0;
    while i < rows.len()
        invariant
            i <= rows.len(),
            m == row_models(rows@),
            sessions == sessions_memory(m, i as nat),
            all == whole_memory(m, i as nat),
        decreases rows.len() - i,
    {
        let row = &rows[i];
        assert(m[i as int] == row@);
        proof {
            lemma_memory_grows(m, (i + 1) as nat, rows@.len());
            lemma_memory_grows(m, i as nat, (i + 1) as nat);
        }
        let is_process = matches!(row, UsageRow::Process { .. });
        if !is_process {
            let here: u64 = match usage_memory(row) {
                Some(n) => n,
                None => return None,
            };
            if here > u64::MAX - all {
                return None;
            }
            all = all + here;
            if matches!(row, UsageRow::Session { .. }) {
                sessions = sessions + here;
            }
        }
        i += 1;
    }
    Some((sessions, all))
}

/// The cores of the largest host in the first `n` reports.
pub open spec fn most_cores<K>(reports: Seq<(K, UsageReport)>, n: nat) -> u32
    decreases n,
{
    if n == 0 {
        0
    } else {
        let before = most_cores(reports, (n - 1) as nat);
        if reports[n - 1].1.cpu_count > before {
            reports[n - 1].1.cpu_count
        } else {
            before
        }
    }
}

/// How the sum over everything is labelled: with the cores of the largest host.
pub fn everything_label(popup: &UsagePopup) -> (r: String)
    ensures
        r@ == "Σ everything  ("@ + text::decimal(
            most_cores(popup@.reports, popup@.reports.len()) as nat,
        ) + " cores available)"@,
{
    let mut cores: u32 = 0;
    let mut i: usize = 0;
    while i < popup.reports.len()
        invariant
            i <= popup.reports.len(),
            cores == most_cores(popup@.reports, i as nat),
        decreases popup.reports.len() - i,
    {
        let here: u32 = popup.reports[i].1.cpu_count;
        if here > cores {
            cores = here;
        }
        i += 1;
    }
    text::concat3("Σ everything  (", text::to_decimal(cores as u64).as_str(), " cores available)")
}

// ---------------------------------------------------------------------------
// Editing, one line of input, help
// ---------------------------------------------------------------------------

/// Where the edit popup lies.
pub open spec fn edit_place(area: Rect) -> Rect {
    centered(
        held(less(area.width as int, 8), 40, 100) as u16,
        held(less(area.height as int, 4), 8, 24) as u16,
        area,
    )
}

/// Where the edit popup lies.
pub fn edit_rect(area: Rect) -> (r: Rect)
    requires
        countable(area),
    ensures
        r == edit_place(area),
{
    centered_rect(
        held_u16(less_u16(area.width, 8), 40, 100),
        held_u16(less_u16(area.height, 4), 8, 24),
        area,
    )
}

/// Where the help popup lies.
pub open spec fn help_place(area: Rect) -> Rect {
    centered(
        least(78, less(area.width as int, 4)) as u16,
        held(less(area.height as int, 4), 12, 36) as u16,
        area,
    )
}

/// Where the help popup lies.
pub fn help_rect(area: Rect) -> (r: Rect)
    requires
        countable(area),
    ensures
        r == help_place(area),
{
    centered_rect(
        min_u16(78, less_u16(area.width, 4)),
        held_u16(less_u16(area.height, 4), 12, 36),
        area,
    )
}

/// The columns that an input popup would like.
pub open spec fn input_wish(p: InputModel) -> int {
    let line = byte_len(p.prompt) + byte_len(p.buffer) + 4;
    6 + (if line > byte_len(p.title) {
        line
    } else {
        byte_len(p.title) as int
    })
}

/// Where an input popup lies.
pub open spec fn input_place(area: Rect, p: InputModel) -> Rect {
    centered(held(input_wish(p), 40, area.width - 4) as u16, 5, area)
}

/// Where an input popup lies.
pub fn input_rect(area: Rect, popup: &InputPopup) -> (r: Rect)
    requires
        countable(area),
        area.width >= 44,
    ensures
        r == input_place(area, popup@),
{
    let line: usize = plus(
        plus(bytes_of(popup.prompt.as_str()), bytes_of(popup.buffer.as_str())),
        4,
    );
    let title: usize = bytes_of(popup.title.as_str());
    let wish: usize = plus(
        if line > title {
            line
        } else {
            title
        },
        6,
    );
    centered_rect(held_len(wish, 40, area.width - 4), 5, area)
}

/// The column behind the input, where the cursor stands.
pub open spec fn input_column(inner: Rect, p: InputModel) -> int {
    inner.x + 3 + p.prompt.len() + p.buffer.len()
}

/// The column of the cursor behind the input, if it lies inside the popup.
pub fn input_cursor(inner: Rect, popup: &InputPopup) -> (r: Option<u16>)
    requires
        countable(inner),
    ensures
        r == if input_column(inner, popup@) < inner.x + inner.width {
            Some(input_column(inner, popup@) as u16)
        } else {
            None::<u16>
        },
{
    let prompt: usize = text::chars_of(popup.prompt.as_str()).len();
    let buffer: usize = text::chars_of(popup.buffer.as_str()).len();
    let far: usize = plus(plus(prompt, buffer), 3);
    if far < inner.width as usize {
        Some(inner.x + far as u16)
    } else {
        None
    }
}

// ---------------------------------------------------------------------------
// Completions of the command line
// ---------------------------------------------------------------------------

/// The bytes of the longest name among the first `n` completions.
pub open spec fn widest_name(matches: Seq<(Seq<char>, Seq<char>)>, n: nat) -> usize
    decreases n,
{
    if n == 0 {
        0
    } else {
        let before = widest_name(matches, (n - 1) as nat);
        let here = byte_len(matches[n - 1].0);
        if here > before {
            here
        } else {
            before
        }
    }
}

/// The bytes of the longest description among the first `n` completions.
pub open spec fn widest_description(matches: Seq<(Seq<char>, Seq<char>)>, n: nat) -> usize
    decreases n,
{
    if n == 0 {
        0
    } else {
        let before = widest_description(matches, (n - 1) as nat);
        let here = byte_len(matches[n - 1].1);
        if here > before {
            here
        } else {
            before
        }
    }
}

/// Where the completions lie: right above the action bar, at most eight rows;
/// nowhere without completions or room.
pub open spec fn completion_place(bar: Rect, c: CompletionModel) -> Option<Rect> {
    let n = c.matches.len();
    if n == 0 || bar.y == 0 {
        None
    } else {
        let wish = widest_name(c.matches, n) + widest_description(c.matches, n) + 4;
        let w = least(wish, bar.width as int);
        let h = least(n as int, 8);
        Some(
            Rect {
                x: bar.x,
                y: less(bar.y as int, h) as u16,
                width: if w < 20 {
                    20
                } else {
                    w as u16
                },
                height: h as u16,
            },
        )
    }
}

fn widest_of(comp: &CommandCompletion) -> (r: (usize, usize))
    ensures
        r.0 == widest_name(comp@.matches, comp@.matches.len()),
        r.1 == widest_description(comp@.matches, comp@.matches.len()),
{
    let mut names: usize = 0;
    let mut descriptions: usize = 0;
    let mut i: usize = 0;
    while i < comp.matches.len()
        invariant
            i <= comp.matches.len(),
            names == widest_name(comp@.matches, i as nat),
            descriptions == widest_description(comp@.matches, i as nat),
        decreases comp.matches.len() - i,
    {
        assert(comp@.matches[i as int].0 == comp.matches@[i as int].0@);
        assert(comp@.matches[i as int].1 == comp.matches@[i as int].1@);
        let name: usize = bytes_of(comp.matches[i].0);
        let description: usize = bytes_of(comp.matches[i].1);
        if name > names {
            names = name;
        }
        if description > descriptions {
            descriptions = description;
        }
        i += 1;
    }
    (names, descriptions)
}

/// Where the completions lie.
pub fn completion_rect(bar: Rect, comp: &CommandCompletion) -> (r: Option<Rect>)
    ensures
        r == completion_place(bar, comp@),
{
    if comp.matches.len() == 0 || bar.y == 0 {
        return None;
    }
    let (names, descriptions) = widest_of(comp);
    let wish: usize = plus(plus(names, descriptions), 4);
    let w: u16 = held_len(wish, 0, bar.width);
    let h: u16 = held_len(comp.matches.len(), 0, 8);
    Some(
        Rect::new(
            bar.x,
            less_u16(bar.y, h),
            if w < 20 {
                20
            } else {
                w
            },
            h,
        ),
    )
}

/// A completion's row: the name, the description, whether it is selected.
pub open spec fn completion_row(c: CompletionModel, i: int) -> (Seq<char>, Seq<char>, bool) {
    (
        " :"@ + filled(c.matches[i].0, widest_name(c.matches, c.matches.len()) as int) + "  "@,
        c.matches[i].1 + " "@,
        c.selected == Some(i as usize),
    )
}

/// The rows in a list.
pub open spec fn completion_row_models(v: Seq<(String, String, bool)>) -> Seq<
    (Seq<char>, Seq<char>, bool),
> {
    Seq::new(v.len(), |i: int| (v[i].0@, v[i].1@, v[i].2))
}

/// The rows of the completions.
pub fn completion_rows(comp: &CommandCompletion) -> (r: Vec<(String, String, bool)>)
    ensures
        completion_row_models(r@) == Seq::new(
            comp@.matches.len(),
            |i: int| completion_row(comp@, i),
        ),
{
    let (names, _descriptions) = widest_of(comp);
    let mut out: Vec<(String, String, bool)> = Vec::new();
    let mut i: usize = 0;
    while i < comp.matches.len()
        invariant
            i == out.len(),
            i <= comp.matches.len(),
            names == widest_name(comp@.matches, comp@.matches.len()),
            forall|k: int|
                0 <= k < i ==> (#[trigger] out@[k].0@, out@[k].1@, out@[k].2) == completion_row(
                    comp@,
                    k,
                ),
        decreases comp.matches.len() - i,
    {
        assert(comp@.matches[i as int].0 == comp.matches@[i as int].0@);
        assert(comp@.matches[i as int].1 == comp.matches@[i as int].1@);
        let selected = match comp.selected {
            Some(k) => k == i,
            None => false,
        };
        let name = text::concat3(" :", pad_right(comp.matches[i].0, names).as_str(), "  ");
        let what = text::concat2(comp.matches[i].1, " ");
        let ghost before = out@;
        out.push((name, what, selected));
        assert forall|k: int| 0 <= k < i implies (
            #[trigger] out@[k].0@,
            out@[k].1@,
            out@[k].2,
        ) == completion_row(comp@, k) by {
            assert(out@[k] == before[k]);
        }
        i += 1;
    }
    assert(completion_row_models(out@) =~= Seq::new(
        comp@.matches.len(),
        |i: int| completion_row(comp@, i),
    ));
    out
}

} // verus!
