//! Where the parts of the screen lie.

use ratatui::layout::{Constraint, Layout};
use vstd::prelude::*;

verus! {

pub const DEFAULT_SIDEBAR_WIDTH: u16 = 24;

pub const MIN_SIDEBAR_WIDTH: u16 = 10;

/// A rectangle of character cells.
#[derive(Copy, Clone, Debug, PartialEq, Eq, Structural)]
pub struct Rect {
    pub x: u16,
    pub y: u16,
    pub width: u16,
    pub height: u16,
}

impl Rect {
    pub fn new(x: u16, y: u16, width: u16, height: u16) -> (r: Rect)
        ensures
            r == (Rect { x, y, width, height }),
    {
        Rect { x, y, width, height }
    }

    /// Whether the cell at `col`, `row` lies in the rectangle.
    pub open spec fn has_cell(self, col: u16, row: u16) -> bool {
        self.x <= col < self.x + self.width && self.y <= row < self.y + self.height
    }
}

/// Whether the cell at `col`, `row` lies in `r`.
pub fn rect_contains(r: Rect, col: u16, row: u16) -> (b: bool)
    ensures
        b == r.has_cell(col, row),
{
    col >= r.x && (col as u32) < r.x as u32 + r.width as u32 && row >= r.y && (row as u32) < r.y
        as u32 + r.height as u32
}

/// The size of the terminal.
#[derive(Copy, Clone, Debug, PartialEq, Eq, Structural)]
pub struct TermSize {
    pub rows: u16,
    pub cols: u16,
}

impl Default for TermSize {
    fn default() -> (r: TermSize)
        ensures
            r == (TermSize { rows: 0, cols: 0 }),
    {
        TermSize { rows: 0, cols: 0 }
    }
}

impl TermSize {
    pub fn new(rows: u16, cols: u16) -> (r: TermSize)
        ensures
            r == (TermSize { rows, cols }),
    {
        TermSize { rows, cols }
    }

    /// The whole terminal as a rectangle.
    pub open spec fn rect(self) -> Rect {
        Rect { x: 0, y: 0, width: self.cols, height: self.rows }
    }

    /// The whole terminal as a rectangle.
    pub fn as_rect(self) -> (r: Rect)
        ensures
            r == self.rect(),
    {
        Rect::new(0, 0, self.cols, self.rows)
    }
}

/// The four chrome regions that frame the app.
#[derive(Copy, Clone, Debug, PartialEq, Eq, Structural)]
pub struct ChromeRects {
    pub sidebar: Rect,
    pub tab_bar: Rect,
    pub terminal: Rect,
    pub action_bar: Rect,
}

/// How much of an area one part of it asks for.
#[derive(Copy, Clone, Debug, PartialEq, Eq, Structural)]
pub enum Share {
    /// Exactly so many cells.
    Length(u16),
    /// At least so many cells.
    Min(u16),
}

/// How many cells lie between `start` and the end of a span of `size` cells that
/// begins there: no cell lies beyond the largest coordinate.
pub open spec fn cells_from(start: u16, size: u16) -> int {
    if start + size <= u16::MAX {
        size as int
    } else {
        u16::MAX - start
    }
}

/// How many of `size` cells go to the part that asks for `length` of them, beside
/// one that asks for at least `least`: the least comes first, then the length, and
/// what is left over goes to the other part.
pub open spec fn length_share(size: int, length: u16, least: u16) -> int {
    if size >= least + length {
        length as int
    } else if size >= least {
        size - least
    } else {
        0
    }
}

/// How many of `size` cells go to the first of two parts, where one of them asks
/// for a length and the other for a least number of cells.
pub open spec fn first_share(size: int, first: Share, second: Share) -> int {
    match (first, second) {
        (Share::Length(n), Share::Min(m)) => length_share(size, n, m),
        (Share::Min(m), Share::Length(n)) => size - length_share(size, n, m),
        _ => size,
    }
}

/// Whether one of two parts asks for a length and the other for a least number
/// of cells.
pub open spec fn length_beside_least(first: Share, second: Share) -> bool {
    match (first, second) {
        (Share::Length(_), Share::Min(m)) => m <= i16::MAX,
        (Share::Min(m), Share::Length(_)) => m <= i16::MAX,
        _ => false,
    }
}

/// An area cut in two: one part above the other where `vertical`, else side by
/// side.
pub open spec fn two_parts(area: Rect, vertical: bool, first: Share, second: Share) -> (Rect, Rect) {
    if vertical {
        let size = cells_from(area.y, area.height);
        let n = first_share(size, first, second);
        (
            Rect { x: area.x, y: area.y, width: area.width, height: n as u16 },
            Rect {
                x: area.x,
                y: (area.y + n) as u16,
                width: area.width,
                height: (size - n) as u16,
            },
        )
    } else {
        let size = cells_from(area.x, area.width);
        let n = first_share(size, first, second);
        (
            Rect { x: area.x, y: area.y, width: n as u16, height: area.height },
            Rect {
                x: (area.x + n) as u16,
                y: area.y,
                width: (size - n) as u16,
                height: area.height,
            },
        )
    }
}

/// Whether `part` is a part of an area that was cut in rows where `vertical`, else
/// in columns.
pub open spec fn is_part(area: Rect, vertical: bool, part: Rect) -> bool {
    if vertical {
        &&& part.x == area.x && part.width == area.width
        &&& area.y <= part.y
        &&& part.y + part.height <= area.y + cells_from(area.y, area.height)
    } else {
        &&& part.y == area.y && part.height == area.height
        &&& area.x <= part.x
        &&& part.x + part.width <= area.x + cells_from(area.x, area.width)
    }
}

/// What the rows of the open-project popup ask for: a line each for the
/// supervisor, the directory, the script's label, the checkbox and the footer, at
/// least four for the listing, and at least two for the script.
pub open spec fn open_shares() -> Seq<Share> {
    seq![
        Share::Length(1),
        Share::Length(1),
        Share::Min(4),
        Share::Length(1),
        Share::Min(2),
        Share::Length(1),
        Share::Length(1),
    ]
}

/// `area`'s rows from `from` on, `n` of them.
pub open spec fn rows_at(area: Rect, from: int, n: int) -> Rect {
    Rect { x: area.x, y: (area.y + from) as u16, width: area.width, height: n as u16 }
}

/// How many rows the listing gets where `left` are left for it and the script: half
/// of them, the greater one, but not fewer than its least.
pub open spec fn listing_rows(left: int) -> int {
    if left >= 8 {
        (left + 1) / 2
    } else {
        4
    }
}

/// Where the rows of the open-project popup lie when there is room for all: one
/// below the other.
pub open spec fn open_parts(area: Rect) -> Seq<Rect> {
    let left = area.height - 5;
    let b = listing_rows(left);
    seq![
        rows_at(area, 0, 1),
        rows_at(area, 1, 1),
        rows_at(area, 2, b),
        rows_at(area, 2 + b, 1),
        rows_at(area, 3 + b, left - b),
        rows_at(area, 3 + left, 1),
        rows_at(area, 4 + left, 1),
    ]
}

/// Whether there is room for all rows of the open-project popup.
pub open spec fn room_to_open(area: Rect) -> bool {
    area.height >= 11 && area.y + area.height <= u16::MAX
}

/// `ratatui::layout::Layout::split` with `Length` and `Min` constraints: one part
/// for each, none of them outside the area. For one `Length` and one `Min`, in
/// either order, the contract says what they are: they lie next to each other and
/// fill the area; the `Min` part gets its least first, then the `Length` part gets
/// its cells, and the `Min` part takes the rest. For the rows of the open-project
/// popup it says what they are where there is room for all: the two `Min` parts
/// share what is left evenly. How more parts share an area else is not stated:
/// where there is too little room, the crate leaves it open.
#[verifier::external_body]
fn split_area(area: Rect, vertical: bool, shares: &Vec<Share>) -> (r: Vec<Rect>)
    ensures
        r@.len() == shares@.len(),
        forall|i: int| 0 <= i < r@.len() ==> is_part(area, vertical, #[trigger] r@[i]),
        shares@.len() == 2 && length_beside_least(shares@[0], shares@[1]) ==> (r@[0], r@[1])
            == two_parts(area, vertical, shares@[0], shares@[1]),
        shares@ == open_shares() && vertical && room_to_open(area) ==> r@ == open_parts(area),
{
    let constraint = |s: &Share| match *s {
        Share::Length(n) => Constraint::Length(n),
        Share::Min(n) => Constraint::Min(n),
    };
    let back = |a: &ratatui::layout::Rect| Rect { x: a.x, y: a.y, width: a.width, height: a.height };
    let all: Vec<Constraint> = shares.iter().map(constraint).collect();
    let Rect { x, y, width, height } = area;
    let outer = ratatui::layout::Rect { x, y, width, height };
    let parts = match vertical {
        true => Layout::vertical(all).split(outer),
        false => Layout::horizontal(all).split(outer),
    };
    parts.iter().map(back).collect()
}

/// The two parts of an area of which one asks for a length and the other for a
/// least number of cells.
fn split_in_two(area: Rect, vertical: bool, first: Share, second: Share) -> (r: (Rect, Rect))
    requires
        length_beside_least(first, second),
    ensures
        r == two_parts(area, vertical, first, second),
{
    let shares: Vec<Share> = vec![first, second];
    let parts = split_area(area, vertical, &shares);
    (parts[0], parts[1])
}

/// Where the rows of the open-project popup lie.
#[derive(Copy, Clone, Debug, PartialEq, Eq, Structural)]
pub struct OpenRects {
    pub supervisor: Rect,
    pub dir: Rect,
    pub browser: Rect,
    pub script_label: Rect,
    pub script: Rect,
    pub checkbox: Rect,
    pub footer: Rect,
}

/// The rows of the open-project popup, from the parts that its inside was cut in.
pub open spec fn open_rows_of(parts: Seq<Rect>) -> OpenRects {
    OpenRects {
        supervisor: parts[0],
        dir: parts[1],
        browser: parts[2],
        script_label: parts[3],
        script: parts[4],
        checkbox: parts[5],
        footer: parts[6],
    }
}

/// Where the rows of the open-project popup lie inside it.
pub fn open_rows(inner: Rect) -> (r: OpenRects)
    ensures
        exists|parts: Seq<Rect>|
            parts.len() == open_shares().len() && r == #[trigger] open_rows_of(parts) && (forall|
                i: int,
            |
                0 <= i < parts.len() ==> is_part(inner, true, #[trigger] parts[i])),
        room_to_open(inner) ==> r == open_rows_of(open_parts(inner)),
{
    let shares: Vec<Share> = vec![
        Share::Length(1),
        Share::Length(1),
        Share::Min(4),
        Share::Length(1),
        Share::Min(2),
        Share::Length(1),
        Share::Length(1),
    ];
    assert(shares@ =~= open_shares());
    let parts = split_area(inner, true, &shares);
    let r = OpenRects {
        supervisor: parts[0],
        dir: parts[1],
        browser: parts[2],
        script_label: parts[3],
        script: parts[4],
        checkbox: parts[5],
        footer: parts[6],
    };
    assert(r == open_rows_of(parts@));
    r
}

/// How wide the sidebar is drawn: what was asked for, so long as the right pane
/// keeps its columns, and never under the least width.
pub open spec fn drawn_sidebar_width(cols: u16, asked: u16) -> u16 {
    let room = if cols >= MIN_SIDEBAR_WIDTH { (cols - MIN_SIDEBAR_WIDTH) as u16 } else { 0 };
    let fit = if asked <= room { asked } else { room };
    if fit >= MIN_SIDEBAR_WIDTH {
        fit
    } else {
        MIN_SIDEBAR_WIDTH
    }
}

/// The regions of the screen: a one-row action bar at the bottom, the sidebar at
/// the left, and at the right a two-row tab bar above the terminal.
pub open spec fn chrome_of(area: Rect, sidebar_width: u16) -> ChromeRects {
    let (main, action_bar) = two_parts(area, true, Share::Min(1), Share::Length(1));
    let w = drawn_sidebar_width(area.width, sidebar_width);
    let (sidebar, right) = two_parts(main, false, Share::Length(w), Share::Min(1));
    let (tab_bar, terminal) = two_parts(right, true, Share::Length(2), Share::Min(1));
    ChromeRects { sidebar, tab_bar, terminal, action_bar }
}

/// Compute chrome regions given the full terminal area and the sidebar width.
/// `sidebar_width` is clamped so the right pane always has at least 10 cols.
pub fn chrome(area: Rect, sidebar_width: u16) -> (r: ChromeRects)
    ensures
        r == chrome_of(area, sidebar_width),
{
    let room: u16 = if area.width >= MIN_SIDEBAR_WIDTH {
        area.width - MIN_SIDEBAR_WIDTH
    } else {
        0
    };
    let fit: u16 = if sidebar_width <= room {
        sidebar_width
    } else {
        room
    };
    let w: u16 = if fit >= MIN_SIDEBAR_WIDTH {
        fit
    } else {
        MIN_SIDEBAR_WIDTH
    };
    let (main, action_bar) = split_in_two(area, true, Share::Min(1), Share::Length(1));
    let (sidebar, right) = split_in_two(main, false, Share::Length(w), Share::Min(1));
    let (tab_bar, terminal) = split_in_two(right, true, Share::Length(2), Share::Min(1));
    ChromeRects { sidebar, tab_bar, terminal, action_bar }
}

/// The widest sidebar that may be set: half the terminal, but not under the
/// least width.
pub open spec fn widest_sidebar(term_cols: u16) -> u16 {
    if term_cols / 2 >= MIN_SIDEBAR_WIDTH {
        term_cols / 2
    } else {
        MIN_SIDEBAR_WIDTH
    }
}

/// `width` held between the least and the widest sidebar.
pub open spec fn clamped_width(width: u16, term_cols: u16) -> u16 {
    if width < MIN_SIDEBAR_WIDTH {
        MIN_SIDEBAR_WIDTH
    } else if width > widest_sidebar(term_cols) {
        widest_sidebar(term_cols)
    } else {
        width
    }
}

/// Clamp a sidebar width proposal to `[MIN_SIDEBAR_WIDTH, max(MIN, cols/2)]`.
pub fn clamp_sidebar_width(width: u16, term_cols: u16) -> (r: u16)
    ensures
        r == clamped_width(width, term_cols),
        MIN_SIDEBAR_WIDTH <= r <= widest_sidebar(term_cols),
{
    let half: u16 = term_cols / 2;
    let max: u16 = if half >= MIN_SIDEBAR_WIDTH {
        half
    } else {
        MIN_SIDEBAR_WIDTH
    };
    if width < MIN_SIDEBAR_WIDTH {
        MIN_SIDEBAR_WIDTH
    } else if width > max {
        max
    } else {
        width
    }
}

/// On a screen with room for both, the sidebar and the right pane each keep at
/// least the least width of a sidebar.
pub proof fn law_both_panes_keep_their_columns(area: Rect, sidebar_width: u16)
    requires
        area.width >= 2 * MIN_SIDEBAR_WIDTH,
        area.x + area.width <= u16::MAX,
    ensures
        chrome_of(area, sidebar_width).sidebar.width >= MIN_SIDEBAR_WIDTH,
        chrome_of(area, sidebar_width).tab_bar.width >= MIN_SIDEBAR_WIDTH,
        chrome_of(area, sidebar_width).terminal.width >= MIN_SIDEBAR_WIDTH,
{
}

/// Every cell of the screen lies in exactly one of the four regions, and the
/// regions have no other cells.
pub proof fn law_regions_tile_the_screen(area: Rect, sidebar_width: u16, col: u16, row: u16)
    requires
        area.x + area.width <= u16::MAX,
        area.y + area.height <= u16::MAX,
    ensures
        ({
            let c = chrome_of(area, sidebar_width);
            let inside = |r: Rect| if r.has_cell(col, row) {
                1int
            } else {
                0int
            };
            inside(c.sidebar) + inside(c.tab_bar) + inside(c.terminal) + inside(c.action_bar)
                == inside(area)
        }),
{
}

/// Clamping a width that was clamped for the same terminal changes nothing.
pub proof fn law_clamp_is_idempotent(width: u16, term_cols: u16)
    ensures
        clamped_width(clamped_width(width, term_cols), term_cols) == clamped_width(
            width,
            term_cols,
        ),
{
}

} // verus!
