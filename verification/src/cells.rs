//! The cells of a session's screen, as they are drawn on the pane.

use crate::drawing::{countable, least, less, less_u16, min_u16};
use crate::layout::Rect;
use crate::text;
use crate::theme::{Color, Theme};
use vstd::prelude::*;
use vt100::{Cell, Screen};

verus! {

/// A color as a session chose it.
#[derive(Copy, Clone, Debug, PartialEq, Eq, Structural)]
pub enum ScreenColor {
    Default,
    Idx(u8),
    Rgb(u8, u8, u8),
}

// ---------------------------------------------------------------------------
// vt100
// ---------------------------------------------------------------------------

#[verifier::external_type_specification]
#[verifier::external_body]
pub struct ExCell(vt100::Cell);

/// The rows and columns of a screen.
pub uninterp spec fn size_on(s: Screen) -> (u16, u16);

/// `vt100::Screen::size` reads the rows and columns of the screen.
pub assume_specification[ Screen::size ](s: &Screen) -> (r: (u16, u16))
    ensures
        r == size_on(*s),
;

/// The row and column of a screen's cursor.
pub uninterp spec fn cursor_on(s: Screen) -> (u16, u16);

/// `vt100::Screen::cursor_position` reads the row and column of the cursor.
pub assume_specification[ Screen::cursor_position ](s: &Screen) -> (r: (u16, u16))
    ensures
        r == cursor_on(*s),
;

/// Whether a screen hides its cursor.
pub uninterp spec fn hides_cursor(s: Screen) -> bool;

/// `vt100::Screen::hide_cursor` reads a mode of the screen.
pub assume_specification[ Screen::hide_cursor ](s: &Screen) -> (r: bool)
    ensures
        r == hides_cursor(*s),
;

/// The cell at a row and column of a screen.
pub uninterp spec fn cell_on(s: Screen, row: u16, col: u16) -> Option<Cell>;

/// `vt100::Screen::cell` looks a cell up in the part of the screen that is in
/// view; there may be none.
pub assume_specification[ Screen::cell ](s: &Screen, row: u16, col: u16) -> (r: Option<&Cell>)
    ensures
        match r {
            Some(c) => cell_on(*s, row, col) == Some(*c),
            None => cell_on(*s, row, col) is None,
        },
;

/// The text in a cell.
pub uninterp spec fn text_in(c: Cell) -> Seq<char>;

/// `vt100::Cell::contents` reads the text in the cell.
pub assume_specification[ Cell::contents ](c: &Cell) -> (r: &str)
    ensures
        r@ == text_in(*c),
;

/// Whether a cell is bold.
pub uninterp spec fn is_bold(c: Cell) -> bool;

/// `vt100::Cell::bold` reads an attribute of the cell.
pub assume_specification[ Cell::bold ](c: &Cell) -> (r: bool)
    ensures
        r == is_bold(*c),
;

/// Whether a cell is italic.
pub uninterp spec fn is_italic(c: Cell) -> bool;

/// `vt100::Cell::italic` reads an attribute of the cell.
pub assume_specification[ Cell::italic ](c: &Cell) -> (r: bool)
    ensures
        r == is_italic(*c),
;

/// Whether a cell is underlined.
pub uninterp spec fn is_underlined(c: Cell) -> bool;

/// `vt100::Cell::underline` reads an attribute of the cell.
pub assume_specification[ Cell::underline ](c: &Cell) -> (r: bool)
    ensures
        r == is_underlined(*c),
;

/// Whether a cell's colors are swapped.
pub uninterp spec fn is_inverse(c: Cell) -> bool;

/// `vt100::Cell::inverse` reads an attribute of the cell.
pub assume_specification[ Cell::inverse ](c: &Cell) -> (r: bool)
    ensures
        r == is_inverse(*c),
;

/// The color of a cell's text.
pub uninterp spec fn fg_in(c: Cell) -> ScreenColor;

/// `vt100::Cell::fgcolor` reads the color of the cell's text.
#[verifier::external_body]
fn fg_color(c: &Cell) -> (r: ScreenColor)
    ensures
        r == fg_in(*c),
{
    match c.fgcolor() {
        vt100::Color::Default => ScreenColor::Default,
        vt100::Color::Idx(i) => ScreenColor::Idx(i),
        vt100::Color::Rgb(r, g, b) => ScreenColor::Rgb(r, g, b),
    }
}

/// The color of a cell's background.
pub uninterp spec fn bg_in(c: Cell) -> ScreenColor;

/// `vt100::Cell::bgcolor` reads the color of the cell's background.
#[verifier::external_body]
fn bg_color(c: &Cell) -> (r: ScreenColor)
    ensures
        r == bg_in(*c),
{
    match c.bgcolor() {
        vt100::Color::Default => ScreenColor::Default,
        vt100::Color::Idx(i) => ScreenColor::Idx(i),
        vt100::Color::Rgb(r, g, b) => ScreenColor::Rgb(r, g, b),
    }
}

// ---------------------------------------------------------------------------
// Drawing
// ---------------------------------------------------------------------------

/// A session's color, or the theme's where the session chose none.
pub open spec fn themed(c: ScreenColor, default: Color) -> Color {
    match c {
        ScreenColor::Default => default,
        ScreenColor::Idx(i) => Color::Indexed(i),
        ScreenColor::Rgb(r, g, b) => Color::Rgb(r, g, b),
    }
}

/// A session's color, or the theme's where the session chose none.
pub fn convert_color(c: ScreenColor, default: Color) -> (r: Color)
    ensures
        r == themed(c, default),
{
    match c {
        ScreenColor::Default => default,
        ScreenColor::Idx(i) => Color::Indexed(i),
        ScreenColor::Rgb(r, g, b) => Color::Rgb(r, g, b),
    }
}

/// How a cell is drawn.
#[derive(Copy, Clone, Debug, PartialEq, Eq, Structural)]
pub struct CellStyle {
    pub fg: Color,
    pub bg: Color,
    pub bold: bool,
    pub italic: bool,
    pub underlined: bool,
    pub reversed: bool,
}

/// A cell on the pane.
#[derive(Debug)]
pub struct PaneCell {
    pub col: u16,
    pub row: u16,
    pub symbol: String,
    pub style: CellStyle,
}

/// A cell on the pane in the abstract.
pub struct PaneCellModel {
    pub col: u16,
    pub row: u16,
    pub symbol: Seq<char>,
    pub style: CellStyle,
}

impl View for PaneCell {
    type V = PaneCellModel;

    open spec fn view(&self) -> PaneCellModel {
        PaneCellModel { col: self.col, row: self.row, symbol: self.symbol@, style: self.style }
    }
}

/// The cells in a list.
pub open spec fn cell_models(v: Seq<PaneCell>) -> Seq<PaneCellModel> {
    Seq::new(v.len(), |i: int| v[i]@)
}

/// How a cell is drawn; one without text as a space.
pub open spec fn drawn_cell(c: Cell, row: u16, col: u16, theme: Theme) -> PaneCellModel {
    PaneCellModel {
        col,
        row,
        symbol: if text_in(c).len() == 0 {
            " "@
        } else {
            text_in(c)
        },
        style: CellStyle {
            fg: themed(fg_in(c), theme.fg),
            bg: themed(bg_in(c), theme.bg),
            bold: is_bold(c),
            italic: is_italic(c),
            underlined: is_underlined(c),
            reversed: is_inverse(c),
        },
    }
}

/// The first `n` cells of a row that are there.
pub open spec fn row_drawn(s: Screen, row: u16, n: nat, theme: Theme) -> Seq<PaneCellModel>
    decreases n,
{
    if n == 0 {
        seq![]
    } else {
        let before = row_drawn(s, row, (n - 1) as nat, theme);
        match cell_on(s, row, (n - 1) as u16) {
            Some(c) => before.push(drawn_cell(c, row, (n - 1) as u16, theme)),
            None => before,
        }
    }
}

/// The cells of the first `n` rows, each `w` wide.
pub open spec fn rows_drawn(s: Screen, n: nat, w: nat, theme: Theme) -> Seq<PaneCellModel>
    decreases n,
{
    if n == 0 {
        seq![]
    } else {
        rows_drawn(s, (n - 1) as nat, w, theme) + row_drawn(s, (n - 1) as u16, w, theme)
    }
}

/// The cells of a screen that a pane of that size shows.
pub open spec fn pane_drawn(s: Screen, width: u16, height: u16, theme: Theme) -> Seq<
    PaneCellModel,
> {
    rows_drawn(
        s,
        least(height as int, size_on(s).0 as int) as nat,
        least(width as int, size_on(s).1 as int) as nat,
        theme,
    )
}

fn draw_cell(c: &Cell, row: u16, col: u16, theme: &Theme) -> (r: PaneCell)
    ensures
        r@ == drawn_cell(*c, row, col, *theme),
{
    let contents = c.contents();
    let symbol = if text::chars_of(contents).len() == 0 {
        text::owned(" ")
    } else {
        text::owned(contents)
    };
    PaneCell {
        col,
        row,
        symbol,
        style: CellStyle {
            fg: convert_color(fg_color(c), theme.fg),
            bg: convert_color(bg_color(c), theme.bg),
            bold: c.bold(),
            italic: c.italic(),
            underlined: c.underline(),
            reversed: c.inverse(),
        },
    }
}

fn push_row(s: &Screen, row: u16, w: u16, theme: &Theme, out: &mut Vec<PaneCell>)
    ensures
        cell_models(final(out)@) == cell_models(old(out)@) + row_drawn(*s, row, w as nat, *theme),
{
    let ghost start = cell_models(out@);
    let mut col: u16 = 0;
    assert(start =~= start + row_drawn(*s, row, 0, *theme));
    while col < w
        invariant
            col <= w,
            cell_models(out@) == start + row_drawn(*s, row, col as nat, *theme),
        decreases w - col,
    {
        let ghost before = out@;
        if let Some(c) = s.cell(row, col) {
            let cell = draw_cell(c, row, col, theme);
            let ghost model = cell@;
            out.push(cell);
            assert(cell_models(out@) =~= cell_models(before).push(model));
            assert(cell_models(out@) =~= start + row_drawn(*s, row, (col + 1) as nat, *theme));
        }
        col += 1;
    }
}

/// The cells of a screen that a pane of that size shows, row by row. Cells in the
/// session's default colors take the theme's.
pub fn pane_cells(s: &Screen, width: u16, height: u16, theme: &Theme) -> (r: Vec<PaneCell>)
    ensures
        cell_models(r@) == pane_drawn(*s, width, height, *theme),
{
    let (rows, cols) = s.size();
    let h: u16 = min_u16(height, rows);
    let w: u16 = min_u16(width, cols);
    let mut out: Vec<PaneCell> = Vec::new();
    let mut row: u16 = 0;
    assert(cell_models(out@) =~= seq![]);
    while row < h
        invariant
            row <= h,
            cell_models(out@) == rows_drawn(*s, row as nat, w as nat, *theme),
        decreases h - row,
    {
        push_row(s, row, w, theme, &mut out);
        row += 1;
    }
    out
}

/// Where the cursor lies on the pane: at the screen's cursor, held inside the
/// pane.
pub open spec fn cursor_place(area: Rect, row: u16, col: u16) -> (int, int) {
    (
        area.x + least(col as int, less(area.width as int, 1)),
        area.y + least(row as int, less(area.height as int, 1)),
    )
}

/// The column and row of the cursor on the pane; none where the screen hides it.
pub fn pane_cursor(s: &Screen, area: Rect) -> (r: Option<(u16, u16)>)
    requires
        countable(area),
    ensures
        r is None <==> hides_cursor(*s),
        r matches Some(p) ==> (p.0 as int, p.1 as int) == cursor_place(
            area,
            cursor_on(*s).0,
            cursor_on(*s).1,
        ),
{
    if s.hide_cursor() {
        return None;
    }
    let (row, col) = s.cursor_position();
    Some(
        (
            area.x + min_u16(col, less_u16(area.width, 1)),
            area.y + min_u16(row, less_u16(area.height, 1)),
        ),
    )
}

proof fn lemma_row_drawn_inside(s: Screen, row: u16, n: nat, theme: Theme)
    requires
        n <= u16::MAX,
    ensures
        forall|i: int|
            0 <= i < row_drawn(s, row, n, theme).len() ==> (#[trigger] row_drawn(s, row, n, theme)[i]).col
                < n && row_drawn(s, row, n, theme)[i].row == row,
    decreases n,
{
    if n > 0 {
        lemma_row_drawn_inside(s, row, (n - 1) as nat, theme);
    }
}

/// Every cell that is drawn lies on the pane.
pub proof fn law_cells_stay_on_the_pane(s: Screen, width: u16, height: u16, theme: Theme, i: int)
    requires
        0 <= i < pane_drawn(s, width, height, theme).len(),
    ensures
        pane_drawn(s, width, height, theme)[i].col < width,
        pane_drawn(s, width, height, theme)[i].row < height,
{
    lemma_rows_drawn_inside(
        s,
        least(height as int, size_on(s).0 as int) as nat,
        least(width as int, size_on(s).1 as int) as nat,
        theme,
    );
}

proof fn lemma_rows_drawn_inside(s: Screen, n: nat, w: nat, theme: Theme)
    requires
        n <= u16::MAX,
        w <= u16::MAX,
    ensures
        forall|i: int|
            0 <= i < rows_drawn(s, n, w, theme).len() ==> (#[trigger] rows_drawn(s, n, w, theme)[i]).col
                < w && rows_drawn(s, n, w, theme)[i].row < n,
    decreases n,
{
    if n > 0 {
        lemma_rows_drawn_inside(s, (n - 1) as nat, w, theme);
        lemma_row_drawn_inside(s, (n - 1) as u16, w, theme);
    }
}

} // verus!
