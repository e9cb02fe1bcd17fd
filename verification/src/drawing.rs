//! Fitting things on the screen: rectangles, texts of a given width, and styles.

use crate::app::PrStatus;
use crate::layout::Rect;
use crate::text;
use crate::theme::{Color, Theme};
use unicode_width::UnicodeWidthChar;
use vstd::prelude::*;
use vstd::utf8::encode_utf8;

verus! {

// ---------------------------------------------------------------------------
// Rectangles
// ---------------------------------------------------------------------------

/// Whether the far edges of a rectangle can be counted.
pub open spec fn countable(r: Rect) -> bool {
    r.x + r.width <= u16::MAX && r.y + r.height <= u16::MAX
}

/// The smaller of two numbers.
pub open spec fn least(a: int, b: int) -> int {
    if a <= b {
        a
    } else {
        b
    }
}

/// `a` less `b`, but never below 0.
pub open spec fn less(a: int, b: int) -> int {
    if a >= b {
        a - b
    } else {
        0
    }
}

/// `n` held between `low` and `high`.
pub open spec fn held(n: int, low: int, high: int) -> int {
    if n < low {
        low
    } else if n > high {
        high
    } else {
        n
    }
}

/// The smaller of two numbers.
pub fn min_u16(a: u16, b: u16) -> (r: u16)
    ensures
        r == least(a as int, b as int),
{
    if a <= b {
        a
    } else {
        b
    }
}

/// `a` less `b`, but never below 0.
pub fn less_u16(a: u16, b: u16) -> (r: u16)
    ensures
        r == less(a as int, b as int),
{
    if a >= b {
        a - b
    } else {
        0
    }
}

/// `n` held between `low` and `high`.
pub fn held_u16(n: u16, low: u16, high: u16) -> (r: u16)
    ensures
        r == held(n as int, low as int, high as int),
{
    if n < low {
        low
    } else if n > high {
        high
    } else {
        n
    }
}

/// A rectangle of that size in the middle of the area, with at least a cell
/// round it where there is room.
pub open spec fn centered(width: u16, height: u16, area: Rect) -> Rect {
    let w = least(width as int, less(area.width as int, 2));
    let h = least(height as int, less(area.height as int, 2));
    Rect {
        x: (area.x + less(area.width as int, w) / 2) as u16,
        y: (area.y + less(area.height as int, h) / 2) as u16,
        width: w as u16,
        height: h as u16,
    }
}

/// A rectangle of that size in the middle of the area.
pub fn centered_rect(width: u16, height: u16, area: Rect) -> (r: Rect)
    requires
        countable(area),
    ensures
        r == centered(width, height, area),
{
    let w: u16 = min_u16(width, less_u16(area.width, 2));
    let h: u16 = min_u16(height, less_u16(area.height, 2));
    let x: u16 = area.x + less_u16(area.width, w) / 2;
    let y: u16 = area.y + less_u16(area.height, h) / 2;
    Rect::new(x, y, w, h)
}

/// A centered rectangle lies inside the area.
pub proof fn law_centered_lies_inside(width: u16, height: u16, area: Rect, col: u16, row: u16)
    requires
        countable(area),
        centered(width, height, area).has_cell(col, row),
    ensures
        area.has_cell(col, row),
{
}

/// So many lines of the area, half way down.
pub open spec fn half_way_down(area: Rect, lines: u16) -> Rect {
    Rect {
        x: area.x,
        y: (area.y + less(area.height as int, lines as int) / 2) as u16,
        width: area.width,
        height: least(lines as int, area.height as int) as u16,
    }
}

/// So many lines of the area, half way down.
pub fn vertical_center(area: Rect, lines: u16) -> (r: Rect)
    requires
        countable(area),
    ensures
        r == half_way_down(area, lines),
{
    let top: u16 = area.y + less_u16(area.height, lines) / 2;
    Rect::new(area.x, top, area.width, min_u16(lines, area.height))
}

// ---------------------------------------------------------------------------
// Texts
// ---------------------------------------------------------------------------

/// The columns that a character takes; 0 for one that takes none.
pub uninterp spec fn columns(c: char) -> usize;

/// `unicode_width::UnicodeWidthChar::width`, with 0 for a control character.
/// The contract says that the width is a function of the character, that it is
/// at most 3, and that printable ASCII takes one column.
#[verifier::external_body]
fn char_columns(c: char) -> (r: usize)
    ensures
        r == columns(c),
        r <= 3,
        ' ' <= c && c <= '~' ==> r == 1,
{
    UnicodeWidthChar::width(c).unwrap_or(0)
}

/// The columns that a text takes.
pub open spec fn text_columns(s: Seq<char>) -> nat
    decreases s.len(),
{
    if s.len() == 0 {
        0
    } else {
        text_columns(s.drop_last()) + columns(s.last()) as nat
    }
}

/// How many characters of `s` fit into `max` columns, of the first `n`.
pub open spec fn fitting(s: Seq<char>, max: nat, n: nat) -> nat
    decreases n,
{
    if n == 0 {
        0
    } else {
        let before = fitting(s, max, (n - 1) as nat);
        if before == n - 1 && text_columns(s.take(n as int)) <= max {
            n
        } else {
            before
        }
    }
}

/// The first `n` characters of `s`, fewer until a column is left free of `max`.
pub open spec fn with_room(s: Seq<char>, n: nat, max: nat) -> Seq<char>
    decreases n,
{
    if n > 0 && text_columns(s.take(n as int)) + 1 > max {
        with_room(s, (n - 1) as nat, max)
    } else {
        s.take(n as int)
    }
}

/// `s` cut to `max` columns: as it is where it fits, else with `…` in place of
/// the end.
pub open spec fn cut_to_columns(s: Seq<char>, max: nat) -> Seq<char> {
    let n = fitting(s, max, s.len());
    if n == s.len() {
        s
    } else {
        with_room(s, n, max).push('…')
    }
}

proof fn lemma_take_columns(s: Seq<char>, n: int)
    requires
        0 < n <= s.len(),
    ensures
        text_columns(s.take(n)) == text_columns(s.take(n - 1)) + columns(s[n - 1]),
{
    assert(s.take(n).drop_last() =~= s.take(n - 1));
    assert(s.take(n).last() == s[n - 1]);
}

proof fn lemma_fitting_stops(s: Seq<char>, max: nat, k: nat, n: nat)
    requires
        k < n <= s.len(),
        fitting(s, max, k) == k,
        text_columns(s.take(k as int + 1)) > max,
    ensures
        fitting(s, max, n) == k,
    decreases n,
{
    if n > k + 1 {
        lemma_fitting_stops(s, max, k, (n - 1) as nat);
    }
}

/// `s` cut to `max` columns. Counts columns, not chars — wide chars (CJK, emoji)
/// take 2 columns each and would otherwise overflow the rect they're being
/// truncated into.
pub fn truncate(s: &str, max: usize) -> (r: String)
    requires
        max < usize::MAX - 3,
    ensures
        r@ == cut_to_columns(s@, max as nat),
{
    let v = text::chars_of(s);
    let mut width: usize = 0;
    let mut i: usize = 0;
    assert(s@.take(0) =~= seq![]);
    while i < v.len()
        invariant
            i <= v.len(),
            v@ == s@,
            max < usize::MAX - 3,
            width <= max,
            width == text_columns(s@.take(i as int)),
            fitting(s@, max as nat, i as nat) == i,
        decreases v.len() - i,
    {
        let w: usize = char_columns(v[i]);
        proof {
            lemma_take_columns(s@, i + 1);
        }
        if width + w > max {
            proof {
                lemma_fitting_stops(s@, max as nat, i as nat, s@.len());
            }
            let mut n: usize = i;
            while n > 0 && width + 1 > max
                invariant
                    n <= i < v.len(),
                    v@ == s@,
                    max < usize::MAX - 3,
                    width <= max,
                    width == text_columns(s@.take(n as int)),
                    with_room(s@, i as nat, max as nat) == with_room(s@, n as nat, max as nat),
                decreases n,
            {
                proof {
                    lemma_take_columns(s@, n as int);
                }
                let last: usize = char_columns(v[n - 1]);
                width = width - last;
                n = n - 1;
            }
            let mut out = text::string_of(&v, 0, n);
            assert(out@ =~= s@.take(n as int));
            out.push('…');
            return out;
        }
        width = width + w;
        i += 1;
    }
    text::owned(s)
}

proof fn lemma_fitting_fits(s: Seq<char>, max: nat, n: nat)
    requires
        n <= s.len(),
    ensures
        fitting(s, max, n) <= n,
        text_columns(s.take(fitting(s, max, n) as int)) <= max,
    decreases n,
{
    if n == 0 {
        assert(s.take(0) =~= seq![]);
    } else {
        lemma_fitting_fits(s, max, (n - 1) as nat);
    }
}

proof fn lemma_with_room_leaves_room(s: Seq<char>, n: nat, max: nat)
    requires
        n <= s.len(),
        max >= 1,
    ensures
        text_columns(with_room(s, n, max)) + 1 <= max,
    decreases n,
{
    if n > 0 && text_columns(s.take(n as int)) + 1 > max {
        lemma_with_room_leaves_room(s, (n - 1) as nat, max);
    } else if n == 0 {
        assert(s.take(0) =~= seq![]);
    }
}

/// A text that is cut leaves a column for the `…`, and one that fits is not cut.
pub proof fn law_cut_texts_fit(s: Seq<char>, max: nat)
    requires
        max >= 1,
    ensures
        text_columns(s) <= max ==> cut_to_columns(s, max) == s,
        text_columns(s) > max ==> ({
            let t = cut_to_columns(s, max);
            t.len() > 0 && t.last() == '…' && text_columns(t.drop_last()) + 1 <= max
        }),
{
    lemma_fitting_fits(s, max, s.len());
    let n = fitting(s, max, s.len());
    assert(s.take(s.len() as int) =~= s);
    if n < s.len() {
        lemma_with_room_leaves_room(s, n, max);
        let p = with_room(s, n, max);
        assert(p.push('…').drop_last() =~= p);
    }
    if text_columns(s) <= max {
        lemma_all_fit(s, max, s.len());
    }
}

proof fn lemma_all_fit(s: Seq<char>, max: nat, n: nat)
    requires
        n <= s.len(),
        text_columns(s.take(n as int)) <= max,
    ensures
        fitting(s, max, n) == n,
    decreases n,
{
    if n > 0 {
        lemma_take_columns(s, n as int);
        lemma_all_fit(s, max, (n - 1) as nat);
    }
}

/// `s` cut to `max` characters, with `…` as the last of them.
pub open spec fn cut_to_chars(s: Seq<char>, max: nat) -> Seq<char> {
    if s.len() <= max {
        s
    } else if max == 0 {
        seq![]
    } else {
        s.take(max - 1).push('…')
    }
}

/// Truncate `s` to fit within `max_chars` columns. If truncated, the last
/// visible char is replaced with `…`.
pub fn truncate_to_width(s: &str, max_chars: usize) -> (r: String)
    ensures
        r@ == cut_to_chars(s@, max_chars as nat),
{
    let v = text::chars_of(s);
    if v.len() <= max_chars {
        return text::owned(s);
    }
    if max_chars == 0 {
        return String::new();
    }
    let mut out = text::string_of(&v, 0, max_chars - 1);
    assert(out@ =~= s@.take(max_chars - 1));
    out.push('…');
    out
}

/// A text cut to so many characters has no more.
pub proof fn law_cut_texts_are_short(s: Seq<char>, max: nat)
    ensures
        cut_to_chars(s, max).len() <= max,
{
}

/// `n` spaces.
pub open spec fn spaces(n: int) -> Seq<char> {
    Seq::new(
        if n > 0 {
            n as nat
        } else {
            0
        },
        |i: int| ' ',
    )
}

/// `s` filled up with spaces to `width` characters.
pub open spec fn filled(s: Seq<char>, width: int) -> Seq<char> {
    s + spaces(width - s.len())
}

/// `s` behind spaces that bring it to `width` characters.
pub open spec fn flush_right(s: Seq<char>, width: int) -> Seq<char> {
    spaces(width - s.len()) + s
}

fn push_spaces(out: &mut String, n: usize)
    ensures
        final(out)@ == old(out)@ + spaces(n as int),
{
    let mut i: usize = 0;
    assert(out@ =~= old(out)@ + spaces(0));
    while i < n
        invariant
            i <= n,
            out@ == old(out)@ + spaces(i as int),
        decreases n - i,
    {
        out.push(' ');
        assert(out@ =~= old(out)@ + spaces(i + 1));
        i += 1;
    }
}

/// `n` spaces.
pub fn blanks(n: usize) -> (r: String)
    ensures
        r@ == spaces(n as int),
{
    let mut s: String = String::new();
    push_spaces(&mut s, n);
    assert(s@ =~= spaces(n as int));
    s
}

/// `s` filled up with spaces to `width` characters.
pub fn pad_right(s: &str, width: usize) -> (r: String)
    ensures
        r@ == filled(s@, width as int),
{
    let n: usize = text::chars_of(s).len();
    let mut out = text::owned(s);
    if n < width {
        push_spaces(&mut out, width - n);
    } else {
        assert(out@ =~= filled(s@, width as int));
    }
    out
}

/// `s` behind spaces that bring it to `width` characters.
pub fn pad_left(s: &str, width: usize) -> (r: String)
    ensures
        r@ == flush_right(s@, width as int),
{
    let n: usize = text::chars_of(s).len();
    let mut out: String = String::new();
    if n < width {
        push_spaces(&mut out, width - n);
    }
    assert(out@ =~= spaces(width - s@.len()));
    out.push_str(s);
    out
}

/// The bytes that a text takes.
pub open spec fn byte_len(s: Seq<char>) -> usize {
    encode_utf8(s).len() as usize
}

/// The bytes that a text takes.
pub fn bytes_of(s: &str) -> (r: usize)
    ensures
        r == byte_len(s@),
{
    s.len()
}

/// The unit in which an amount of memory is shown.
#[derive(Copy, Clone, Debug, PartialEq, Eq, Structural)]
pub enum ByteUnit {
    Bytes,
    Kib,
    Mib,
    Gib,
}

/// The largest unit of which an amount holds at least one.
pub fn byte_unit(b: u64) -> (r: ByteUnit)
    ensures
        r == (if b >= 1_073_741_824 {
            ByteUnit::Gib
        } else if b >= 1_048_576 {
            ByteUnit::Mib
        } else if b >= 1024 {
            ByteUnit::Kib
        } else {
            ByteUnit::Bytes
        }),
{
    if b >= 1_073_741_824 {
        ByteUnit::Gib
    } else if b >= 1_048_576 {
        ByteUnit::Mib
    } else if b >= 1024 {
        ByteUnit::Kib
    } else {
        ByteUnit::Bytes
    }
}

// ---------------------------------------------------------------------------
// Styles
// ---------------------------------------------------------------------------

/// How a text is drawn.
#[derive(Copy, Clone, Debug, PartialEq, Eq, Structural)]
pub struct TextStyle {
    pub fg: Color,
    pub bg: Color,
    pub bold: bool,
}

/// How a row of the sidebar is drawn: the row under the cursor stands out, and
/// more so while the sidebar has the focus.
pub open spec fn row_style_of(
    theme: Theme,
    selected: bool,
    focused: bool,
    bold: bool,
    dim: bool,
) -> TextStyle {
    if selected && focused {
        TextStyle { fg: theme.selection_fg, bg: theme.selection_bg, bold: true }
    } else if selected {
        TextStyle { fg: theme.fg_dim, bg: theme.selection_bg, bold }
    } else {
        TextStyle {
            fg: if dim {
                theme.fg_dim
            } else {
                theme.fg
            },
            bg: theme.bg,
            bold,
        }
    }
}

/// How a row of the sidebar is drawn.
pub fn row_style(theme: &Theme, selected: bool, focused: bool, bold: bool, dim: bool) -> (r:
    TextStyle)
    ensures
        r == row_style_of(*theme, selected, focused, bold, dim),
{
    if selected && focused {
        TextStyle { fg: theme.selection_fg, bg: theme.selection_bg, bold: true }
    } else if selected {
        TextStyle { fg: theme.fg_dim, bg: theme.selection_bg, bold }
    } else {
        TextStyle {
            fg: if dim {
                theme.fg_dim
            } else {
                theme.fg
            },
            bg: theme.bg,
            bold,
        }
    }
}

/// The color that stands for a PR status; dim where there is none.
pub open spec fn shade(theme: Theme, status: Option<PrStatus>) -> Color {
    match status {
        Some(PrStatus::Merged) => theme.status_changes,
        Some(PrStatus::ChangesRequested) => theme.status_error,
        Some(PrStatus::Failed) => theme.status_error,
        Some(PrStatus::Running) => theme.status_running,
        Some(PrStatus::Approved) => theme.status_approved,
        Some(PrStatus::Open) => theme.status_ok,
        None => theme.fg_dim,
    }
}

/// The color that stands for a PR status.
pub fn status_color(theme: &Theme, status: Option<PrStatus>) -> (r: Color)
    ensures
        r == shade(*theme, status),
{
    match status {
        Some(PrStatus::Merged) => theme.status_changes,
        Some(PrStatus::ChangesRequested) | Some(PrStatus::Failed) => theme.status_error,
        Some(PrStatus::Running) => theme.status_running,
        Some(PrStatus::Approved) => theme.status_approved,
        Some(PrStatus::Open) => theme.status_ok,
        None => theme.fg_dim,
    }
}

} // verus!
