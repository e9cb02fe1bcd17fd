//! Where the popups lie, and what their rows say.

use crate::app::{local_id, AppModel, CompletionModel, InputModel, LaunchEntryModel, PaletteModel};
use crate::config::{first_free, numbered};
use crate::drawing::{
    byte_len, centered, countable, cut_to_chars, half_way_down, row_style_of,
};
use crate::event::{KeyCode, KeyModifiers};
use crate::help::help_footer;
use crate::keybinds::{canonical_of, leading_mod, token_chord};
use crate::layout::Rect;
use crate::overlays::{
    completion_place, completion_row, edit_place, help_place, input_column, input_place,
    launch_place, leader_place, open_place, palette_place, palette_row,
    usage_place, widest_description, widest_hint, widest_label, widest_name,
};
use crate::proxy::back_by;
use crate::render::{header_line, header_text};
use crate::text;
use crate::theme::Theme;
use vstd::prelude::*;

verus! {

// ---------------------------------------------------------------------------
// Where the popups lie
// ---------------------------------------------------------------------------

/// Whether `inner` has as many free columns at its left as at its right, or one fewer.
pub open spec fn in_the_middle(inner: Rect, area: Rect) -> bool {
    let left = inner.x - area.x;
    let right = area.x + area.width - (inner.x + inner.width);
    0 <= left <= right <= left + 1
}

/// Whether `inner` has as many free rows above it as below it, or one fewer.
pub open spec fn half_way(inner: Rect, area: Rect) -> bool {
    let above = inner.y - area.y;
    let below = area.y + area.height - (inner.y + inner.height);
    0 <= above <= below <= above + 1
}

/// What is centered has the size that was asked for, but leaves a cell free on each
/// side; and it is in the middle.
pub proof fn law_centered_is_in_the_middle(width: u16, height: u16, area: Rect)
    requires
        countable(area),
        area.width >= 2,
        area.height >= 2,
    ensures
        in_the_middle(centered(width, height, area), area),
        half_way(centered(width, height, area), area),
        width + 2 <= area.width ==> centered(width, height, area).width == width,
        width + 2 > area.width ==> centered(width, height, area).width == area.width - 2,
        height + 2 <= area.height ==> centered(width, height, area).height == height,
        height + 2 > area.height ==> centered(width, height, area).height == area.height - 2,
{
}

/// Every popup with a size of its own is in the middle, as large as it may grow where
/// there is room, and else leaves the screen's edges free.
pub proof fn law_popups_are_in_the_middle(area: Rect)
    requires
        countable(area),
        area.width >= 2,
        area.height >= 2,
    ensures
        in_the_middle(open_place(area), area) && half_way(open_place(area), area),
        in_the_middle(usage_place(area), area) && half_way(usage_place(area), area),
        in_the_middle(edit_place(area), area) && half_way(edit_place(area), area),
        in_the_middle(help_place(area), area) && half_way(help_place(area), area),
        area.width >= 74 ==> open_place(area).width == 70,
        4 <= area.width < 74 ==> open_place(area).width == area.width - 4,
        area.height >= 20 ==> open_place(area).height == 16,
        4 <= area.height < 20 ==> open_place(area).height == area.height - 4,
        area.width >= 126 ==> usage_place(area).width == 120,
        66 <= area.width < 126 ==> usage_place(area).width == area.width - 6,
        62 <= area.width < 66 ==> usage_place(area).width == 60,
        area.width < 62 ==> usage_place(area).width == area.width - 2,
        area.height >= 34 ==> usage_place(area).height == 30,
        16 <= area.height < 34 ==> usage_place(area).height == area.height - 4,
        area.width >= 108 ==> edit_place(area).width == 100,
        48 <= area.width < 108 ==> edit_place(area).width == area.width - 8,
        area.height >= 28 ==> edit_place(area).height == 24,
        12 <= area.height < 28 ==> edit_place(area).height == area.height - 4,
        area.width >= 82 ==> help_place(area).width == 78,
        4 <= area.width < 82 ==> help_place(area).width == area.width - 4,
        area.height >= 40 ==> help_place(area).height == 36,
        16 <= area.height < 40 ==> help_place(area).height == area.height - 4,
{
}

proof fn lemma_widest_hint(hints: Seq<(Seq<char>, Seq<char>)>, n: nat)
    requires
        0 < n <= hints.len(),
    ensures
        forall|i: int|
            0 <= i < n ==> (#[trigger] hints[i]).0.len() + 3 + hints[i].1.len() <= widest_hint(
                hints,
                n,
            ),
        exists|i: int|
            0 <= i < n && (#[trigger] hints[i]).0.len() + 3 + hints[i].1.len() == widest_hint(
                hints,
                n,
            ),
    decreases n,
{
    reveal_with_fuel(widest_hint, 2);
    if n > 1 {
        lemma_widest_hint(hints, (n - 1) as nat);
        let i = choose|i: int|
            0 <= i < n - 1 && (#[trigger] hints[i]).0.len() + 3 + hints[i].1.len() == widest_hint(
                hints,
                (n - 1) as nat,
            );
        assert(hints[i].0.len() >= 0);
        assert(hints[n - 1].0.len() >= 0);
    } else {
        assert(hints[0].0.len() >= 0);
    }
}

/// The leader menu lies at the bottom right, a column and two rows from the edge. It has
/// a row for every hint and three more, and it is four columns wider than the longest
/// hint, but never larger than the screen less two. Without hints there is none.
pub proof fn law_the_leader_menu_lies_at_the_bottom_right(
    area: Rect,
    hints: Seq<(Seq<char>, Seq<char>)>,
)
    requires
        countable(area),
        area.width >= 3,
        area.height >= 4,
    ensures
        hints.len() == 0 <==> leader_place(area, hints) is None,
        leader_place(area, hints) matches Some(r) ==> {
            &&& r.x + r.width + 1 == area.x + area.width
            &&& r.y + r.height + 2 == area.y + area.height
            &&& hints.len() + 5 <= area.height ==> r.height == hints.len() + 3
            &&& hints.len() + 5 > area.height ==> r.height == area.height - 2
            &&& r.width <= area.width - 2
            &&& r.width == area.width - 2 || forall|i: int|
                0 <= i < hints.len() ==> (#[trigger] hints[i]).0.len() + hints[i].1.len() + 7
                    <= r.width
            &&& exists|i: int|
                0 <= i < hints.len() && (#[trigger] hints[i]).0.len() + hints[i].1.len() + 7
                    >= r.width
        },
{
    if hints.len() > 0 {
        lemma_widest_hint(hints, hints.len());
    }
}

proof fn lemma_widest_label(entries: Seq<LaunchEntryModel>, n: nat)
    requires
        0 < n <= entries.len(),
    ensures
        forall|i: int|
            0 <= i < n ==> byte_len((#[trigger] entries[i]).label) <= widest_label(entries, n),
        exists|i: int|
            0 <= i < n && byte_len((#[trigger] entries[i]).label) == widest_label(entries, n),
    decreases n,
{
    reveal_with_fuel(widest_label, 2);
    if n > 1 {
        lemma_widest_label(entries, (n - 1) as nat);
        let i = choose|i: int|
            0 <= i < n - 1 && byte_len((#[trigger] entries[i]).label) == widest_label(
                entries,
                (n - 1) as nat,
            );
        assert(byte_len(entries[i].label) >= 0);
        assert(byte_len(entries[n - 1].label) >= 0);
    } else {
        assert(byte_len(entries[0].label) >= 0);
    }
}

/// The launcher picker is in the middle. It has a row for every launcher and four more,
/// from six up to twenty-four, and every label has eight columns to spare unless the
/// picker has grown to its eighty columns; all as far as the screen has room.
pub proof fn law_the_picker_has_room_for_its_launchers(
    area: Rect,
    entries: Seq<LaunchEntryModel>,
)
    requires
        countable(area),
        area.width >= 84,
        area.height >= 28,
    ensures
        in_the_middle(launch_place(area, entries), area),
        half_way(launch_place(area, entries), area),
        2 <= entries.len() <= 20 ==> launch_place(area, entries).height == entries.len() + 4,
        entries.len() < 2 ==> launch_place(area, entries).height == 6,
        entries.len() > 20 ==> launch_place(area, entries).height == 24,
        28 <= launch_place(area, entries).width <= 80,
        launch_place(area, entries).width == 80 || forall|i: int|
            0 <= i < entries.len() ==> byte_len((#[trigger] entries[i]).label) + 8
                <= launch_place(area, entries).width,
        entries.len() > 0 ==> launch_place(area, entries).width == 28 || exists|i: int|
            0 <= i < entries.len() && byte_len((#[trigger] entries[i]).label) + 8
                >= launch_place(area, entries).width,
{
    if entries.len() > 0 {
        lemma_widest_label(entries, entries.len());
    }
}

/// The palette is in the middle of the columns, and its top edge stands a sixth down the
/// screen. It has a row for every match and five more, from seven up to twenty-four.
pub proof fn law_the_palette_has_room_for_its_matches(area: Rect, matches: nat)
    requires
        countable(area),
        area.width >= 76,
        area.height >= 32,
    ensures
        in_the_middle(palette_place(area, matches), area),
        palette_place(area, matches).width == 72,
        6 * (palette_place(area, matches).y - area.y) <= area.height,
        6 * (palette_place(area, matches).y - area.y + 1) > area.height,
        2 <= matches <= 19 ==> palette_place(area, matches).height == matches + 5,
        matches < 2 ==> palette_place(area, matches).height == 7,
        matches > 19 ==> palette_place(area, matches).height == 24,
{
}

/// An input popup is five rows high and in the middle. Its width grows with what is typed:
/// prompt, input and ten columns more, and never less than forty.
pub proof fn law_an_input_popup_grows_with_its_input(area: Rect, p: InputModel)
    requires
        countable(area),
        area.width >= 44,
        area.height >= 7,
        byte_len(p.prompt) + byte_len(p.buffer) + 10 <= area.width - 4,
        byte_len(p.title) + 6 <= area.width - 4,
    ensures
        in_the_middle(input_place(area, p), area),
        half_way(input_place(area, p), area),
        input_place(area, p).height == 5,
        input_place(area, p).width >= 40,
        input_place(area, p).width >= byte_len(p.prompt) + byte_len(p.buffer) + 10,
        input_place(area, p).width >= byte_len(p.title) + 6,
        input_place(area, p).width == 40 || input_place(area, p).width == byte_len(p.prompt)
            + byte_len(p.buffer) + 10 || input_place(area, p).width == byte_len(p.title) + 6,
{
}

/// The cursor of an input popup stands behind the prompt, and goes one column further for
/// each character that is typed.
pub proof fn law_the_input_cursor_follows_the_input(inner: Rect, p: InputModel, c: char)
    ensures
        p.buffer.len() == 0 ==> input_column(inner, p) == inner.x + p.prompt.len() + 3,
        input_column(inner, (InputModel { buffer: p.buffer.push(c), ..p })) == input_column(
            inner,
            p,
        ) + 1,
{
}

proof fn lemma_widest_completion(matches: Seq<(Seq<char>, Seq<char>)>, n: nat)
    requires
        n <= matches.len(),
    ensures
        forall|i: int|
            0 <= i < n ==> byte_len((#[trigger] matches[i]).0) <= widest_name(matches, n)
                && byte_len(matches[i].1) <= widest_description(matches, n),
    decreases n,
{
    if n > 0 {
        lemma_widest_completion(matches, (n - 1) as nat);
    }
}

/// The completions end right above the action bar and start at its left. They have a row
/// each, up to eight rows, and where the bar is wide enough every name and description
/// has its columns. There are none without matches.
pub proof fn law_completions_lie_above_the_bar(bar: Rect, c: CompletionModel)
    requires
        bar.y >= 8,
        bar.width >= 20,
    ensures
        c.matches.len() == 0 <==> completion_place(bar, c) is None,
        completion_place(bar, c) matches Some(r) ==> {
            &&& r.x == bar.x
            &&& r.y + r.height == bar.y
            &&& c.matches.len() <= 8 ==> r.height == c.matches.len()
            &&& c.matches.len() > 8 ==> r.height == 8
            &&& 20 <= r.width <= bar.width
            &&& r.width == bar.width || forall|i: int|
                0 <= i < c.matches.len() ==> byte_len((#[trigger] c.matches[i]).0) + byte_len(
                    c.matches[i].1,
                ) + 4 <= r.width
        },
{
    lemma_widest_completion(c.matches, c.matches.len());
}

// ---------------------------------------------------------------------------
// What the rows say
// ---------------------------------------------------------------------------

/// A completion's row has a colon, the name and then spaces; the description follows. Only
/// the selected match is marked.
pub proof fn law_completion_rows_name_their_command(c: CompletionModel, i: int)
    requires
        0 <= i < c.matches.len() <= usize::MAX,
    ensures
        ({
            let (name, description, selected) = completion_row(c, i);
            let n = c.matches[i].0;
            &&& name.take(2 + n.len() as int) == seq![' ', ':'] + n
            &&& forall|k: int| 2 + n.len() <= k < name.len() ==> #[trigger] name[k] == ' '
            &&& description == c.matches[i].1.push(' ')
            &&& selected <==> (c.selected is Some && c.selected->Some_0 == i)
        }),
{
    reveal_strlit(" :");
    reveal_strlit("  ");
    reveal_strlit(" ");
    let (name, description, selected) = completion_row(c, i);
    let n = c.matches[i].0;
    assert(name.take(2 + n.len() as int) =~= seq![' ', ':'] + n);
    assert(description =~= c.matches[i].1.push(' '));
}

/// A row of the palette says the name of its match and, behind two spaces, its keys; the
/// row under the cursor, and no other, has the pointer.
pub proof fn law_palette_rows_show_the_matches(p: PaletteModel, width: u16, i: int)
    requires
        0 <= i < p.filtered.len(),
        p.filtered[i] < p.entries.len(),
    ensures
        ({
            let row = palette_row(p, width, i);
            let e = p.entries[p.filtered[i] as int];
            &&& row.selected == (i == p.cursor)
            &&& row.head.len() >= 2 + e.name.len()
            &&& row.head.subrange(2, 2 + e.name.len() as int) == e.name
            &&& (row.head[0] == '▸') == (i == p.cursor)
            &&& forall|k: int|
                2 + e.name.len() <= k < row.head.len() ==> #[trigger] row.head[k] == ' '
            &&& e.keybind is None ==> row.tag.len() == 0
            &&& (e.keybind matches Some(b) ==> row.tag == seq![' ', ' '] + b)
            &&& row.detail.len() > 0
            &&& row.detail[0] == ' '
        }),
{
    reveal_strlit("▸ ");
    reveal_strlit("  ");
    reveal_strlit(" ");
    let row = palette_row(p, width, i);
    let e = p.entries[p.filtered[i] as int];
    assert(row.head.subrange(2, 2 + e.name.len() as int) =~= e.name);
}

/// A row of the sidebar has the selection's background where the cursor is on it and the
/// theme's elsewhere. With the focus the row under the cursor is bold in the selection's
/// color; a row that is not there to be used is dim.
pub proof fn law_the_row_under_the_cursor_stands_out(
    theme: Theme,
    selected: bool,
    focused: bool,
    bold: bool,
    dim: bool,
)
    ensures
        selected ==> row_style_of(theme, selected, focused, bold, dim).bg == theme.selection_bg,
        !selected ==> row_style_of(theme, selected, focused, bold, dim).bg == theme.bg,
        selected && focused ==> {
            &&& row_style_of(theme, selected, focused, bold, dim).fg == theme.selection_fg
            &&& row_style_of(theme, selected, focused, bold, dim).bold
        },
        !(selected && focused) ==> row_style_of(theme, selected, focused, bold, dim).bold == bold,
        selected && !focused ==> row_style_of(theme, selected, focused, bold, dim).fg
            == theme.fg_dim,
        !selected ==> row_style_of(theme, selected, focused, bold, dim).fg == (if dim {
            theme.fg_dim
        } else {
            theme.fg
        }),
{
}

// ---------------------------------------------------------------------------
// Names
// ---------------------------------------------------------------------------

/// The name of a key, in any case.
pub open spec fn spells(t: Seq<char>, word: Seq<char>) -> bool {
    text::lower_ascii(t) == word
}

/// In brackets a key goes by its name, in any case, or by its other names.
pub proof fn law_keys_go_by_their_names(t: Seq<char>, m: KeyModifiers)
    ensures
        spells(t, "space"@) ==> token_chord(t, m) == Some(canonical_of(m, KeyCode::Char(' '))),
        spells(t, "cr"@) || spells(t, "enter"@) || spells(t, "return"@) ==> token_chord(t, m)
            == Some(canonical_of(m, KeyCode::Enter)),
        spells(t, "tab"@) ==> token_chord(t, m) == Some(canonical_of(m, KeyCode::Tab)),
        spells(t, "bs"@) || spells(t, "backspace"@) ==> token_chord(t, m) == Some(
            canonical_of(m, KeyCode::Backspace),
        ),
        spells(t, "esc"@) || spells(t, "escape"@) ==> token_chord(t, m) == Some(
            canonical_of(m, KeyCode::Esc),
        ),
        spells(t, "up"@) ==> token_chord(t, m) == Some(canonical_of(m, KeyCode::Up)),
        spells(t, "down"@) ==> token_chord(t, m) == Some(canonical_of(m, KeyCode::Down)),
        spells(t, "left"@) ==> token_chord(t, m) == Some(canonical_of(m, KeyCode::Left)),
        spells(t, "right"@) ==> token_chord(t, m) == Some(canonical_of(m, KeyCode::Right)),
        spells(t, "home"@) ==> token_chord(t, m) == Some(canonical_of(m, KeyCode::Home)),
        spells(t, "end"@) ==> token_chord(t, m) == Some(canonical_of(m, KeyCode::End)),
        spells(t, "pageup"@) || spells(t, "pgup"@) ==> token_chord(t, m) == Some(
            canonical_of(m, KeyCode::PageUp),
        ),
        spells(t, "pagedown"@) || spells(t, "pgdn"@) ==> token_chord(t, m) == Some(
            canonical_of(m, KeyCode::PageDown),
        ),
        spells(t, "lt"@) ==> token_chord(t, m) == Some(canonical_of(m, KeyCode::Char('<'))),
        spells(t, "gt"@) ==> token_chord(t, m) == Some(canonical_of(m, KeyCode::Char('>'))),
        spells(t, "bslash"@) || spells(t, "bs2"@) ==> token_chord(t, m) == Some(
            canonical_of(m, KeyCode::Char('\\')),
        ),
        t.len() == 1 ==> token_chord(t, m) == Some(canonical_of(m, KeyCode::Char(t[0]))),
{
    reveal_strlit("space");
    reveal_strlit("cr");
    reveal_strlit("enter");
    reveal_strlit("return");
    reveal_strlit("tab");
    reveal_strlit("bs");
    reveal_strlit("backspace");
    reveal_strlit("esc");
    reveal_strlit("escape");
    reveal_strlit("up");
    reveal_strlit("down");
    reveal_strlit("left");
    reveal_strlit("right");
    reveal_strlit("home");
    reveal_strlit("end");
    reveal_strlit("pageup");
    reveal_strlit("pgup");
    reveal_strlit("pagedown");
    reveal_strlit("pgdn");
    reveal_strlit("lt");
    reveal_strlit("gt");
    reveal_strlit("bslash");
    reveal_strlit("bs2");
    assert("space"@[0] == 's' && "space"@[1] == 'p');
    assert("cr"@[0] == 'c' && "cr"@[1] == 'r');
    assert("enter"@[0] == 'e' && "enter"@[1] == 'n');
    assert("return"@[0] == 'r' && "return"@[1] == 'e');
    assert("tab"@[0] == 't' && "tab"@[1] == 'a');
    assert("bs"@[0] == 'b' && "bs"@[1] == 's');
    assert("backspace"@[0] == 'b' && "backspace"@[1] == 'a');
    assert("esc"@[0] == 'e' && "esc"@[1] == 's');
    assert("escape"@[0] == 'e' && "escape"@[1] == 's');
    assert("up"@[0] == 'u' && "up"@[1] == 'p');
    assert("down"@[0] == 'd' && "down"@[1] == 'o');
    assert("left"@[0] == 'l' && "left"@[1] == 'e');
    assert("right"@[0] == 'r' && "right"@[1] == 'i');
    assert("home"@[0] == 'h' && "home"@[1] == 'o');
    assert("end"@[0] == 'e' && "end"@[1] == 'n');
    assert("pageup"@[0] == 'p' && "pageup"@[1] == 'a');
    assert("pgup"@[0] == 'p' && "pgup"@[1] == 'g');
    assert("pagedown"@[0] == 'p' && "pagedown"@[1] == 'a');
    assert("pgdn"@[0] == 'p' && "pgdn"@[1] == 'g');
    assert("lt"@[0] == 'l' && "lt"@[1] == 't');
    assert("gt"@[0] == 'g' && "gt"@[1] == 't');
    assert("bslash"@[0] == 'b' && "bslash"@[1] == 's');
    assert("bs2"@[0] == 'b' && "bs2"@[1] == 's');
    assert("pgup"@[2] == 'u' && "pgdn"@[2] == 'd' && "bs2"@[2] == '2');
    let s = text::lower_ascii(t);
    assert(s.len() == t.len());
    if t.len() >= 2 {
        assert(s[1] == text::lower_char(t[1]));
        if s[1] != '-' {
            assert(leading_mod(t) is None);
        }
    }
    if t.len() == 1 {
        assert(s.skip(1) =~= Seq::<char>::empty());
    }
}

/// `C-`, `S-` and `A-` or `M-`, in either case, hold Control, Shift and Alt down for what
/// follows them.
pub proof fn law_modifiers_go_in_front_of_the_key(t: Seq<char>, m: KeyModifiers)
    ensures
        token_chord(seq!['C', '-'] + t, m) == token_chord(t, (KeyModifiers { control: true, ..m })),
        token_chord(seq!['c', '-'] + t, m) == token_chord(t, (KeyModifiers { control: true, ..m })),
        token_chord(seq!['S', '-'] + t, m) == token_chord(t, (KeyModifiers { shift: true, ..m })),
        token_chord(seq!['s', '-'] + t, m) == token_chord(t, (KeyModifiers { shift: true, ..m })),
        token_chord(seq!['A', '-'] + t, m) == token_chord(t, (KeyModifiers { alt: true, ..m })),
        token_chord(seq!['a', '-'] + t, m) == token_chord(t, (KeyModifiers { alt: true, ..m })),
        token_chord(seq!['M', '-'] + t, m) == token_chord(t, (KeyModifiers { alt: true, ..m })),
        token_chord(seq!['m', '-'] + t, m) == token_chord(t, (KeyModifiers { alt: true, ..m })),
{
    assert((seq!['C', '-'] + t).skip(2) =~= t);
    assert((seq!['c', '-'] + t).skip(2) =~= t);
    assert((seq!['S', '-'] + t).skip(2) =~= t);
    assert((seq!['s', '-'] + t).skip(2) =~= t);
    assert((seq!['A', '-'] + t).skip(2) =~= t);
    assert((seq!['a', '-'] + t).skip(2) =~= t);
    assert((seq!['M', '-'] + t).skip(2) =~= t);
    assert((seq!['m', '-'] + t).skip(2) =~= t);
}

/// A slug that was found is free. The base itself is taken where it is free; else a
/// number from two on stands behind it, and with a smaller one it is taken.
pub proof fn law_found_slugs_are_free(
    base: Seq<char>,
    taken: Seq<Seq<char>>,
    slug: Seq<char>,
    m: nat,
)
    requires
        first_free(base, taken, slug),
    ensures
        !taken.contains(slug),
        !taken.contains(base) ==> slug == base,
        taken.contains(base) ==> slug != base && exists|n: nat|
            2 <= n && slug == #[trigger] numbered(base, n) && (2 <= m < n ==> taken.contains(
                numbered(base, m),
            )),
{
    if taken.contains(base) {
        let n = choose|n: nat|
            2 <= n && slug == #[trigger] numbered(base, n) && !taken.contains(numbered(base, n))
                && forall|k: nat| 2 <= k < n ==> taken.contains(#[trigger] numbered(base, k));
        assert(slug == numbered(base, n));
    }
}

// ---------------------------------------------------------------------------
// Looking back
// ---------------------------------------------------------------------------

/// Scrolling back moves away from the present by as many lines as were asked for, scrolling
/// forward by as many takes it back, and the present is as far as it goes.
pub proof fn law_scrolling_forward_undoes_scrolling_back(now: usize, lines: nat)
    requires
        now + lines <= usize::MAX,
    ensures
        back_by(now, lines as int) == now + lines,
        back_by(back_by(now, lines as int), -(lines as int)) == now,
        lines >= now ==> back_by(now, -(lines as int)) == 0,
        lines <= now ==> back_by(now, -(lines as int)) == now - lines,
{
}

/// The footer of a help page that does not fit counts its positions from one up to the
/// last.
pub proof fn law_the_help_footer_counts_from_one(scroll: int, last: int)
    requires
        0 <= scroll <= last,
        0 < last,
    ensures
        exists|front: Seq<char>, back: Seq<char>|
            help_footer(scroll, last) == #[trigger] (front + text::decimal((scroll + 1) as nat)
                + seq!['/'] + text::decimal((last + 1) as nat) + back),
{
    reveal_strlit("/");
    let front = " j/k or ↑↓ or wheel · "@;
    let back = " · Esc close"@;
    assert("/"@ =~= seq!['/']);
    assert(help_footer(scroll, last) == front + text::decimal((scroll + 1) as nat) + seq!['/']
        + text::decimal((last + 1) as nat) + back);
}

/// A project's row is bold and says its text, cut to the columns there are. It is dim just
/// where its supervisor is a remote that is not connected, and it stands out just where the
/// cursor is on the project itself.
pub proof fn law_project_rows_are_dim_without_their_remote(m: AppModel, i: int, max: nat)
    requires
        0 <= i < m.projects.len() <= usize::MAX,
        m.theme.bg != m.theme.selection_bg,
    ensures
        ({
            let p = m.projects[i];
            let row = header_line(m, i, max);
            let there = p.supervisor == local_id() || m.supervisors.connected.contains(
                p.supervisor,
            );
            let under = m.sidebar_selection == Some((i as usize, None::<usize>));
            &&& row.text == cut_to_chars(header_text(m, p), max)
            &&& row.bar is None
            &&& row.style.bold
            &&& under <==> row.style.bg == m.theme.selection_bg
            &&& !under && there ==> row.style.fg == m.theme.fg
            &&& !under && !there ==> row.style.fg == m.theme.fg_dim
            &&& under && m.ui_focus is Sidebar ==> row.style.fg == m.theme.selection_fg
        }),
{
}

/// Lines that are put half way down have as many rows above them as below, or one fewer,
/// and all the columns.
pub proof fn law_lines_are_put_half_way_down(area: Rect, lines: u16)
    requires
        countable(area),
    ensures
        half_way(half_way_down(area, lines), area),
        half_way_down(area, lines).x == area.x,
        half_way_down(area, lines).width == area.width,
        lines <= area.height ==> half_way_down(area, lines).height == lines,
        lines > area.height ==> half_way_down(area, lines).height == area.height,
{
}

} // verus!
