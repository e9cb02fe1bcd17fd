//! A multi-line edit box, held by the ratatui-textarea crate.

use crate::event::{KeyCode, KeyEvent};
use crate::text;
use ratatui_textarea::{Input, Key, TextArea};
use vstd::prelude::*;

verus! {

/// A multi-line edit box.
#[verifier::external_body]
pub struct EditBox {
    /// The crate's own widget, for drawing.
    pub area: TextArea<'static>,
}

/// The lines in an edit box.
pub uninterp spec fn box_lines(b: EditBox) -> Seq<Seq<char>>;

/// Where the cursor of an edit box stands: its line, and how many characters of
/// the line stand before it.
pub uninterp spec fn box_cursor(b: EditBox) -> (int, int);

/// Where the selection in an edit box began, if there is one; it ends at the
/// cursor.
pub uninterp spec fn box_anchor(b: EditBox) -> Option<(int, int)>;

/// The text that an edit box pastes, line by line.
pub uninterp spec fn box_yank(b: EditBox) -> Seq<Seq<char>>;

/// The edits that an edit box can undo, the next one last, each with the text
/// before it.
pub uninterp spec fn box_undo(b: EditBox) -> Seq<BoxEdit>;

/// The edits that an edit box can redo, the next one last, each with the text
/// behind it.
pub uninterp spec fn box_redo(b: EditBox) -> Seq<BoxEdit>;

/// The text that an edit box was given to show while it is empty.
pub uninterp spec fn box_placeholder(b: EditBox) -> Seq<char>;

/// An edit that is remembered: the text that undoing or redoing it gives back,
/// where the cursor then stands once it is undone, and where once it is redone.
pub struct BoxEdit {
    pub lines: Seq<Seq<char>>,
    pub before: (int, int),
    pub after: (int, int),
}

/// What an edit box holds.
#[verifier::ext_equal]
pub struct BoxModel {
    pub lines: Seq<Seq<char>>,
    pub cursor: (int, int),
    pub anchor: Option<(int, int)>,
    pub yank: Seq<Seq<char>>,
    pub undo: Seq<BoxEdit>,
    pub redo: Seq<BoxEdit>,
    pub placeholder: Seq<char>,
}

impl View for EditBox {
    type V = BoxModel;

    open spec fn view(&self) -> BoxModel {
        BoxModel {
            lines: box_lines(*self),
            cursor: box_cursor(*self),
            anchor: box_anchor(*self),
            yank: box_yank(*self),
            undo: box_undo(*self),
            redo: box_redo(*self),
            placeholder: box_placeholder(*self),
        }
    }
}

/// A box with the given lines, its cursor at the start: one empty line where
/// there are none. Nothing is selected, nothing to be pasted, undone or redone, and
/// nothing is shown while it is empty.
pub open spec fn fresh_box(lines: Seq<Seq<char>>) -> BoxModel {
    BoxModel {
        lines: if lines.len() == 0 {
            seq![Seq::<char>::empty()]
        } else {
            lines
        },
        cursor: (0, 0),
        anchor: None,
        yank: seq![Seq::<char>::empty()],
        undo: seq![],
        redo: seq![],
        placeholder: seq![],
    }
}

/// An empty box that shows `shown` while it is empty.
pub open spec fn empty_box(shown: Seq<char>) -> BoxModel {
    BoxModel { placeholder: shown, ..fresh_box(seq![]) }
}

/// Whether no line holds a line break.
pub open spec fn one_line_each(lines: Seq<String>) -> bool {
    forall|i: int| 0 <= i < lines.len() ==> !(#[trigger] lines[i])@.contains('\n')
}

/// `ratatui_textarea::TextArea::new`: a box with the given lines, or with one
/// empty line where there are none; the cursor stands at its start, nothing is
/// selected, there is nothing to be pasted, undone or redone, and nothing is shown
/// while the box is empty.
#[verifier::external_body]
fn new_area(lines: Vec<String>) -> (r: EditBox)
    requires
        one_line_each(lines@),
    ensures
        box_lines(r) == fresh_box(text::texts(lines@)).lines,
        box_cursor(r) == (0int, 0int),
        box_anchor(r) is None,
        box_yank(r) == seq![Seq::<char>::empty()],
        box_undo(r) == Seq::<BoxEdit>::empty(),
        box_redo(r) == Seq::<BoxEdit>::empty(),
        box_placeholder(r) == Seq::<char>::empty(),
{
    EditBox { area: TextArea::new(lines) }
}

/// `ratatui_textarea::TextArea::set_placeholder_text` gives the box a text to show
/// while it is empty; what the box holds stays.
#[verifier::external_body]
fn set_placeholder(b: &mut EditBox, shown: &str)
    ensures
        box_placeholder(*final(b)) == shown@,
        final(b)@ == (BoxModel { placeholder: shown@, ..old(b)@ }),
{
    b.area.set_placeholder_text(shown);
}

/// `ratatui_textarea::TextArea::set_cursor_line_style` with the plain style: how
/// the cursor's line is drawn; what the box holds stays.
#[verifier::external_body]
fn set_plain_cursor_line(b: &mut EditBox)
    ensures
        final(b)@ == old(b)@,
{
    b.area.set_cursor_line_style(ratatui::style::Style::default());
}

/// `ratatui_textarea::TextArea::lines`: the lines of the box.
#[verifier::external_body]
fn area_lines(b: &EditBox) -> (r: Vec<String>)
    ensures
        text::texts(r@) == b@.lines,
{
    b.area.lines().to_vec()
}

/// A key as the edit box takes it.
#[derive(Copy, Clone, Debug, PartialEq, Eq, Structural)]
pub enum BoxKey {
    Char(char),
    Backspace,
    Enter,
    Left,
    Right,
    Up,
    Down,
    Tab,
    Delete,
    Home,
    End,
    PageUp,
    PageDown,
    Esc,
    F(u8),
    Null,
}

/// A keystroke as the edit box takes it.
#[derive(Copy, Clone, Debug, PartialEq, Eq, Structural)]
pub struct BoxInput {
    pub key: BoxKey,
    pub ctrl: bool,
    pub alt: bool,
    pub shift: bool,
}

/// What a keystroke does in the edit box.
pub enum BoxDeed {
    /// Puts a text in at the cursor, in place of the selection: one line of it,
    /// or two halves of a broken line.
    Put(Seq<Seq<char>>),
    /// Puts in spaces up to the next tab stop.
    Tab,
    /// Takes out the character before the cursor.
    EraseBack,
    /// Takes out the character behind the cursor.
    EraseNext,
    /// Takes out the rest of the line.
    EraseToEnd,
    /// Takes out the start of the line.
    EraseToHead,
    /// Takes out the word before the cursor.
    EraseWord,
    /// Takes out the word behind the cursor.
    EraseNextWord,
    /// Moves the cursor; the text stays.
    Go,
    Undo,
    Redo,
    Paste,
    Cut,
    Copy,
    Nothing,
}

/// A broken line: what follows the cursor goes to a line of its own.
pub open spec fn line_break() -> Seq<Seq<char>> {
    seq![Seq::<char>::empty(), Seq::<char>::empty()]
}

/// What a character does together with Control or Alt.
pub open spec fn shortcut(c: char, ctrl: bool, alt: bool) -> BoxDeed {
    if ctrl && alt {
        if c == 'b' || c == 'f' || c == 'p' || c == 'n' {
            BoxDeed::Go
        } else {
            BoxDeed::Nothing
        }
    } else if alt {
        if c == 'h' {
            BoxDeed::EraseWord
        } else if c == 'd' {
            BoxDeed::EraseNextWord
        } else if c == '<' || c == '>' || c == 'f' || c == 'b' || c == ']' || c == 'n' || c == '['
            || c == 'p' || c == 'v' {
            BoxDeed::Go
        } else {
            BoxDeed::Nothing
        }
    } else if c == 'm' {
        BoxDeed::Put(line_break())
    } else if c == 'h' {
        BoxDeed::EraseBack
    } else if c == 'd' {
        BoxDeed::EraseNext
    } else if c == 'k' {
        BoxDeed::EraseToEnd
    } else if c == 'j' {
        BoxDeed::EraseToHead
    } else if c == 'w' {
        BoxDeed::EraseWord
    } else if c == 'u' {
        BoxDeed::Undo
    } else if c == 'r' {
        BoxDeed::Redo
    } else if c == 'y' {
        BoxDeed::Paste
    } else if c == 'x' {
        BoxDeed::Cut
    } else if c == 'c' {
        BoxDeed::Copy
    } else if c == 'n' || c == 'p' || c == 'f' || c == 'b' || c == 'a' || c == 'e' || c == 'v' {
        BoxDeed::Go
    } else {
        BoxDeed::Nothing
    }
}

/// What a keystroke does.
pub open spec fn deed(input: BoxInput) -> BoxDeed {
    let plain = !input.ctrl && !input.alt;
    match input.key {
        BoxKey::Enter => BoxDeed::Put(line_break()),
        BoxKey::Char(c) => if !plain {
            shortcut(c, input.ctrl, input.alt)
        } else if c == '\n' || c == '\r' {
            BoxDeed::Put(line_break())
        } else {
            BoxDeed::Put(seq![seq![c]])
        },
        BoxKey::Tab => if plain {
            BoxDeed::Tab
        } else {
            BoxDeed::Nothing
        },
        BoxKey::Backspace => if plain {
            BoxDeed::EraseBack
        } else if !input.ctrl {
            BoxDeed::EraseWord
        } else {
            BoxDeed::Nothing
        },
        BoxKey::Delete => if plain {
            BoxDeed::EraseNext
        } else if !input.ctrl {
            BoxDeed::EraseNextWord
        } else {
            BoxDeed::Nothing
        },
        BoxKey::Left | BoxKey::Right | BoxKey::Up | BoxKey::Down => if plain || input.ctrl {
            BoxDeed::Go
        } else {
            BoxDeed::Nothing
        },
        BoxKey::Home | BoxKey::End | BoxKey::PageUp | BoxKey::PageDown => BoxDeed::Go,
        BoxKey::Esc | BoxKey::F(_) | BoxKey::Null => BoxDeed::Nothing,
    }
}

/// How many edits the box remembers for undoing and redoing together.
pub const REMEMBERED: usize = 50;

/// What can be undone once the text has been edited.
pub open spec fn remembered(b: BoxModel, before: (int, int), after: (int, int)) -> Seq<BoxEdit> {
    let edit = BoxEdit { lines: b.lines, before, after };
    if b.undo.len() > 0 && b.undo.len() + b.redo.len() >= REMEMBERED {
        b.undo.skip(1).push(edit)
    } else {
        b.undo.push(edit)
    }
}

/// The box after one edit that leaves the cursor at `cursor`, and to which undoing
/// it gives back the cursor at `before`: nothing is selected, and there is nothing
/// to be redone.
pub open spec fn edited(
    b: BoxModel,
    lines: Seq<Seq<char>>,
    before: (int, int),
    cursor: (int, int),
) -> BoxModel {
    BoxModel {
        lines,
        cursor,
        anchor: None,
        undo: remembered(b, before, cursor),
        redo: seq![],
        ..b
    }
}

/// Where the selection starts and ends, unless it is empty.
pub open spec fn selection(b: BoxModel) -> Option<((int, int), (int, int))> {
    match b.anchor {
        Some(a) => if a == b.cursor {
            None
        } else if a.0 < b.cursor.0 || a.0 == b.cursor.0 && a.1 < b.cursor.1 {
            Some((a, b.cursor))
        } else {
            Some((b.cursor, a))
        },
        None => None,
    }
}

/// The lines without what stands from `from` up to `to`.
pub open spec fn lines_without(lines: Seq<Seq<char>>, from: (int, int), to: (int, int)) -> Seq<
    Seq<char>,
> {
    lines.take(from.0).push(lines[from.0].take(from.1) + lines[to.0].skip(to.1)) + lines.skip(
        to.0 + 1,
    )
}

/// What stands from `from` up to `to`.
pub open spec fn lines_between(lines: Seq<Seq<char>>, from: (int, int), to: (int, int)) -> Seq<
    Seq<char>,
> {
    if from.0 == to.0 {
        seq![lines[from.0].subrange(from.1, to.1)]
    } else {
        seq![lines[from.0].skip(from.1)] + lines.subrange(from.0 + 1, to.0) + seq![
            lines[to.0].take(to.1),
        ]
    }
}

/// The box once what stands from `from` up to `to` has been taken out.
pub open spec fn erased(b: BoxModel, from: (int, int), to: (int, int)) -> BoxModel {
    edited(b, lines_without(b.lines, from, to), to, from)
}

/// The same, where what was taken out can be pasted.
pub open spec fn yanked(b: BoxModel, from: (int, int), to: (int, int)) -> BoxModel {
    BoxModel { yank: lines_between(b.lines, from, to), ..erased(b, from, to) }
}

/// The box once the selection has been taken out.
pub open spec fn deselected(b: BoxModel) -> BoxModel {
    match selection(b) {
        Some((from, to)) => erased(b, from, to),
        None => BoxModel { anchor: None, ..b },
    }
}

/// The box once `t` has been put in at the cursor.
pub open spec fn put(b: BoxModel, t: Seq<Seq<char>>) -> BoxModel {
    let (row, col) = b.cursor;
    let line = b.lines[row];
    let n = t.len() as int;
    if n == 1 {
        edited(
            b,
            b.lines.update(row, line.take(col) + t[0] + line.skip(col)),
            (row, col),
            (row, col + t[0].len()),
        )
    } else {
        edited(
            b,
            b.lines.take(row).push(line.take(col) + t[0]) + t.subrange(1, n - 1).push(
                t[n - 1] + line.skip(col),
            ) + b.lines.skip(row + 1),
            (row, col),
            (row + n - 1, t[n - 1].len() as int),
        )
    }
}

/// The box once the break before the cursor's line has been taken out.
pub open spec fn joined_up(b: BoxModel) -> BoxModel {
    let row = b.cursor.0;
    if row > 0 {
        erased(b, (row - 1, b.lines[row - 1].len() as int), (row, 0))
    } else {
        b
    }
}

/// The box once the break behind the cursor's line has been taken out.
pub open spec fn joined_down(b: BoxModel) -> BoxModel {
    let row = b.cursor.0;
    if row + 1 < b.lines.len() {
        erased(b, (row, b.lines[row].len() as int), (row + 1, 0))
    } else {
        b
    }
}

/// Kinds of characters that words are told apart by.
pub enum CharKind {
    Space,
    Punct,
    Other,
}

/// The kind of a character: white space, ASCII punctuation but `_`, or other.
pub open spec fn char_kind(c: char) -> CharKind {
    if text::is_white(c) {
        CharKind::Space
    } else if c != '_' && ('!' <= c && c <= '/' || ':' <= c && c <= '@' || '[' <= c && c <= '`'
        || '{' <= c && c <= '~') {
        CharKind::Punct
    } else {
        CharKind::Other
    }
}

/// Where the last word starts that begins at or before character `at`.
pub open spec fn word_start(line: Seq<char>, at: int) -> int
    decreases at,
{
    if at <= 0 {
        0
    } else if char_kind(line[at]) !is Space && char_kind(line[at - 1]) != char_kind(line[at]) {
        at
    } else {
        word_start(line, at - 1)
    }
}

/// Where the first word ends that ends at or behind character `at`.
pub open spec fn word_end(line: Seq<char>, at: int) -> int
    decreases line.len() - at,
{
    if at >= line.len() {
        line.len() as int
    } else if char_kind(line[at - 1]) !is Space && char_kind(line[at - 1]) != char_kind(line[at]) {
        at
    } else {
        word_end(line, at + 1)
    }
}

/// Whether a character is printable ASCII, which takes one column.
pub open spec fn one_column(c: char) -> bool {
    ' ' <= c && c <= '~'
}

/// Whether `after` is the box once spaces have been put in up to the next tab
/// stop. Where a character of another width stands before the cursor, how many
/// there are is not said, but for their least and most.
pub open spec fn tabbed(b: BoxModel, after: BoxModel) -> bool {
    let (row, col) = b.cursor;
    exists|n: nat| #[trigger]
        tab_of(n) && after == put(b, seq![crate::drawing::spaces(n as int)]) && ((forall|i: int|
            0 <= i < col ==> one_column(#[trigger] b.lines[row][i])) ==> n == 4 - col % 4)
}

/// Whether a tab can be so many spaces.
pub open spec fn tab_of(n: nat) -> bool {
    1 <= n <= 4
}

/// Whether `after` is the box once the character behind the cursor has been taken
/// out, or the line break at the end of the line. A character that takes no
/// column may pass for the end of the line where no other follows.
pub open spec fn erased_next(b: BoxModel, after: BoxModel) -> bool {
    let (row, col) = b.cursor;
    let line = b.lines[row];
    let next = erased(b, (row, col), (row, col + 1));
    if col >= line.len() {
        after == joined_down(b)
    } else if exists|i: int| col <= i < line.len() && one_column(#[trigger] line[i]) {
        after == next
    } else {
        after == next || after == joined_down(b)
    }
}

/// Whether the cursor stands in the text.
pub open spec fn placed(b: BoxModel) -> bool {
    let (row, col) = b.cursor;
    0 <= row < b.lines.len() && 0 <= col <= b.lines[row].len()
}

/// Whether `after` is the box once the cursor has moved: it stands in the text,
/// and nothing changes but the selection. With Shift the selection grows from
/// where the cursor was, without it ends; where the cursor cannot move, the
/// selection may stay as it was.
pub open spec fn went(b: BoxModel, shift: bool, after: BoxModel) -> bool {
    &&& after == (BoxModel { cursor: after.cursor, anchor: after.anchor, ..b })
    &&& placed(after)
    &&& after.anchor == b.anchor || after.anchor == (if !shift {
        None
    } else if b.anchor is Some {
        b.anchor
    } else {
        Some(b.cursor)
    })
}

/// The place of a text that is closest to `at` from the front.
pub open spec fn within(lines: Seq<Seq<char>>, at: (int, int)) -> (int, int) {
    let row = if at.0 < lines.len() {
        at.0
    } else {
        lines.len() - 1
    };
    (row, if at.1 <= lines[row].len() {
        at.1
    } else {
        lines[row].len() as int
    })
}

/// The box once the last edit has been undone.
pub open spec fn undone(b: BoxModel) -> BoxModel {
    if b.undo.len() == 0 {
        b
    } else {
        let edit = b.undo.last();
        BoxModel {
            lines: edit.lines,
            cursor: within(edit.lines, edit.before),
            anchor: None,
            undo: b.undo.drop_last(),
            redo: b.redo.push(BoxEdit { lines: b.lines, ..edit }),
            ..b
        }
    }
}

/// The box once the edit that was undone last has been made again.
pub open spec fn redone(b: BoxModel) -> BoxModel {
    if b.redo.len() == 0 {
        b
    } else {
        let edit = b.redo.last();
        BoxModel {
            lines: edit.lines,
            cursor: within(edit.lines, edit.after),
            anchor: None,
            undo: b.undo.push(BoxEdit { lines: b.lines, ..edit }),
            redo: b.redo.drop_last(),
            ..b
        }
    }
}

/// Whether `after` is the box `b` after a keystroke.
#[verifier::opaque]
pub open spec fn fed(b: BoxModel, input: BoxInput, after: BoxModel) -> bool {
    let d = deselected(b);
    let (row, col) = d.cursor;
    let line = d.lines[row];
    let end = line.len() as int;
    match deed(input) {
        BoxDeed::Put(t) => after == put(d, t),
        BoxDeed::Tab => tabbed(d, after),
        BoxDeed::Paste => after == if d.yank == seq![Seq::<char>::empty()] {
            d
        } else {
            put(d, d.yank)
        },
        BoxDeed::Cut => after == match selection(b) {
            Some((from, to)) => yanked(b, from, to),
            None => d,
        },
        BoxDeed::Copy => after == match selection(b) {
            Some((from, to)) => BoxModel {
                anchor: None,
                yank: lines_between(b.lines, from, to),
                ..b
            },
            None => d,
        },
        BoxDeed::Undo => after == undone(b),
        BoxDeed::Redo => after == redone(b),
        BoxDeed::Go => went(b, input.shift, after),
        BoxDeed::Nothing => after == b,
        _ => if selection(b) is Some {
            after == d
        } else {
            match deed(input) {
                BoxDeed::EraseNext => erased_next(d, after),
                BoxDeed::EraseToEnd => after == if col < end {
                    yanked(d, (row, col), (row, end))
                } else {
                    joined_down(d)
                },
                BoxDeed::EraseNextWord => after == if col < end {
                    yanked(d, (row, col), (row, word_end(line, col + 1)))
                } else {
                    joined_down(d)
                },
                BoxDeed::EraseToHead => after == if col > 0 {
                    yanked(d, (row, 0), (row, col))
                } else {
                    joined_up(d)
                },
                BoxDeed::EraseWord => after == if col > 0 {
                    yanked(d, (row, word_start(line, col - 1)), (row, col))
                } else {
                    joined_up(d)
                },
                _ => after == if col > 0 {
                    erased(d, (row, col - 1), (row, col))
                } else {
                    joined_up(d)
                },
            }
        },
    }
}

/// Whether a keystroke is reported as a change of the text. A paste is, where
/// there is something to paste.
pub open spec fn reported(b: BoxModel, input: BoxInput, after: BoxModel) -> bool {
    match deed(input) {
        BoxDeed::Put(_) | BoxDeed::Tab => true,
        BoxDeed::Paste => b.yank != seq![Seq::<char>::empty()],
        BoxDeed::Undo => b.undo.len() > 0,
        BoxDeed::Redo => b.redo.len() > 0,
        _ => after.lines != b.lines,
    }
}

/// `ratatui_textarea::TextArea::input`: feeds a keystroke to the box, and says
/// whether the text changed. The contract says which keys edit the text and how.
/// Of a key that moves the cursor it says that the text stays, not where the
/// cursor goes: that depends on how the box was last drawn.
#[verifier::external_body]
fn area_input(b: &mut EditBox, input: BoxInput) -> (changed: bool)
    ensures
        fed(old(b)@, input, final(b)@),
        changed == reported(old(b)@, input, final(b)@),
{
    let key = match input.key {
        BoxKey::Char(c) => Key::Char(c),
        BoxKey::F(n) => Key::F(n),
        BoxKey::Backspace => Key::Backspace, BoxKey::Enter => Key::Enter,
        BoxKey::Left => Key::Left, BoxKey::Right => Key::Right,
        BoxKey::Up => Key::Up, BoxKey::Down => Key::Down,
        BoxKey::Tab => Key::Tab, BoxKey::Delete => Key::Delete,
        BoxKey::Home => Key::Home, BoxKey::End => Key::End,
        BoxKey::PageUp => Key::PageUp, BoxKey::PageDown => Key::PageDown,
        BoxKey::Esc => Key::Esc,
        BoxKey::Null => Key::Null,
    };
    b.area.input(Input { key, ctrl: input.ctrl, alt: input.alt, shift: input.shift })
}

/// A key event as the edit box takes it.
pub open spec fn box_input(k: KeyEvent) -> BoxInput {
    BoxInput {
        key: match k.code {
            KeyCode::Char(c) => BoxKey::Char(c),
            KeyCode::Backspace => BoxKey::Backspace,
            KeyCode::Enter => BoxKey::Enter,
            KeyCode::Left => BoxKey::Left,
            KeyCode::Right => BoxKey::Right,
            KeyCode::Up => BoxKey::Up,
            KeyCode::Down => BoxKey::Down,
            KeyCode::Tab => BoxKey::Tab,
            KeyCode::Delete => BoxKey::Delete,
            KeyCode::Home => BoxKey::Home,
            KeyCode::End => BoxKey::End,
            KeyCode::PageUp => BoxKey::PageUp,
            KeyCode::PageDown => BoxKey::PageDown,
            KeyCode::Esc => BoxKey::Esc,
            KeyCode::F(n) => BoxKey::F(n),
            _ => BoxKey::Null,
        },
        ctrl: k.modifiers.control,
        alt: k.modifiers.alt,
        shift: k.modifiers.shift,
    }
}

/// Convert a key event to what the edit box takes.
pub fn crossterm_key_to_input(k: KeyEvent) -> (r: BoxInput)
    ensures
        r == box_input(k),
{
    let key = match k.code {
        KeyCode::Char(c) => BoxKey::Char(c),
        KeyCode::Backspace => BoxKey::Backspace,
        KeyCode::Enter => BoxKey::Enter,
        KeyCode::Left => BoxKey::Left,
        KeyCode::Right => BoxKey::Right,
        KeyCode::Up => BoxKey::Up,
        KeyCode::Down => BoxKey::Down,
        KeyCode::Tab => BoxKey::Tab,
        KeyCode::Delete => BoxKey::Delete,
        KeyCode::Home => BoxKey::Home,
        KeyCode::End => BoxKey::End,
        KeyCode::PageUp => BoxKey::PageUp,
        KeyCode::PageDown => BoxKey::PageDown,
        KeyCode::Esc => BoxKey::Esc,
        KeyCode::F(n) => BoxKey::F(n),
        _ => BoxKey::Null,
    };
    BoxInput {
        key,
        ctrl: k.modifiers.control,
        alt: k.modifiers.alt,
        shift: k.modifiers.shift,
    }
}

/// Whether a box may look like that after a key event.
pub open spec fn took_key(before: BoxModel, k: KeyEvent, after: BoxModel) -> bool {
    fed(before, box_input(k), after)
}

impl EditBox {
    /// An empty box that shows `shown` while it is empty.
    pub fn with_placeholder(shown: &str) -> (r: EditBox)
        ensures
            r@ == empty_box(shown@),
    {
        let none: Vec<String> = Vec::new();
        assert(text::texts(none@) =~= seq![]);
        let mut b = new_area(none);
        set_placeholder(&mut b, shown);
        b
    }

    /// A box that holds `lines`.
    pub fn holding(lines: Vec<String>) -> (r: EditBox)
        requires
            one_line_each(lines@),
        ensures
            r@ == fresh_box(text::texts(lines@)),
    {
        let mut b = new_area(lines);
        set_plain_cursor_line(&mut b);
        b
    }

    /// The lines in the box.
    pub fn lines(&self) -> (r: Vec<String>)
        ensures
            text::texts(r@) == self@.lines,
    {
        area_lines(self)
    }

    /// Feeds a key event to the box; says whether the text changed.
    pub fn input(&mut self, k: KeyEvent) -> (changed: bool)
        ensures
            took_key(old(self)@, k, final(self)@),
            changed == reported(old(self)@, box_input(k), final(self)@),
    {
        area_input(self, crossterm_key_to_input(k))
    }

    /// The text in the box: its lines with newlines between them.
    pub fn text(&self) -> (r: String)
        ensures
            r@ == text::join(self@.lines, "\n"@),
    {
        text::join_with(&self.lines(), "\n")
    }
}

/// Whether a key event types the character `c`.
pub open spec fn types(k: KeyEvent, c: char) -> bool {
    &&& k.code == KeyCode::Char(c)
    &&& c != '\n'
    &&& c != '\r'
    &&& !k.modifiers.control
    &&& !k.modifiers.alt
}

/// Backspace takes back what was typed: after a character and a Backspace the
/// text and the cursor are as they were.
pub proof fn law_backspace_takes_back_a_character(
    before: BoxModel,
    typing: KeyEvent,
    c: char,
    between: BoxModel,
    erasing: KeyEvent,
    after: BoxModel,
)
    requires
        before.anchor is None,
        placed(before),
        types(typing, c),
        erasing.code == KeyCode::Backspace,
        !erasing.modifiers.control,
        !erasing.modifiers.alt,
        took_key(before, typing, between),
        took_key(between, erasing, after),
    ensures
        after.lines == before.lines,
        after.cursor == before.cursor,
{
    reveal(fed);
    let (row, col) = before.cursor;
    let line = before.lines[row];
    assert(between.lines[row] =~= line.take(col).push(c) + line.skip(col));
    let cut = between.lines[row].take(col) + between.lines[row].skip(col + 1);
    assert(cut =~= line);
    assert(after.lines =~= before.lines);
}

/// Undo gives back the text that a character was typed into, with the cursor where
/// it was, and redo the text with the character, with the cursor behind it.
pub proof fn law_undo_takes_back_a_character(
    before: BoxModel,
    typing: KeyEvent,
    c: char,
    between: BoxModel,
    undoing: KeyEvent,
    after_undo: BoxModel,
    redoing: KeyEvent,
    after: BoxModel,
)
    requires
        before.anchor is None,
        placed(before),
        types(typing, c),
        undoing.code == KeyCode::Char('u') && redoing.code == KeyCode::Char('r'),
        undoing.modifiers.control && redoing.modifiers.control,
        !undoing.modifiers.alt && !redoing.modifiers.alt,
        took_key(before, typing, between),
        took_key(between, undoing, after_undo),
        took_key(after_undo, redoing, after),
    ensures
        after_undo.lines == before.lines,
        after_undo.cursor == before.cursor,
        after.lines == between.lines,
        after.cursor == between.cursor,
{
    reveal(fed);
}

/// Redo makes again what undo took back: the text is as it was, and so is what can
/// be undone and redone.
pub proof fn law_redo_answers_undo(b: BoxModel)
    requires
        b.undo.len() > 0,
    ensures
        redone(undone(b)).lines == b.lines,
        redone(undone(b)).undo == b.undo,
        redone(undone(b)).redo == b.redo,
{
    let edit = b.undo.last();
    assert(b.undo.drop_last().push(edit) =~= b.undo);
    assert(b.redo.push(BoxEdit { lines: b.lines, ..edit }).drop_last() =~= b.redo);
}

/// A key that moves the cursor leaves the text as it is.
pub proof fn law_moving_keeps_the_text(before: BoxModel, k: KeyEvent, after: BoxModel)
    requires
        k.code is Left || k.code is Right || k.code is Up || k.code is Down || k.code is Home
            || k.code is End || k.code is PageUp || k.code is PageDown || k.code is F
            || k.code is Esc,
        took_key(before, k, after),
    ensures
        after.lines == before.lines,
{
    reveal(fed);
}

/// Typing a character into a fresh empty box leaves that character in it.
pub proof fn law_typing_into_an_empty_box(k: KeyEvent, c: char, after: BoxModel)
    requires
        types(k, c),
        took_key(fresh_box(seq![]), k, after),
    ensures
        after.lines == seq![seq![c]],
{
    reveal(fed);
    let b = fresh_box(seq![]);
    let none = Seq::<char>::empty();
    assert(none.take(0) + seq![c] + none.skip(0) =~= seq![c]);
    assert(after.lines =~= seq![seq![c]]);
}

} // verus!
