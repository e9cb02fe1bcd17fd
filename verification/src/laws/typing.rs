//! What keys and the mouse write to a session.

use crate::app::Action;
use crate::event::{Event, KeyCode, KeyEvent, KeyModifiers, MouseEvent, MouseEventKind};
use crate::input::{encoded, meaning, KbdEncoding};
use crate::layout::TermSize;
use crate::screen::{
    encoding_sequence, mode_sequences, mouse_bytes, mouse_deed, mouse_sequence, paste_bytes,
    repeated, DeedModel, MouseEncoding, MouseMode, ScreenModes,
};
use crate::text;
use vstd::prelude::*;
use vstd::utf8::{encode_utf8, is_ascii_chars, is_ascii_chars_encode_utf8};

verus! {

// ---------------------------------------------------------------------------
// Keys
// ---------------------------------------------------------------------------

/// With Ctrl a letter, small or capital, is written as its place in the alphabet:
/// one byte, and never the byte that the letter writes without Ctrl.
pub proof fn law_control_letters_are_written_as_their_place(
    k: KeyEvent,
    place: nat,
    capital: bool,
    app_cursor: bool,
    kbd: KbdEncoding,
)
    requires
        1 <= place <= 26,
        k.code == KeyCode::Char(
            if capital {
                (64 + place) as char
            } else {
                (96 + place) as char
            },
        ),
        k.modifiers.control,
        !k.modifiers.alt,
    ensures
        encoded(k, app_cursor, kbd) == seq![place as u8],
        encoded(k, app_cursor, kbd) != encoded(
            KeyEvent { modifiers: KeyModifiers { control: false, ..k.modifiers }, ..k },
            app_cursor,
            kbd,
        ),
{
    let c = if capital {
        (64 + place) as char
    } else {
        (96 + place) as char
    };
    let typed = seq![c];
    assert(is_ascii_chars(typed));
    is_ascii_chars_encode_utf8(typed);
    assert(typed[0] == c);
    assert(encode_utf8(typed)[0] == c as u8);
    assert(encoded(k, app_cursor, kbd)[0] == place as u8);
}

/// With Ctrl every character from `@` to `_` is written as the byte that lies 64
/// below it, `4` to `7` as the last four of these, a space as the first, and `?` as
/// the byte of Delete.
pub proof fn law_control_reaches_every_control_byte(
    k: KeyEvent,
    c: char,
    app_cursor: bool,
    kbd: KbdEncoding,
)
    requires
        k.code == KeyCode::Char(c),
        k.modifiers.control,
        !k.modifiers.alt,
    ensures
        '@' <= c && c <= '_' ==> encoded(k, app_cursor, kbd) == seq![(c as int - 64) as u8],
        '4' <= c && c <= '7' ==> encoded(k, app_cursor, kbd) == seq![(c as int - 24) as u8],
        c == ' ' ==> encoded(k, app_cursor, kbd) == seq![0u8],
        c == '?' ==> encoded(k, app_cursor, kbd) == seq![127u8],
        encoded(k, app_cursor, kbd).len() == 1,
{
}

/// Alt puts an escape before what a character writes without it.
pub proof fn law_alt_puts_an_escape_before_a_character(
    k: KeyEvent,
    c: char,
    app_cursor: bool,
    kbd: KbdEncoding,
)
    requires
        k.code == KeyCode::Char(c),
        k.modifiers.alt,
    ensures
        encoded(k, app_cursor, kbd) == seq![0x1bu8] + encoded(
            KeyEvent { modifiers: KeyModifiers { alt: false, ..k.modifiers }, ..k },
            app_cursor,
            kbd,
        ),
{
}

/// Whether the bytes are those of the text, all of whose characters are ASCII.
proof fn lemma_ascii(s: Seq<char>)
    requires
        is_ascii_chars(s),
    ensures
        encode_utf8(s).len() == s.len(),
        forall|i: int| 0 <= i < s.len() ==> #[trigger] encode_utf8(s)[i] == s[i] as u8,
{
    is_ascii_chars_encode_utf8(s);
    assert forall|i: int| 0 <= i < s.len() implies #[trigger] encode_utf8(s)[i] == s[i] as u8 by {
        assert(s[i] as u8 == encode_utf8(s)[i]);
    }
}

/// The letter of a key that moves the cursor.
pub open spec fn cursor_letter(code: KeyCode) -> Option<u8> {
    match code {
        KeyCode::Up => Some(65u8),
        KeyCode::Down => Some(66u8),
        KeyCode::Right => Some(67u8),
        KeyCode::Left => Some(68u8),
        KeyCode::End => Some(70u8),
        KeyCode::Home => Some(72u8),
        _ => None,
    }
}

/// A key that moves the cursor is written as an escape, `[` or, where the session
/// asked for application cursor keys, `O`, and the letter of its direction.
pub proof fn law_cursor_keys_are_written_by_their_letter(
    k: KeyEvent,
    app_cursor: bool,
    kbd: KbdEncoding,
)
    requires
        cursor_letter(k.code) is Some,
        !k.modifiers.alt,
    ensures
        encoded(k, app_cursor, kbd) == seq![
            0x1bu8,
            if app_cursor {
                79u8
            } else {
                91u8
            },
            cursor_letter(k.code)->Some_0,
        ],
{
    reveal_strlit("\x1bOA");
    reveal_strlit("\x1bOB");
    reveal_strlit("\x1bOC");
    reveal_strlit("\x1bOD");
    reveal_strlit("\x1bOF");
    reveal_strlit("\x1bOH");
    reveal_strlit("\x1b[A");
    reveal_strlit("\x1b[B");
    reveal_strlit("\x1b[C");
    reveal_strlit("\x1b[D");
    reveal_strlit("\x1b[F");
    reveal_strlit("\x1b[H");
    match k.code {
        KeyCode::Up => { lemma_ascii("\x1bOA"@); lemma_ascii("\x1b[A"@); },
        KeyCode::Down => { lemma_ascii("\x1bOB"@); lemma_ascii("\x1b[B"@); },
        KeyCode::Right => { lemma_ascii("\x1bOC"@); lemma_ascii("\x1b[C"@); },
        KeyCode::Left => { lemma_ascii("\x1bOD"@); lemma_ascii("\x1b[D"@); },
        KeyCode::End => { lemma_ascii("\x1bOF"@); lemma_ascii("\x1b[F"@); },
        _ => { lemma_ascii("\x1bOH"@); lemma_ascii("\x1b[H"@); },
    }
}

/// The number in the sequence of a key that has one.
pub open spec fn tilde_number(code: KeyCode) -> Option<int> {
    match code {
        KeyCode::Insert => Some(2),
        KeyCode::Delete => Some(3),
        KeyCode::PageUp => Some(5),
        KeyCode::PageDown => Some(6),
        _ => None,
    }
}

/// Insert, Delete and the paging keys are written by their numbers.
pub proof fn law_editing_keys_are_written_by_their_number(
    k: KeyEvent,
    app_cursor: bool,
    kbd: KbdEncoding,
)
    requires
        tilde_number(k.code) is Some,
        !k.modifiers.alt,
    ensures
        encoded(k, app_cursor, kbd) == seq![
            0x1bu8,
            91,
            (48 + tilde_number(k.code)->Some_0) as u8,
            126,
        ],
{
    reveal_strlit("\x1b[2~");
    reveal_strlit("\x1b[3~");
    reveal_strlit("\x1b[5~");
    reveal_strlit("\x1b[6~");
    match k.code {
        KeyCode::Insert => lemma_ascii("\x1b[2~"@),
        KeyCode::Delete => lemma_ascii("\x1b[3~"@),
        KeyCode::PageUp => lemma_ascii("\x1b[5~"@),
        _ => lemma_ascii("\x1b[6~"@),
    }
}

/// F1 to F4 are written by the letters from `P` on, F5 to F12 by their numbers, and
/// no other function key writes anything.
pub proof fn law_function_keys_are_told_apart(
    k: KeyEvent,
    n: u8,
    app_cursor: bool,
    kbd: KbdEncoding,
)
    requires
        k.code == KeyCode::F(n),
        !k.modifiers.alt,
    ensures
        1 <= n <= 4 ==> encoded(k, app_cursor, kbd) == seq![0x1bu8, 79, (79 + n) as u8],
        5 <= n <= 12 ==> ({
            let number = if n == 5 {
                15int
            } else if n <= 10 {
                n + 11
            } else {
                n + 12
            };
            encoded(k, app_cursor, kbd) == seq![
                0x1bu8,
                91,
                (48 + number / 10) as u8,
                (48 + number % 10) as u8,
                126,
            ]
        }),
        n == 0 || n > 12 ==> encoded(k, app_cursor, kbd).len() == 0,
{
    reveal_strlit("\x1bOP");
    reveal_strlit("\x1bOQ");
    reveal_strlit("\x1bOR");
    reveal_strlit("\x1bOS");
    reveal_strlit("\x1b[15~");
    reveal_strlit("\x1b[17~");
    reveal_strlit("\x1b[18~");
    reveal_strlit("\x1b[19~");
    reveal_strlit("\x1b[20~");
    reveal_strlit("\x1b[21~");
    reveal_strlit("\x1b[23~");
    reveal_strlit("\x1b[24~");
    match n {
        1 => lemma_ascii("\x1bOP"@),
        2 => lemma_ascii("\x1bOQ"@),
        3 => lemma_ascii("\x1bOR"@),
        4 => lemma_ascii("\x1bOS"@),
        5 => lemma_ascii("\x1b[15~"@),
        6 => lemma_ascii("\x1b[17~"@),
        7 => lemma_ascii("\x1b[18~"@),
        8 => lemma_ascii("\x1b[19~"@),
        9 => lemma_ascii("\x1b[20~"@),
        10 => lemma_ascii("\x1b[21~"@),
        11 => lemma_ascii("\x1b[23~"@),
        12 => lemma_ascii("\x1b[24~"@),
        _ => {},
    }
}

/// The byte of Enter, Tab, Backspace and Esc, which is also their number in the
/// enhanced protocols.
pub open spec fn own_byte(code: KeyCode) -> Option<u8> {
    match code {
        KeyCode::Enter => Some(13u8),
        KeyCode::Tab => Some(9u8),
        KeyCode::Backspace => Some(127u8),
        KeyCode::Esc => Some(27u8),
        _ => None,
    }
}

/// Enter, Tab, Backspace and Esc write their own byte: always in the legacy
/// protocol, and without modifiers in the others too unless every key was asked for.
pub proof fn law_plain_functional_keys_write_their_byte(
    k: KeyEvent,
    app_cursor: bool,
    kbd: KbdEncoding,
)
    requires
        own_byte(k.code) is Some,
        !k.modifiers.alt,
        kbd is Legacy || !k.modifiers.shift && !k.modifiers.control && !k.modifiers.super_key && (
        kbd matches KbdEncoding::Kitty(flags) ==> flags & 8 == 0),
    ensures
        encoded(k, app_cursor, kbd) == seq![own_byte(k.code)->Some_0],
{
    reveal_strlit("\r");
    reveal_strlit("\t");
    reveal_strlit("\x7f");
    reveal_strlit("\x1b");
    match k.code {
        KeyCode::Enter => lemma_ascii("\r"@),
        KeyCode::Tab => lemma_ascii("\t"@),
        KeyCode::Backspace => lemma_ascii("\x7f"@),
        _ => lemma_ascii("\x1b"@),
    }
}

/// With modifiers the enhanced protocols write the key's number and one more than
/// Shift 1, Alt 2, Ctrl 4 and Super 8 together: kitty's behind the key, the other
/// one's before it.
pub proof fn law_enhanced_keys_carry_their_modifiers(
    k: KeyEvent,
    app_cursor: bool,
    flags: u8,
    shift: nat,
    alt: nat,
    control: nat,
    super_key: nat,
)
    requires
        own_byte(k.code) is Some,
        shift == (if k.modifiers.shift { 1nat } else { 0 }),
        alt == (if k.modifiers.alt { 1nat } else { 0 }),
        control == (if k.modifiers.control { 1nat } else { 0 }),
        super_key == (if k.modifiers.super_key { 1nat } else { 0 }),
        shift + alt + control + super_key > 0,
    ensures
        ({
            let key = text::decimal(own_byte(k.code)->Some_0 as nat);
            let held = text::decimal(1 + shift + 2 * alt + 4 * control + 8 * super_key);
            &&& encoded(k, app_cursor, KbdEncoding::Kitty(flags)) == encode_utf8(
                "\x1b["@ + key + ";"@ + held + "u"@,
            )
            &&& encoded(k, app_cursor, KbdEncoding::ModifyOtherKeys) == encode_utf8(
                "\x1b[27;"@ + held + ";"@ + key + "~"@,
            )
        }),
{
}

/// What the terminal reports is passed on as it is: but a key that comes up means
/// nothing, and Ctrl-Q quits.
pub proof fn law_events_are_passed_on(k: KeyEvent, m: MouseEvent, s: String, cols: u16, rows: u16)
    ensures
        meaning(Event::Key(k)) == (if k.kind is Release {
            None
        } else if k.code == KeyCode::Char('q') && k.modifiers.control {
            Some(Action::Quit)
        } else {
            Some(Action::Key(k))
        }),
        meaning(Event::Mouse(m)) == Some(Action::Mouse(m)),
        meaning(Event::Paste(s)) == Some(Action::Paste(s)),
        meaning(Event::Resize(cols, rows)) == Some(Action::Resize(TermSize { rows, cols })),
{
}

// ---------------------------------------------------------------------------
// The mouse
// ---------------------------------------------------------------------------

/// Whether a session that asked for these events gets that one: presses and the
/// wheel by any, the button coming up by all but the first, motion with a button by
/// the last two, and motion without one by the last.
pub open spec fn gets(mode: MouseMode, kind: MouseEventKind) -> bool {
    let level = match mode {
        MouseMode::Off => 0int,
        MouseMode::Press => 1,
        MouseMode::PressRelease => 2,
        MouseMode::ButtonMotion => 3,
        MouseMode::AnyMotion => 4,
    };
    let needed = if kind is Moved {
        4int
    } else if kind is Drag {
        3
    } else if kind is Up {
        2
    } else {
        1
    };
    level >= needed
}

/// A session gets the events that it asked for, and no others.
pub proof fn law_sessions_get_what_they_asked_for(
    e: MouseEvent,
    mode: MouseMode,
    enc: MouseEncoding,
)
    ensures
        mouse_bytes(e, mode, enc).len() > 0 <==> gets(mode, e.kind),
{
    if gets(mode, e.kind) && enc is Sgr {
        lemma_sgr(e, mode);
    }
}

/// The number that an event is written with, before modifiers are added.
pub open spec fn kind_number(kind: MouseEventKind) -> nat {
    let base = match kind {
        MouseEventKind::Down(b) | MouseEventKind::Up(b) | MouseEventKind::Drag(b) => if b is Left {
            0nat
        } else if b is Middle {
            1
        } else {
            2
        },
        MouseEventKind::Moved => 3,
        MouseEventKind::ScrollUp => 64,
        MouseEventKind::ScrollDown => 65,
        MouseEventKind::ScrollLeft => 66,
        MouseEventKind::ScrollRight => 67,
    };
    base + (if kind is Drag || kind is Moved {
        32nat
    } else {
        0
    })
}

/// The number that an event is written with: Shift adds 4, Alt 8 and Ctrl 16.
pub open spec fn event_number(e: MouseEvent) -> nat {
    let m = e.modifiers;
    kind_number(e.kind) + (if m.shift { 4nat } else { 0 }) + (if m.alt { 8nat } else { 0 }) + (
    if m.control { 16nat } else { 0 })
}

proof fn lemma_sgr(e: MouseEvent, mode: MouseMode)
    requires
        gets(mode, e.kind),
    ensures
        mouse_bytes(e, mode, MouseEncoding::Sgr) == encode_utf8(
            "\x1b[<"@ + text::decimal(event_number(e)) + ";"@ + text::decimal(
                e.column as nat + 1,
            ) + ";"@ + text::decimal(e.row as nat + 1) + (if e.kind is Up { "m"@ } else { "M"@ }),
        ),
        mouse_bytes(e, mode, MouseEncoding::Sgr).len() > 0,
{
    let s = "\x1b[<"@ + text::decimal(event_number(e)) + ";"@ + text::decimal(e.column as nat + 1)
        + ";"@ + text::decimal(e.row as nat + 1) + (if e.kind is Up { "m"@ } else { "M"@ });
    reveal_strlit("\x1b[<");
    reveal_strlit("m");
    reveal_strlit("M");
    assert(s.len() > 0);
    vstd::utf8::encode_utf8_decode_utf8(s);
    if encode_utf8(s).len() == 0 {
        let none = Seq::<char>::empty();
        vstd::utf8::encode_utf8_decode_utf8(none);
        assert(encode_utf8(none) =~= encode_utf8(s));
    }
}

/// Sessions that asked for the decimal encoding read the number of the event, and
/// the column and row counted from 1; only the end tells whether the button came up.
pub proof fn law_decimal_mouse_events_carry_number_and_place(e: MouseEvent, mode: MouseMode)
    requires
        gets(mode, e.kind),
    ensures
        mouse_bytes(e, mode, MouseEncoding::Sgr) == encode_utf8(
            "\x1b[<"@ + text::decimal(event_number(e)) + ";"@ + text::decimal(
                e.column as nat + 1,
            ) + ";"@ + text::decimal(e.row as nat + 1) + (if e.kind is Up { "m"@ } else { "M"@ }),
        ),
{
    lemma_sgr(e, mode);
}

/// The other encodings take six bytes: the number of the event, 3 for a button that
/// came up, and the column and row counted from 1, each 32 up and at most 255.
pub proof fn law_short_mouse_events_carry_number_and_place(
    e: MouseEvent,
    mode: MouseMode,
    enc: MouseEncoding,
)
    requires
        gets(mode, e.kind),
        !(enc is Sgr),
    ensures
        ({
            let b = mouse_bytes(e, mode, enc);
            let number = if e.kind is Up {
                3int
            } else {
                event_number(e) as int
            };
            &&& b.len() == 6
            &&& b[0] == 0x1b && b[1] == '[' as u8 && b[2] == 'M' as u8
            &&& b[3] == number + 32
            &&& b[4] == (if e.column + 33 <= 255 {
                e.column + 33
            } else {
                255
            })
            &&& b[5] == (if e.row + 33 <= 255 {
                e.row + 33
            } else {
                255
            })
        }),
{
}

/// Texts that differ in one number differ.
proof fn lemma_numbers_tell_apart(m: nat, n: nat, head: Seq<char>, tail: Seq<char>)
    requires
        m != n,
    ensures
        encode_utf8(head + text::decimal(m) + tail) != encode_utf8(head + text::decimal(n) + tail),
{
    let a = head + text::decimal(m) + tail;
    let b = head + text::decimal(n) + tail;
    if encode_utf8(a) == encode_utf8(b) {
        vstd::utf8::encode_utf8_decode_utf8(a);
        vstd::utf8::encode_utf8_decode_utf8(b);
        assert(a == b);
        let at = head.len() as int;
        assert(text::decimal(m) =~= a.subrange(at, at + text::decimal(m).len() as int));
        assert(text::decimal(n) =~= b.subrange(at, at + text::decimal(n).len() as int));
        text::law_decimal_round_trips(m, m + n);
        text::law_decimal_round_trips(n, m + n);
    }
}

proof fn lemma_kinds_tell_apart(a: MouseEventKind, b: MouseEventKind)
    requires
        a != b,
        !(a is Up) && !(b is Up),
    ensures
        kind_number(a) != kind_number(b),
{
    match (a, b) {
        (MouseEventKind::Down(x), MouseEventKind::Down(y)) => {
            assert(x != y);
        },
        (MouseEventKind::Drag(x), MouseEventKind::Drag(y)) => {
            assert(x != y);
        },
        _ => {},
    }
}

/// Presses and wheel turns of different kinds at one place are never written with
/// the same bytes.
pub proof fn law_presses_and_wheel_turns_are_told_apart(
    a: MouseEvent,
    b: MouseEvent,
    mode: MouseMode,
    enc: MouseEncoding,
)
    requires
        gets(mode, a.kind),
        gets(mode, b.kind),
        a.column == b.column,
        a.row == b.row,
        a.modifiers == b.modifiers,
        a.kind != b.kind,
        !(a.kind is Up) && !(b.kind is Up),
    ensures
        mouse_bytes(a, mode, enc) != mouse_bytes(b, mode, enc),
{
    lemma_kinds_tell_apart(a.kind, b.kind);
    if enc is Sgr {
        lemma_sgr(a, mode);
        lemma_sgr(b, mode);
        let head = "\x1b[<"@;
        let col = text::decimal(a.column as nat + 1);
        let row = text::decimal(a.row as nat + 1);
        let tail = ";"@ + col + ";"@ + row + "M"@;
        let na = text::decimal(event_number(a));
        let nb = text::decimal(event_number(b));
        assert(head + na + ";"@ + col + ";"@ + row + "M"@ =~= head + na + tail);
        assert(head + nb + ";"@ + col + ";"@ + row + "M"@ =~= head + nb + tail);
        lemma_numbers_tell_apart(event_number(a), event_number(b), head, tail);
    } else {
        law_short_mouse_events_carry_number_and_place(a, mode, enc);
        law_short_mouse_events_carry_number_and_place(b, mode, enc);
    }
}

/// The wheel goes to a session that asked for it; to one on the alternate screen it
/// goes as three arrow keys, up for up and down for down; else it moves the view,
/// back for up and forward for down, and with Shift it always does.
pub proof fn law_the_wheel_scrolls_the_way_it_turns(e: MouseEvent, m: ScreenModes)
    requires
        e.kind is ScrollUp || e.kind is ScrollDown,
    ensures
        ({
            let view = if e.kind is ScrollUp {
                DeedModel::ScrollBack
            } else {
                DeedModel::ScrollForward
            };
            let arrow = seq![
                0x1bu8,
                if m.application_cursor {
                    79u8
                } else {
                    91u8
                },
                if e.kind is ScrollUp {
                    65u8
                } else {
                    66u8
                },
            ];
            if e.modifiers.shift {
                mouse_deed(e, m) == view
            } else if !(m.mouse is Off) {
                mouse_deed(e, m) == DeedModel::Write(mouse_bytes(e, m.mouse, m.encoding))
            } else if m.alternate_screen {
                mouse_deed(e, m) == DeedModel::Write(arrow + arrow + arrow)
            } else {
                mouse_deed(e, m) == view
            }
        }),
{
    reveal_strlit("\x1bOA");
    reveal_strlit("\x1bOB");
    reveal_strlit("\x1b[A");
    reveal_strlit("\x1b[B");
    let s = if e.kind is ScrollUp {
        if m.application_cursor {
            "\x1bOA"@
        } else {
            "\x1b[A"@
        }
    } else {
        if m.application_cursor {
            "\x1bOB"@
        } else {
            "\x1b[B"@
        }
    };
    lemma_ascii(s);
    let b = encode_utf8(s);
    reveal_with_fuel(repeated, 4);
    assert(repeated(b, 3) =~= b + b + b);
    assert(b =~= seq![
        0x1bu8,
        if m.application_cursor {
            79u8
        } else {
            91u8
        },
        if e.kind is ScrollUp {
            65u8
        } else {
            66u8
        },
    ]);
}

/// A click, or any other event that is not the wheel, goes to a session that asked
/// for it and nowhere else.
pub proof fn law_clicks_go_to_the_session_or_nowhere(e: MouseEvent, m: ScreenModes)
    requires
        !(e.kind is ScrollUp || e.kind is ScrollDown),
    ensures
        mouse_deed(e, m) == (if gets(m.mouse, e.kind) {
            DeedModel::Write(mouse_bytes(e, m.mouse, m.encoding))
        } else {
            DeedModel::Nothing
        }),
{
}

// ---------------------------------------------------------------------------
// Modes and pastes
// ---------------------------------------------------------------------------

/// Whether `on` says just what `off` says and, somewhere in it, `seq` too.
#[verifier::opaque]
pub open spec fn adds(on: Seq<char>, off: Seq<char>, seq: Seq<char>) -> bool {
    exists|at: int|
        0 <= at <= off.len() && #[trigger] (off.take(at) + seq + off.skip(at)) == on
}

/// Whether the modes with `mouse` ask for it by `seq`, which without mouse events is not
/// there.
pub open spec fn mouse_is_asked_by(m: ScreenModes, mouse: MouseMode, seq: Seq<char>) -> bool {
    adds(
        mode_sequences((ScreenModes { mouse, ..m })),
        mode_sequences((ScreenModes { mouse: MouseMode::Off, ..m })),
        seq,
    )
}

/// Whether the modes with `encoding` ask for it by `seq`, which with the default encoding
/// is not there.
pub open spec fn encoding_is_asked_by(
    m: ScreenModes,
    encoding: MouseEncoding,
    seq: Seq<char>,
) -> bool {
    adds(
        mode_sequences((ScreenModes { encoding, ..m })),
        mode_sequences((ScreenModes { encoding: MouseEncoding::Default, ..m })),
        seq,
    )
}

proof fn lemma_adds(
    on: Seq<char>,
    off: Seq<char>,
    front: Seq<char>,
    seq: Seq<char>,
    back: Seq<char>,
)
    requires
        on =~= front + seq + back,
        off =~= front + back,
    ensures
        adds(on, off, seq),
{
    reveal(adds);
    assert(off.take(front.len() as int) =~= front);
    assert(off.skip(front.len() as int) =~= back);
    assert(off.take(front.len() as int) + seq + off.skip(front.len() as int) =~= on);
}

proof fn lemma_adds_1(
    a: Seq<char>,
    c: Seq<char>,
    k: Seq<char>,
    p: Seq<char>,
    s: Seq<char>,
    e: Seq<char>,
)
    ensures
        adds(a + c + k + p + s + e, Seq::<char>::empty() + c + k + p + s + e, a),
{
    let on = a + c + k + p + s + e;
    let off = Seq::<char>::empty() + c + k + p + s + e;
    let front = Seq::<char>::empty();
    let back = c + k + p + s + e;
    assert(on =~= front + a + back);
    assert(off =~= front + back);
    lemma_adds(on, off, front, a, back);
}

proof fn lemma_adds_2(
    a: Seq<char>,
    c: Seq<char>,
    k: Seq<char>,
    p: Seq<char>,
    s: Seq<char>,
    e: Seq<char>,
)
    ensures
        adds(a + c + k + p + s + e, a + Seq::<char>::empty() + k + p + s + e, c),
{
    let on = a + c + k + p + s + e;
    let off = a + Seq::<char>::empty() + k + p + s + e;
    let front = a;
    let back = k + p + s + e;
    assert(on =~= front + c + back);
    assert(off =~= front + back);
    lemma_adds(on, off, front, c, back);
}

proof fn lemma_adds_3(
    a: Seq<char>,
    c: Seq<char>,
    k: Seq<char>,
    p: Seq<char>,
    s: Seq<char>,
    e: Seq<char>,
)
    ensures
        adds(a + c + k + p + s + e, a + c + Seq::<char>::empty() + p + s + e, k),
{
    let on = a + c + k + p + s + e;
    let off = a + c + Seq::<char>::empty() + p + s + e;
    let front = a + c;
    let back = p + s + e;
    assert(on =~= front + k + back);
    assert(off =~= front + back);
    lemma_adds(on, off, front, k, back);
}

proof fn lemma_adds_4(
    a: Seq<char>,
    c: Seq<char>,
    k: Seq<char>,
    p: Seq<char>,
    s: Seq<char>,
    e: Seq<char>,
)
    ensures
        adds(a + c + k + p + s + e, a + c + k + Seq::<char>::empty() + s + e, p),
{
    let on = a + c + k + p + s + e;
    let off = a + c + k + Seq::<char>::empty() + s + e;
    let front = a + c + k;
    let back = s + e;
    assert(on =~= front + p + back);
    assert(off =~= front + back);
    lemma_adds(on, off, front, p, back);
}

proof fn lemma_adds_5(
    a: Seq<char>,
    c: Seq<char>,
    k: Seq<char>,
    p: Seq<char>,
    s: Seq<char>,
    e: Seq<char>,
)
    ensures
        adds(a + c + k + p + s + e, a + c + k + p + Seq::<char>::empty() + e, s),
{
    let on = a + c + k + p + s + e;
    let off = a + c + k + p + Seq::<char>::empty() + e;
    let front = a + c + k + p;
    let back = e;
    assert(on =~= front + s + back);
    assert(off =~= front + back);
    lemma_adds(on, off, front, s, back);
}

proof fn lemma_adds_6(
    a: Seq<char>,
    c: Seq<char>,
    k: Seq<char>,
    p: Seq<char>,
    s: Seq<char>,
    e: Seq<char>,
)
    ensures
        adds(a + c + k + p + s + e, a + c + k + p + s + Seq::<char>::empty(), e),
{
    let on = a + c + k + p + s + e;
    let off = a + c + k + p + s + Seq::<char>::empty();
    let front = a + c + k + p + s;
    let back = Seq::<char>::empty();
    assert(on =~= front + e + back);
    assert(off =~= front + back);
    lemma_adds(on, off, front, e, back);
}

/// What brings another screen to the same modes asks for each mode by its own sequence
/// where the mode is on, and leaves just that sequence out where it is off.
pub proof fn law_each_mode_is_asked_for_by_its_sequence(m: ScreenModes)
    ensures
        adds(
            mode_sequences((ScreenModes { alternate_screen: true, ..m })),
            mode_sequences((ScreenModes { alternate_screen: false, ..m })),
            "\x1b[?1049h"@,
        ),
        adds(
            mode_sequences((ScreenModes { application_cursor: true, ..m })),
            mode_sequences((ScreenModes { application_cursor: false, ..m })),
            "\x1b[?1h"@,
        ),
        adds(
            mode_sequences((ScreenModes { application_keypad: true, ..m })),
            mode_sequences((ScreenModes { application_keypad: false, ..m })),
            "\x1b="@,
        ),
        adds(
            mode_sequences((ScreenModes { bracketed_paste: true, ..m })),
            mode_sequences((ScreenModes { bracketed_paste: false, ..m })),
            "\x1b[?2004h"@,
        ),
        mouse_is_asked_by(m, MouseMode::Press, "\x1b[?9h"@),
        mouse_is_asked_by(m, MouseMode::PressRelease, "\x1b[?1000h"@),
        mouse_is_asked_by(m, MouseMode::ButtonMotion, "\x1b[?1002h"@),
        mouse_is_asked_by(m, MouseMode::AnyMotion, "\x1b[?1003h"@),
        encoding_is_asked_by(m, MouseEncoding::Utf8, "\x1b[?1005h"@),
        encoding_is_asked_by(m, MouseEncoding::Sgr, "\x1b[?1006h"@),
{
    reveal_strlit("");
    assert(""@ =~= Seq::<char>::empty());
    let a = crate::screen::when(m.alternate_screen, "\x1b[?1049h"@);
    let c = crate::screen::when(m.application_cursor, "\x1b[?1h"@);
    let k = crate::screen::when(m.application_keypad, "\x1b="@);
    let p = crate::screen::when(m.bracketed_paste, "\x1b[?2004h"@);
    let s = mouse_sequence(m.mouse);
    let e = encoding_sequence(m.encoding);
    lemma_adds_1("\x1b[?1049h"@, c, k, p, s, e);
    lemma_adds_2(a, "\x1b[?1h"@, k, p, s, e);
    lemma_adds_3(a, c, "\x1b="@, p, s, e);
    lemma_adds_4(a, c, k, "\x1b[?2004h"@, s, e);
    lemma_adds_5(a, c, k, p, "\x1b[?9h"@, e);
    lemma_adds_5(a, c, k, p, "\x1b[?1000h"@, e);
    lemma_adds_5(a, c, k, p, "\x1b[?1002h"@, e);
    lemma_adds_5(a, c, k, p, "\x1b[?1003h"@, e);
    lemma_adds_6(a, c, k, p, s, "\x1b[?1005h"@);
    lemma_adds_6(a, c, k, p, s, "\x1b[?1006h"@);
}

/// A paste is written as it is; a session that asked for it gets it between the two
/// markers.
pub proof fn law_pastes_are_written_as_they_are(s: Seq<char>)
    ensures
        paste_bytes(s, false) == encode_utf8(s),
        paste_bytes(s, true) == seq![0x1bu8, 91u8, 50u8, 48u8, 48u8, 126u8] + encode_utf8(s)
            + seq![0x1bu8, 91u8, 50u8, 48u8, 49u8, 126u8],
{
    reveal_strlit("\x1b[200~");
    reveal_strlit("\x1b[201~");
    is_ascii_chars_encode_utf8("\x1b[200~"@);
    is_ascii_chars_encode_utf8("\x1b[201~"@);
    assert(encode_utf8("\x1b[200~"@) =~= seq![0x1bu8, 91u8, 50u8, 48u8, 48u8, 126u8]);
    assert(encode_utf8("\x1b[201~"@) =~= seq![0x1bu8, 91u8, 50u8, 48u8, 49u8, 126u8]);
}

} // verus!
