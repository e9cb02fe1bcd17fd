//! What a session's screen says about how it wants to be written to, and the
//! bytes that bring another screen to the same state.

use crate::event::{KeyEvent, KeyModifiers, MouseButton, MouseEvent, MouseEventKind};
use crate::input::{encode_key, encoded, encoding_of, push_bytes, KbdTracker};
use crate::text;
use vstd::prelude::*;
use vstd::utf8::encode_utf8;
use vt100::Screen;

verus! {

/// Which mouse events a session wants.
#[derive(Copy, Clone, Debug, PartialEq, Eq, Structural)]
pub enum MouseMode {
    Off,
    Press,
    PressRelease,
    ButtonMotion,
    AnyMotion,
}

/// How a session wants mouse events written.
#[derive(Copy, Clone, Debug, PartialEq, Eq, Structural)]
pub enum MouseEncoding {
    Default,
    Utf8,
    Sgr,
}

/// The modes of a screen that decide what is written to its session.
#[derive(Copy, Clone, Debug, PartialEq, Eq, Structural)]
pub struct ScreenModes {
    pub alternate_screen: bool,
    pub application_cursor: bool,
    pub application_keypad: bool,
    pub bracketed_paste: bool,
    pub mouse: MouseMode,
    pub encoding: MouseEncoding,
}

// ---------------------------------------------------------------------------
// vt100
// ---------------------------------------------------------------------------

#[verifier::external_type_specification]
#[verifier::external_body]
pub struct ExScreen(vt100::Screen);

/// Whether a screen is in the alternate-screen mode.
pub uninterp spec fn on_alternate(s: Screen) -> bool;

/// `vt100::Screen::alternate_screen` reads a mode of the screen.
pub assume_specification[ Screen::alternate_screen ](s: &Screen) -> (r: bool)
    ensures
        r == on_alternate(*s),
;

/// Whether a screen is in the application-cursor mode.
pub uninterp spec fn on_app_cursor(s: Screen) -> bool;

/// `vt100::Screen::application_cursor` reads a mode of the screen.
pub assume_specification[ Screen::application_cursor ](s: &Screen) -> (r: bool)
    ensures
        r == on_app_cursor(*s),
;

/// Whether a screen is in the application-keypad mode.
pub uninterp spec fn on_app_keypad(s: Screen) -> bool;

/// `vt100::Screen::application_keypad` reads a mode of the screen.
pub assume_specification[ Screen::application_keypad ](s: &Screen) -> (r: bool)
    ensures
        r == on_app_keypad(*s),
;

/// Whether a screen is in the bracketed-paste mode.
pub uninterp spec fn on_bracketed_paste(s: Screen) -> bool;

/// `vt100::Screen::bracketed_paste` reads a mode of the screen.
pub assume_specification[ Screen::bracketed_paste ](s: &Screen) -> (r: bool)
    ensures
        r == on_bracketed_paste(*s),
;

/// Which mouse events a screen asks for.
pub uninterp spec fn mouse_on(s: Screen) -> MouseMode;

/// `vt100::Screen::mouse_protocol_mode` reads which mouse events the screen asks
/// for.
#[verifier::external_body]
fn mouse_mode(s: &Screen) -> (r: MouseMode)
    ensures
        r == mouse_on(*s),
{
    match s.mouse_protocol_mode() {
        vt100::MouseProtocolMode::None => MouseMode::Off,
        vt100::MouseProtocolMode::Press => MouseMode::Press,
        vt100::MouseProtocolMode::PressRelease => MouseMode::PressRelease,
        vt100::MouseProtocolMode::ButtonMotion => MouseMode::ButtonMotion,
        vt100::MouseProtocolMode::AnyMotion => MouseMode::AnyMotion,
    }
}

/// How a screen asks for mouse events to be written.
pub uninterp spec fn mouse_encoding_on(s: Screen) -> MouseEncoding;

/// `vt100::Screen::mouse_protocol_encoding` reads how the screen asks for mouse
/// events to be written.
#[verifier::external_body]
fn mouse_encoding(s: &Screen) -> (r: MouseEncoding)
    ensures
        r == mouse_encoding_on(*s),
{
    match s.mouse_protocol_encoding() {
        vt100::MouseProtocolEncoding::Default => MouseEncoding::Default,
        vt100::MouseProtocolEncoding::Utf8 => MouseEncoding::Utf8,
        vt100::MouseProtocolEncoding::Sgr => MouseEncoding::Sgr,
    }
}

/// The escape sequences that draw a screen's visible contents.
pub uninterp spec fn drawn(s: Screen) -> Seq<u8>;

/// `vt100::Screen::contents_formatted`: the escape sequences that draw the
/// visible contents. The contract says that they are a function of the screen.
#[verifier::external_body]
pub(crate) fn contents_formatted(s: &Screen) -> (r: Vec<u8>)
    ensures
        r@ == drawn(*s),
{
    s.contents_formatted()
}

/// The modes of a screen.
pub open spec fn modes(s: Screen) -> ScreenModes {
    ScreenModes {
        alternate_screen: on_alternate(s),
        application_cursor: on_app_cursor(s),
        application_keypad: on_app_keypad(s),
        bracketed_paste: on_bracketed_paste(s),
        mouse: mouse_on(s),
        encoding: mouse_encoding_on(s),
    }
}

/// The modes of a screen.
pub fn modes_of(s: &Screen) -> (r: ScreenModes)
    ensures
        r == modes(*s),
{
    ScreenModes {
        alternate_screen: s.alternate_screen(),
        application_cursor: s.application_cursor(),
        application_keypad: s.application_keypad(),
        bracketed_paste: s.bracketed_paste(),
        mouse: mouse_mode(s),
        encoding: mouse_encoding(s),
    }
}

// ---------------------------------------------------------------------------
// Bringing another screen to the same modes
// ---------------------------------------------------------------------------

/// The sequence that asks for mouse events, if any are asked for.
pub open spec fn mouse_sequence(m: MouseMode) -> Seq<char> {
    match m {
        MouseMode::Off => ""@,
        MouseMode::Press => "\x1b[?9h"@,
        MouseMode::PressRelease => "\x1b[?1000h"@,
        MouseMode::ButtonMotion => "\x1b[?1002h"@,
        MouseMode::AnyMotion => "\x1b[?1003h"@,
    }
}

/// The sequence that asks for an encoding of mouse events, where it is not the
/// default.
pub open spec fn encoding_sequence(e: MouseEncoding) -> Seq<char> {
    match e {
        MouseEncoding::Default => ""@,
        MouseEncoding::Utf8 => "\x1b[?1005h"@,
        MouseEncoding::Sgr => "\x1b[?1006h"@,
    }
}

/// `s` where `on`, else nothing.
pub open spec fn when(on: bool, s: Seq<char>) -> Seq<char> {
    if on {
        s
    } else {
        seq![]
    }
}

/// The escape sequences that bring a fresh screen to the modes.
pub open spec fn mode_sequences(m: ScreenModes) -> Seq<char> {
    when(m.alternate_screen, "\x1b[?1049h"@) + when(m.application_cursor, "\x1b[?1h"@) + when(
        m.application_keypad,
        "\x1b="@,
    ) + when(m.bracketed_paste, "\x1b[?2004h"@) + mouse_sequence(m.mouse) + encoding_sequence(
        m.encoding,
    )
}

fn push_when(out: &mut String, on: bool, s: &str)
    ensures
        final(out)@ == old(out)@ + when(on, s@),
{
    if on {
        out.push_str(s);
    } else {
        assert(out@ =~= out@ + Seq::<char>::empty());
    }
}

/// The escape sequences that bring a fresh screen to the modes.
pub fn prelude_for(m: ScreenModes) -> (r: Vec<u8>)
    ensures
        r@ == encode_utf8(mode_sequences(m)),
{
    let mut s: String = String::new();
    push_when(&mut s, m.alternate_screen, "\x1b[?1049h");
    push_when(&mut s, m.application_cursor, "\x1b[?1h");
    push_when(&mut s, m.application_keypad, "\x1b=");
    push_when(&mut s, m.bracketed_paste, "\x1b[?2004h");
    s.push_str(
        match m.mouse {
            MouseMode::Off => "",
            MouseMode::Press => "\x1b[?9h",
            MouseMode::PressRelease => "\x1b[?1000h",
            MouseMode::ButtonMotion => "\x1b[?1002h",
            MouseMode::AnyMotion => "\x1b[?1003h",
        },
    );
    s.push_str(
        match m.encoding {
            MouseEncoding::Default => "",
            MouseEncoding::Utf8 => "\x1b[?1005h",
            MouseEncoding::Sgr => "\x1b[?1006h",
        },
    );
    assert(s@ =~= mode_sequences(m));
    let mut out: Vec<u8> = Vec::new();
    push_bytes(&mut out, s.as_str().as_bytes());
    assert(out@ =~= encode_utf8(s@));
    out
}

/// Escape-sequence prelude that puts the receiving vt100 parser back into
/// the same alt-screen / mouse / cursor-key / bracketed-paste mode the
/// supervisor's parser is in. Without this, after a client restart the
/// local parser thinks we're on the main screen (and no mouse capture), so
/// the wheel would go to local scrollback even when the app under the PTY is in
/// alt-screen and wants the wheel forwarded as arrow keys.
pub fn mode_prelude(screen: &Screen) -> (r: Vec<u8>)
    ensures
        r@ == encode_utf8(mode_sequences(modes(*screen))),
{
    prelude_for(modes_of(screen))
}

/// A screen in no mode needs no prelude.
pub proof fn law_plain_screens_need_no_prelude(m: ScreenModes)
    requires
        !m.alternate_screen,
        !m.application_cursor,
        !m.application_keypad,
        !m.bracketed_paste,
        m.mouse is Off,
        m.encoding is Default,
    ensures
        encode_utf8(mode_sequences(m)).len() == 0,
{
    reveal_strlit("");
    assert(mode_sequences(m) =~= seq![]);
}

// ---------------------------------------------------------------------------
// Keys
// ---------------------------------------------------------------------------

/// The bytes of a key, as the session whose screen and keyboard protocol these
/// are wants them.
pub fn key_bytes(key: KeyEvent, screen: &Screen, kbd: &KbdTracker) -> (r: Vec<u8>)
    ensures
        r@ == encoded(key, on_app_cursor(*screen), encoding_of(kbd@)),
{
    encode_key(key, screen.application_cursor(), kbd.encoding())
}

// ---------------------------------------------------------------------------
// The mouse
// ---------------------------------------------------------------------------

/// Whether an event turns the wheel up or down.
pub open spec fn is_wheel(kind: MouseEventKind) -> bool {
    kind is ScrollUp || kind is ScrollDown
}

/// The number of a button.
pub open spec fn button_number(b: MouseButton) -> int {
    match b {
        MouseButton::Left => 0,
        MouseButton::Middle => 1,
        MouseButton::Right => 2,
    }
}

/// The button that an event is written with, without modifiers; motion adds 32.
pub open spec fn event_button(kind: MouseEventKind) -> int {
    match kind {
        MouseEventKind::Down(b) => button_number(b),
        MouseEventKind::Up(b) => button_number(b),
        MouseEventKind::Drag(b) => button_number(b) + 32,
        MouseEventKind::Moved => 35,
        MouseEventKind::ScrollUp => 64,
        MouseEventKind::ScrollDown => 65,
        MouseEventKind::ScrollLeft => 66,
        MouseEventKind::ScrollRight => 67,
    }
}

/// Whether a session wants an event.
pub open spec fn wanted(mode: MouseMode, kind: MouseEventKind) -> bool {
    match mode {
        MouseMode::Off => false,
        MouseMode::Press => !(kind is Up || kind is Drag || kind is Moved),
        MouseMode::PressRelease => !(kind is Drag || kind is Moved),
        MouseMode::ButtonMotion => !(kind is Moved),
        MouseMode::AnyMotion => true,
    }
}

/// What modifiers add to the button.
pub open spec fn modifier_sum(m: KeyModifiers) -> int {
    (if m.shift { 4int } else { 0 }) + (if m.alt { 8int } else { 0 }) + (if m.control {
        16int
    } else {
        0
    })
}

/// A coordinate or button as one byte, at most 255.
pub open spec fn offset_byte(n: int) -> u8 {
    if n + 32 <= 255 {
        (n + 32) as u8
    } else {
        255
    }
}

/// The bytes of a mouse event: none where the session does not want it.
pub open spec fn mouse_bytes(e: MouseEvent, mode: MouseMode, enc: MouseEncoding) -> Seq<u8> {
    let button = event_button(e.kind) + modifier_sum(e.modifiers);
    let col = e.column + 1;
    let row = e.row + 1;
    if !wanted(mode, e.kind) {
        seq![]
    } else if enc is Sgr {
        encode_utf8(
            "\x1b[<"@ + text::decimal(button as nat) + ";"@ + text::decimal(col as nat) + ";"@
                + text::decimal(row as nat) + (if e.kind is Up {
                "m"@
            } else {
                "M"@
            }),
        )
    } else {
        seq![
            0x1bu8,
            91,
            77,
            offset_byte(
                if e.kind is Up {
                    3
                } else {
                    button
                },
            ),
            offset_byte(col),
            offset_byte(row),
        ]
    }
}

fn button_of(kind: MouseEventKind) -> (r: u32)
    ensures
        r == event_button(kind),
        r <= 67,
{
    match kind {
        MouseEventKind::Down(MouseButton::Left) | MouseEventKind::Up(MouseButton::Left) => 0,
        MouseEventKind::Down(MouseButton::Middle) | MouseEventKind::Up(MouseButton::Middle) => 1,
        MouseEventKind::Down(MouseButton::Right) | MouseEventKind::Up(MouseButton::Right) => 2,
        MouseEventKind::Drag(MouseButton::Left) => 32,
        MouseEventKind::Drag(MouseButton::Middle) => 33,
        MouseEventKind::Drag(MouseButton::Right) => 34,
        MouseEventKind::Moved => 35,
        MouseEventKind::ScrollUp => 64,
        MouseEventKind::ScrollDown => 65,
        MouseEventKind::ScrollLeft => 66,
        MouseEventKind::ScrollRight => 67,
    }
}

fn wants(mode: MouseMode, kind: MouseEventKind) -> (r: bool)
    ensures
        r == wanted(mode, kind),
{
    let up = matches!(kind, MouseEventKind::Up(_));
    let drag = matches!(kind, MouseEventKind::Drag(_));
    let moved = matches!(kind, MouseEventKind::Moved);
    match mode {
        MouseMode::Off => false,
        MouseMode::Press => !(up || drag || moved),
        MouseMode::PressRelease => !(drag || moved),
        MouseMode::ButtonMotion => !moved,
        MouseMode::AnyMotion => true,
    }
}

fn one_byte(n: u32) -> (r: u8)
    requires
        n <= 100_000,
    ensures
        r == offset_byte(n as int),
{
    if n + 32 <= 255 {
        (n + 32) as u8
    } else {
        255
    }
}

/// The bytes of a mouse event, as the session wants them.
pub fn encode_mouse(ev: MouseEvent, mode: MouseMode, enc: MouseEncoding) -> (r: Vec<u8>)
    ensures
        r@ == mouse_bytes(ev, mode, enc),
{
    let mut out: Vec<u8> = Vec::new();
    if !wants(mode, ev.kind) {
        assert(out@ =~= seq![]);
        return out;
    }
    let mut button: u32 = button_of(ev.kind);
    if ev.modifiers.shift {
        button = button + 4;
    }
    if ev.modifiers.alt {
        button = button + 8;
    }
    if ev.modifiers.control {
        button = button + 16;
    }
    let col: u32 = ev.column as u32 + 1;
    let row: u32 = ev.row as u32 + 1;
    let up = matches!(ev.kind, MouseEventKind::Up(_));
    if enc == MouseEncoding::Sgr {
        let mut s = text::concat3("\x1b[<", text::to_decimal(button as u64).as_str(), ";");
        s.push_str(text::to_decimal(col as u64).as_str());
        s.push_str(";");
        s.push_str(text::to_decimal(row as u64).as_str());
        if up {
            s.push_str("m");
        } else {
            s.push_str("M");
        }
        push_bytes(&mut out, s.as_str().as_bytes());
        assert(out@ =~= encode_utf8(s@));
        return out;
    }
    out.push(0x1b);
    out.push(91);
    out.push(77);
    out.push(
        one_byte(
            if up {
                3
            } else {
                button
            },
        ),
    );
    out.push(one_byte(col));
    out.push(one_byte(row));
    assert(out@ =~= mouse_bytes(ev, mode, enc));
    out
}

/// The arrow key that a turn of the wheel stands for.
pub open spec fn wheel_arrow(kind: MouseEventKind, app_cursor: bool) -> Option<Seq<char>> {
    match kind {
        MouseEventKind::ScrollUp => Some(if app_cursor { "\x1bOA"@ } else { "\x1b[A"@ }),
        MouseEventKind::ScrollDown => Some(if app_cursor { "\x1bOB"@ } else { "\x1b[B"@ }),
        _ => None,
    }
}

/// `s`, `n` times over.
pub open spec fn repeated(s: Seq<u8>, n: nat) -> Seq<u8>
    decreases n,
{
    if n == 0 {
        seq![]
    } else {
        repeated(s, (n - 1) as nat) + s
    }
}

/// The arrow keys that a turn of the wheel stands for, one for each line.
pub fn scroll_as_arrows(kind: MouseEventKind, app_cursor: bool, lines: usize) -> (r: Vec<u8>)
    ensures
        r@ == (match wheel_arrow(kind, app_cursor) {
            Some(s) => repeated(encode_utf8(s), lines as nat),
            None => seq![],
        }),
{
    let mut out: Vec<u8> = Vec::new();
    assert(out@ =~= seq![]);
    let arrow = match kind {
        MouseEventKind::ScrollUp => if app_cursor { "\x1bOA" } else { "\x1b[A" },
        MouseEventKind::ScrollDown => if app_cursor { "\x1bOB" } else { "\x1b[B" },
        _ => return out,
    };
    let ghost one = encode_utf8(arrow@);
    let mut i: usize = 0;
    while i < lines
        invariant
            i <= lines,
            one == encode_utf8(arrow@),
            out@ == repeated(one, i as nat),
        decreases lines - i,
    {
        push_bytes(&mut out, arrow.as_bytes());
        i += 1;
    }
    out
}

/// What is done with a mouse event over a session.
#[derive(Debug)]
pub enum MouseDeed {
    /// These bytes go to the session.
    Write(Vec<u8>),
    /// The view moves up by three lines into what has scrolled away.
    ScrollBack,
    /// The view moves down by three lines.
    ScrollForward,
    Nothing,
}

/// A deed in the abstract.
pub enum DeedModel {
    Write(Seq<u8>),
    ScrollBack,
    ScrollForward,
    Nothing,
}

impl View for MouseDeed {
    type V = DeedModel;

    open spec fn view(&self) -> DeedModel {
        match *self {
            MouseDeed::Write(b) => DeedModel::Write(b@),
            MouseDeed::ScrollBack => DeedModel::ScrollBack,
            MouseDeed::ScrollForward => DeedModel::ScrollForward,
            MouseDeed::Nothing => DeedModel::Nothing,
        }
    }
}

/// What is done with a mouse event: a session that wants it gets it; on the
/// alternate screen the wheel becomes arrow keys; else the wheel moves the view.
/// With Shift the wheel always moves the view.
pub open spec fn mouse_deed(e: MouseEvent, m: ScreenModes) -> DeedModel {
    let bypass = is_wheel(e.kind) && e.modifiers.shift;
    if !bypass && wanted(m.mouse, e.kind) {
        DeedModel::Write(mouse_bytes(e, m.mouse, m.encoding))
    } else if !bypass && m.alternate_screen && is_wheel(e.kind) {
        DeedModel::Write(repeated(encode_utf8(wheel_arrow(e.kind, m.application_cursor)->Some_0), 3))
    } else {
        match e.kind {
            MouseEventKind::ScrollUp => DeedModel::ScrollBack,
            MouseEventKind::ScrollDown => DeedModel::ScrollForward,
            _ => DeedModel::Nothing,
        }
    }
}

/// What is done with a mouse event over a session whose screen is in those
/// modes.
pub fn write_mouse(ev: MouseEvent, m: ScreenModes) -> (r: MouseDeed)
    ensures
        r@ == mouse_deed(ev, m),
{
    let wheel = matches!(ev.kind, MouseEventKind::ScrollUp) || matches!(
        ev.kind,
        MouseEventKind::ScrollDown
    );
    let bypass = wheel && ev.modifiers.shift;
    if !bypass && wants(m.mouse, ev.kind) {
        return MouseDeed::Write(encode_mouse(ev, m.mouse, m.encoding));
    }
    if !bypass && m.alternate_screen && wheel {
        return MouseDeed::Write(scroll_as_arrows(ev.kind, m.application_cursor, 3));
    }
    match ev.kind {
        MouseEventKind::ScrollUp => MouseDeed::ScrollBack,
        MouseEventKind::ScrollDown => MouseDeed::ScrollForward,
        _ => MouseDeed::Nothing,
    }
}

/// How far back the view is after it moved by `delta` lines; never in front of
/// the present.
pub fn scrollback_after(now: usize, delta: i32) -> (r: usize)
    requires
        now + delta <= usize::MAX,
    ensures
        r == (if now + delta < 0 {
            0
        } else {
            now + delta
        }),
{
    let next: i128 = now as i128 + delta as i128;
    if next < 0 {
        0
    } else {
        next as usize
    }
}

/// With Shift held the wheel never reaches the session.
pub proof fn law_shift_keeps_the_wheel(e: MouseEvent, m: ScreenModes)
    requires
        is_wheel(e.kind),
        e.modifiers.shift,
    ensures
        !(mouse_deed(e, m) is Write),
{
}

// ---------------------------------------------------------------------------
// Pastes
// ---------------------------------------------------------------------------

/// The most of a paste that is written at once.
pub const PASTE_CHUNK: usize = 16_384;

/// The bytes of a paste: inside markers where the session wants them.
pub open spec fn paste_bytes(s: Seq<char>, bracketed: bool) -> Seq<u8> {
    if bracketed {
        encode_utf8("\x1b[200~"@) + encode_utf8(s) + encode_utf8("\x1b[201~"@)
    } else {
        encode_utf8(s)
    }
}

/// The bytes of all chunks, one behind the other.
pub open spec fn all_bytes(chunks: Seq<Vec<u8>>) -> Seq<u8>
    decreases chunks.len(),
{
    if chunks.len() == 0 {
        seq![]
    } else {
        all_bytes(chunks.drop_last()) + chunks.last()@
    }
}

/// How many chunks so many bytes of text take; even no text takes one.
pub open spec fn chunk_count(len: nat) -> nat {
    if len == 0 {
        1
    } else {
        ((len + PASTE_CHUNK - 1) / PASTE_CHUNK as int) as nat
    }
}

/// The text in chunk `i`.
pub open spec fn chunk_text(text: Seq<u8>, i: int) -> Seq<u8> {
    let end = (i + 1) * PASTE_CHUNK;
    text.subrange(
        i * PASTE_CHUNK,
        if end <= text.len() {
            end
        } else {
            text.len() as int
        },
    )
}

/// What opens and what closes a paste.
pub open spec fn markers(bracketed: bool) -> (Seq<u8>, Seq<u8>) {
    if bracketed {
        (encode_utf8("\x1b[200~"@), encode_utf8("\x1b[201~"@))
    } else {
        (seq![], seq![])
    }
}

/// Chunk `i` of a paste: its text, with the markers before the first and behind
/// the last.
pub open spec fn paste_chunk(text: Seq<u8>, bracketed: bool, i: int) -> Seq<u8> {
    let (open, close) = markers(bracketed);
    (if i == 0 {
        open
    } else {
        seq![]
    }) + chunk_text(text, i) + (if i == chunk_count(text.len()) - 1 {
        close
    } else {
        seq![]
    })
}

/// The chunks in which a paste is written: each holds at most so much of the
/// text, and together they are the paste. The markers wrap the *whole* sequence,
/// so the receiving app still sees one paste. Even an empty paste is written.
pub fn paste_chunks(s: &str, bracketed: bool) -> (r: Vec<Vec<u8>>)
    ensures
        r.len() == chunk_count(encode_utf8(s@).len()),
        all_bytes(r@) == paste_bytes(s@, bracketed),
        forall|i: int|
            0 <= i < r@.len() ==> (#[trigger] r@[i])@ == paste_chunk(encode_utf8(s@), bracketed, i),
{
    let body = s.as_bytes();
    let mut out: Vec<Vec<u8>> = Vec::new();
    let mut off: usize = 0;
    let ghost count = chunk_count(body@.len()) as int;
    let ghost (open, close) = markers(bracketed);
    loop
        invariant_except_break
            off <= body.len(),
            off == out.len() * PASTE_CHUNK,
            out.len() < count,
            all_bytes(out@) == (if out.len() == 0 {
                seq![]
            } else {
                open + body@.take(off as int)
            }),
        invariant
            body@ == encode_utf8(s@),
            count == chunk_count(body@.len()),
            (open, close) == markers(bracketed),
            forall|i: int|
                0 <= i < out@.len() ==> (#[trigger] out@[i])@ == paste_chunk(body@, bracketed, i),
        ensures
            out.len() == count,
            all_bytes(out@) == open + body@ + close,
        decreases count - out.len(),
    {
        let left: usize = body.len() - off;
        let end: usize = if left <= PASTE_CHUNK {
            body.len()
        } else {
            off + PASTE_CHUNK
        };
        let first = out.len() == 0;
        let last = end >= body.len();
        let mut bytes: Vec<u8> = Vec::new();
        if first && bracketed {
            push_bytes(&mut bytes, "\x1b[200~".as_bytes());
        }
        let ghost head = bytes@;
        push_range(&mut bytes, body, off, end);
        let ghost mid = bytes@;
        if last && bracketed {
            push_bytes(&mut bytes, "\x1b[201~".as_bytes());
        }
        let ghost before = out@;
        let ghost chunk = bytes@;
        let ghost at = out@.len() as int;
        out.push(bytes);
        proof {
            assert(out@.drop_last() =~= before);
            assert(out@.last()@ == chunk);
            assert(mid =~= head + body@.subrange(off as int, end as int));
            assert(body@.take(off as int) + body@.subrange(off as int, end as int)
                =~= body@.take(end as int));
            assert(chunk_text(body@, at) == body@.subrange(off as int, end as int));
            assert(last <==> at == count - 1);
            if first {
                assert(head =~= open);
                assert(off == 0);
                assert(all_bytes(before) =~= seq![]);
                assert(body@.subrange(0, end as int) =~= body@.take(end as int));
            } else {
                assert(head =~= seq![]);
            }
            if last {
                assert(chunk =~= mid + close);
                assert(body@.take(end as int) =~= body@);
                assert(all_bytes(out@) =~= open + body@ + close);
            } else {
                assert(chunk =~= mid);
                assert(all_bytes(out@) =~= open + body@.take(end as int));
            }
            assert(chunk =~= paste_chunk(body@, bracketed, at));
        }
        off = end;
        if last {
            break;
        }
    }
    proof {
        assert(all_bytes(out@) =~= paste_bytes(s@, bracketed));
    }
    out
}

/// The chunks in which a paste is written to the session whose screen that is:
/// inside markers where the screen is in the bracketed-paste mode.
pub fn paste_writes(s: &str, screen: &Screen) -> (r: Vec<Vec<u8>>)
    ensures
        r.len() == chunk_count(encode_utf8(s@).len()),
        all_bytes(r@) == paste_bytes(s@, on_bracketed_paste(*screen)),
        forall|i: int|
            0 <= i < r@.len() ==> (#[trigger] r@[i])@ == paste_chunk(
                encode_utf8(s@),
                on_bracketed_paste(*screen),
                i,
            ),
{
    paste_chunks(s, screen.bracketed_paste())
}

/// No chunk of a paste carries more of the text than it may, and the markers add
/// at most six bytes to the first and six to the last.
pub proof fn law_chunks_are_bounded(text: Seq<u8>, bracketed: bool, i: int)
    requires
        0 <= i < chunk_count(text.len()),
    ensures
        chunk_text(text, i).len() <= PASTE_CHUNK,
        paste_chunk(text, bracketed, i).len() <= chunk_text(text, i).len() + (if bracketed && i == 0 {
            6int
        } else {
            0
        }) + (if bracketed && i == chunk_count(text.len()) - 1 {
            6int
        } else {
            0
        }),
{
    lemma_markers();
}

proof fn lemma_markers()
    ensures
        encode_utf8("\x1b[200~"@).len() == 6,
        encode_utf8("\x1b[201~"@).len() == 6,
{
    reveal_strlit("\x1b[200~");
    reveal_strlit("\x1b[201~");
    vstd::utf8::is_ascii_chars_encode_utf8("\x1b[200~"@);
    vstd::utf8::is_ascii_chars_encode_utf8("\x1b[201~"@);
}

fn push_range(out: &mut Vec<u8>, bytes: &[u8], from: usize, to: usize)
    requires
        from <= to <= bytes@.len(),
    ensures
        final(out)@ == old(out)@ + bytes@.subrange(from as int, to as int),
{
    let mut i: usize = from;
    assert(out@ =~= old(out)@ + bytes@.subrange(from as int, from as int));
    while i < to
        invariant
            from <= i <= to <= bytes@.len(),
            out@ == old(out)@ + bytes@.subrange(from as int, i as int),
        decreases to - i,
    {
        out.push(bytes[i]);
        assert(out@ =~= old(out)@ + bytes@.subrange(from as int, i + 1));
        i += 1;
    }
}

} // verus!
