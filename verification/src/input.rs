//! Input: what a terminal event means, how keys are written to a session, and
//! what a session's output says about keys and the clipboard.

use crate::app::Action;
use crate::event::{Event, KeyCode, KeyEvent, KeyEventKind, KeyModifiers};
use crate::layout::TermSize;
use crate::text;
use vstd::prelude::*;
use vstd::utf8::{decode_utf8, encode_utf8, valid_utf8};

verus! {

// ---------------------------------------------------------------------------
// Events
// ---------------------------------------------------------------------------

/// What a terminal event means: releases of keys mean nothing, Ctrl-Q quits at
/// once, and the rest is passed on.
pub open spec fn meaning(event: Event) -> Option<Action> {
    match event {
        Event::Key(k) => if k.kind is Release {
            None
        } else if k.modifiers.control && k.code == KeyCode::Char('q') {
            Some(Action::Quit)
        } else {
            Some(Action::Key(k))
        },
        Event::Mouse(m) => Some(Action::Mouse(m)),
        Event::Paste(s) => Some(Action::Paste(s)),
        Event::Resize(cols, rows) => Some(Action::Resize(TermSize { rows, cols })),
        _ => None,
    }
}

/// Map a terminal event to an Action. Returns None if not actionable.
pub fn map(event: Event) -> (r: Option<Action>)
    ensures
        r == meaning(event),
{
    match event {
        Event::Key(k) => {
            if k.kind == KeyEventKind::Release {
                return None;
            }
            if k.modifiers.control && k.code == KeyCode::Char('q') {
                return Some(Action::Quit);
            }
            Some(Action::Key(k))
        },
        Event::Mouse(m) => Some(Action::Mouse(m)),
        Event::Paste(s) => Some(Action::Paste(s)),
        Event::Resize(cols, rows) => Some(Action::Resize(TermSize::new(rows, cols))),
        _ => None,
    }
}

// ---------------------------------------------------------------------------
// Keys
// ---------------------------------------------------------------------------

/// Which keyboard-input protocol the *inner* app has negotiated, inferred from
/// its PTY output by [`KbdTracker`]. Decides how `encode_key` represents
/// modifiers on functional keys (Enter, Tab, …) that the legacy raw-byte
/// encoding can't express.
#[derive(Copy, Clone, Debug, PartialEq, Eq, Structural)]
pub enum KbdEncoding {
    /// No enhanced protocol active. Modifiers on functional keys are dropped
    /// (this is what every terminal did before kitty/modifyOtherKeys).
    Legacy,
    /// Kitty keyboard protocol, with the active progressive-enhancement flags
    /// (bit 0 = disambiguate, bit 3 = report-all-keys-as-escape-codes).
    Kitty(u8),
    /// xterm `modifyOtherKeys` at level >= 1.
    ModifyOtherKeys,
}

/// Kitty modifier bitmask per the protocol: shift=1, alt=2, ctrl=4, super=8.
pub open spec fn mod_bits(m: KeyModifiers) -> int {
    (if m.shift { 1int } else { 0 }) + (if m.alt { 2int } else { 0 }) + (if m.control { 4int } else {
        0
    }) + (if m.super_key { 8int } else { 0 })
}

/// Kitty modifier bitmask per the protocol: shift=1, alt=2, ctrl=4, super=8.
/// The on-the-wire "modifier parameter" is this value + 1.
fn kitty_mod_bits(m: KeyModifiers) -> (r: u8)
    ensures
        r == mod_bits(m),
        r < 16,
{
    let mut v: u8 = 0;
    if m.shift {
        v = v + 1;
    }
    if m.alt {
        v = v + 2;
    }
    if m.control {
        v = v + 4;
    }
    if m.super_key {
        v = v + 8;
    }
    v
}

/// The number that the enhanced protocols have for a functional key.
pub open spec fn functional(code: KeyCode) -> Option<nat> {
    match code {
        KeyCode::Enter => Some(13),
        KeyCode::Tab => Some(9),
        KeyCode::Backspace => Some(127),
        KeyCode::Esc => Some(27),
        _ => None,
    }
}

/// The escape sequence of a functional key whose modifiers the legacy encoding
/// cannot represent, in the protocol that the inner app negotiated; none where
/// the legacy encoding serves, which it does for keys without modifiers unless
/// the app asked for every key.
pub open spec fn enhanced(k: KeyEvent, kbd: KbdEncoding) -> Option<Seq<char>> {
    let bits = mod_bits(k.modifiers);
    let modifier = text::decimal((bits + 1) as nat);
    match functional(k.code) {
        Some(code) => match kbd {
            KbdEncoding::Kitty(flags) => if bits != 0 {
                Some("\x1b["@ + text::decimal(code) + ";"@ + modifier + "u"@)
            } else if flags & 8 != 0 {
                Some("\x1b["@ + text::decimal(code) + "u"@)
            } else {
                None
            },
            KbdEncoding::ModifyOtherKeys => if bits != 0 {
                Some("\x1b[27;"@ + modifier + ";"@ + text::decimal(code) + "~"@)
            } else {
                None
            },
            KbdEncoding::Legacy => None,
        },
        None => None,
    }
}

fn functional_code(code: KeyCode) -> (r: Option<u64>)
    ensures
        match (r, functional(code)) {
            (Some(a), Some(b)) => a == b,
            (None, None) => true,
            _ => false,
        },
{
    match code {
        KeyCode::Enter => Some(13),
        KeyCode::Tab => Some(9),
        KeyCode::Backspace => Some(127),
        KeyCode::Esc => Some(27),
        _ => None,
    }
}

/// Encode "functional" keys (Enter/Tab/Backspace/Esc) whose modifiers the
/// legacy encoding can't represent, using whatever enhanced protocol the inner
/// app negotiated. Printable `Char`s deliberately stay legacy: kitty's
/// base-layout keycodes can't be reconstructed from an already-shifted char, so
/// re-encoding them would corrupt normal typing.
fn encode_functional_enhanced(k: KeyEvent, kbd: KbdEncoding) -> (r: Option<String>)
    ensures
        text::opt_text(r) == enhanced(k, kbd),
{
    let keycode = match functional_code(k.code) {
        Some(n) => text::to_decimal(n),
        None => return None,
    };
    let bits: u8 = kitty_mod_bits(k.modifiers);
    let modifier = text::to_decimal((bits + 1) as u64);
    match kbd {
        KbdEncoding::Kitty(flags) => {
            let mut s = text::concat2("\x1b[", keycode.as_str());
            if bits != 0 {
                s.push_str(";");
                s.push_str(modifier.as_str());
            } else if flags & 8 == 0 {
                return None;
            }
            s.push_str("u");
            Some(s)
        },
        KbdEncoding::ModifyOtherKeys => {
            if bits == 0 {
                return None;
            }
            let mut s = text::concat3("\x1b[27;", modifier.as_str(), ";");
            s.push_str(keycode.as_str());
            s.push_str("~");
            Some(s)
        },
        KbdEncoding::Legacy => None,
    }
}

/// The byte that Ctrl makes of a character.
pub open spec fn control_byte(c: char) -> u8 {
    if c == '@' || c == ' ' {
        0
    } else if 'a' <= c && c <= 'z' {
        (c as int - 'a' as int + 1) as u8
    } else if 'A' <= c && c <= 'Z' {
        (c as int - 'A' as int + 1) as u8
    } else if c == '[' {
        0x1b
    } else if c == '\\' || c == '4' {
        0x1c
    } else if c == ']' || c == '5' {
        0x1d
    } else if c == '^' || c == '6' {
        0x1e
    } else if c == '_' || c == '7' {
        0x1f
    } else if c == '?' {
        0x7f
    } else {
        (c as int % 256) as u8
    }
}

fn control_byte_of(c: char) -> (r: u8)
    ensures
        r == control_byte(c),
{
    if c == '@' || c == ' ' {
        0
    } else if 'a' <= c && c <= 'z' {
        (c as u32 - 'a' as u32 + 1) as u8
    } else if 'A' <= c && c <= 'Z' {
        (c as u32 - 'A' as u32 + 1) as u8
    } else if c == '[' {
        0x1b
    } else if c == '\\' || c == '4' {
        0x1c
    } else if c == ']' || c == '5' {
        0x1d
    } else if c == '^' || c == '6' {
        0x1e
    } else if c == '_' || c == '7' {
        0x1f
    } else if c == '?' {
        0x7f
    } else {
        (c as u32 % 256) as u8
    }
}

/// The escape sequence of a key that moves the cursor, which depends on whether
/// the inner app asked for application cursor keys.
pub open spec fn cursor_sequence(code: KeyCode, app_cursor: bool) -> Option<Seq<char>> {
    match code {
        KeyCode::Left => Some(if app_cursor { "\x1bOD"@ } else { "\x1b[D"@ }),
        KeyCode::Right => Some(if app_cursor { "\x1bOC"@ } else { "\x1b[C"@ }),
        KeyCode::Up => Some(if app_cursor { "\x1bOA"@ } else { "\x1b[A"@ }),
        KeyCode::Down => Some(if app_cursor { "\x1bOB"@ } else { "\x1b[B"@ }),
        KeyCode::Home => Some(if app_cursor { "\x1bOH"@ } else { "\x1b[H"@ }),
        KeyCode::End => Some(if app_cursor { "\x1bOF"@ } else { "\x1b[F"@ }),
        _ => None,
    }
}

/// The escape sequence of a function key.
pub open spec fn function_sequence(n: u8) -> Option<Seq<char>> {
    match n {
        1 => Some("\x1bOP"@),
        2 => Some("\x1bOQ"@),
        3 => Some("\x1bOR"@),
        4 => Some("\x1bOS"@),
        5 => Some("\x1b[15~"@),
        6 => Some("\x1b[17~"@),
        7 => Some("\x1b[18~"@),
        8 => Some("\x1b[19~"@),
        9 => Some("\x1b[20~"@),
        10 => Some("\x1b[21~"@),
        11 => Some("\x1b[23~"@),
        12 => Some("\x1b[24~"@),
        _ => None,
    }
}

/// The legacy sequence of a key other than a character: none for keys that have
/// none.
pub open spec fn legacy_sequence(code: KeyCode, app_cursor: bool) -> Option<Seq<char>> {
    match code {
        KeyCode::Enter => Some("\r"@),
        KeyCode::Tab => Some("\t"@),
        KeyCode::Backspace => Some("\x7f"@),
        KeyCode::Esc => Some("\x1b"@),
        KeyCode::PageUp => Some("\x1b[5~"@),
        KeyCode::PageDown => Some("\x1b[6~"@),
        KeyCode::Delete => Some("\x1b[3~"@),
        KeyCode::Insert => Some("\x1b[2~"@),
        KeyCode::BackTab => Some("\x1b[Z"@),
        KeyCode::F(n) => function_sequence(n),
        _ => cursor_sequence(code, app_cursor),
    }
}

/// The bytes of a key without regard to Alt; none for keys that have none.
pub open spec fn plain_bytes(k: KeyEvent, app_cursor: bool) -> Option<Seq<u8>> {
    match k.code {
        KeyCode::Char(c) => Some(
            if k.modifiers.control {
                seq![control_byte(c)]
            } else {
                encode_utf8(seq![c])
            },
        ),
        _ => match legacy_sequence(k.code, app_cursor) {
            Some(s) => Some(encode_utf8(s)),
            None => None,
        },
    }
}

/// The bytes that a key writes to the PTY: the enhanced sequence where it has
/// one, else the legacy bytes, behind an escape where Alt is held.
pub open spec fn encoded(k: KeyEvent, app_cursor: bool, kbd: KbdEncoding) -> Seq<u8> {
    match enhanced(k, kbd) {
        Some(s) => encode_utf8(s),
        None => match plain_bytes(k, app_cursor) {
            Some(b) => if k.modifiers.alt {
                seq![0x1bu8] + b
            } else {
                b
            },
            None => seq![],
        },
    }
}

fn cursor_keys(code: KeyCode, app_cursor: bool) -> (r: Option<&'static str>)
    ensures
        match (r, cursor_sequence(code, app_cursor)) {
            (Some(a), Some(b)) => a@ == b,
            (None, None) => true,
            _ => false,
        },
{
    match code {
        KeyCode::Left => Some(if app_cursor { "\x1bOD" } else { "\x1b[D" }),
        KeyCode::Right => Some(if app_cursor { "\x1bOC" } else { "\x1b[C" }),
        KeyCode::Up => Some(if app_cursor { "\x1bOA" } else { "\x1b[A" }),
        KeyCode::Down => Some(if app_cursor { "\x1bOB" } else { "\x1b[B" }),
        KeyCode::Home => Some(if app_cursor { "\x1bOH" } else { "\x1b[H" }),
        KeyCode::End => Some(if app_cursor { "\x1bOF" } else { "\x1b[F" }),
        _ => None,
    }
}

fn function_keys(n: u8) -> (r: Option<&'static str>)
    ensures
        match (r, function_sequence(n)) {
            (Some(a), Some(b)) => a@ == b,
            (None, None) => true,
            _ => false,
        },
{
    match n {
        1 => Some("\x1bOP"),
        2 => Some("\x1bOQ"),
        3 => Some("\x1bOR"),
        4 => Some("\x1bOS"),
        5 => Some("\x1b[15~"),
        6 => Some("\x1b[17~"),
        7 => Some("\x1b[18~"),
        8 => Some("\x1b[19~"),
        9 => Some("\x1b[20~"),
        10 => Some("\x1b[21~"),
        11 => Some("\x1b[23~"),
        12 => Some("\x1b[24~"),
        _ => None,
    }
}

fn legacy_keys(code: KeyCode, app_cursor: bool) -> (r: Option<&'static str>)
    ensures
        match (r, legacy_sequence(code, app_cursor)) {
            (Some(a), Some(b)) => a@ == b,
            (None, None) => true,
            _ => false,
        },
{
    match code {
        KeyCode::Enter => Some("\r"),
        KeyCode::Tab => Some("\t"),
        KeyCode::Backspace => Some("\x7f"),
        KeyCode::Esc => Some("\x1b"),
        KeyCode::PageUp => Some("\x1b[5~"),
        KeyCode::PageDown => Some("\x1b[6~"),
        KeyCode::Delete => Some("\x1b[3~"),
        KeyCode::Insert => Some("\x1b[2~"),
        KeyCode::BackTab => Some("\x1b[Z"),
        KeyCode::F(n) => function_keys(n),
        _ => cursor_keys(code, app_cursor),
    }
}

/// Puts bytes behind others.
pub(crate) fn push_bytes(out: &mut Vec<u8>, bytes: &[u8])
    ensures
        final(out)@ == old(out)@ + bytes@,
{
    let mut i: usize = 0;
    assert(out@ =~= old(out)@ + bytes@.take(0));
    while i < bytes.len()
        invariant
            i <= bytes.len(),
            out@ == old(out)@ + bytes@.take(i as int),
        decreases bytes.len() - i,
    {
        out.push(bytes[i]);
        assert(out@ =~= old(out)@ + bytes@.take(i + 1));
        i += 1;
    }
    assert(bytes@.take(bytes@.len() as int) =~= bytes@);
}

/// Encode a key event for transmission to the PTY, honoring terminal modes.
pub fn encode_key(k: KeyEvent, app_cursor: bool, kbd: KbdEncoding) -> (r: Vec<u8>)
    ensures
        r@ == encoded(k, app_cursor, kbd),
{
    let mut buf: Vec<u8> = Vec::new();
    if let Some(s) = encode_functional_enhanced(k, kbd) {
        push_bytes(&mut buf, s.as_str().as_bytes());
        assert(buf@ =~= encode_utf8(s@));
        return buf;
    }
    if k.modifiers.alt {
        buf.push(0x1b);
    }
    let ghost lead = buf@;
    match k.code {
        KeyCode::Char(c) => {
            if k.modifiers.control {
                buf.push(control_byte_of(c));
            } else {
                let mut s: String = String::new();
                s.push(c);
                assert(s@ =~= seq![c]);
                push_bytes(&mut buf, s.as_str().as_bytes());
            }
        },
        _ => {
            match legacy_keys(k.code, app_cursor) {
                Some(s) => push_bytes(&mut buf, s.as_bytes()),
                None => return Vec::new(),
            }
        },
    }
    assert(buf@ =~= encoded(k, app_cursor, kbd)) by {
        let b = plain_bytes(k, app_cursor)->Some_0;
        assert(buf@ =~= lead + b);
    }
    buf
}

/// A character that is typed without Ctrl is written as itself, whatever
/// protocol the inner app negotiated.
pub proof fn law_typed_characters_are_written_as_they_are(
    k: KeyEvent,
    c: char,
    app_cursor: bool,
    kbd: KbdEncoding,
)
    requires
        k.code == KeyCode::Char(c),
        !k.modifiers.control,
        !k.modifiers.alt,
    ensures
        encoded(k, app_cursor, kbd) == encode_utf8(seq![c]),
{
}

/// Without an enhanced protocol, Shift adds nothing to what a key writes.
pub proof fn law_legacy_drops_shift(k: KeyEvent, shift: bool, app_cursor: bool)
    ensures
        encoded(k, app_cursor, KbdEncoding::Legacy) == encoded(
            KeyEvent { modifiers: KeyModifiers { shift, ..k.modifiers }, ..k },
            app_cursor,
            KbdEncoding::Legacy,
        ),
{
}

// ---------------------------------------------------------------------------
// The keyboard protocol
// ---------------------------------------------------------------------------

/// Where in an escape sequence a scan is.
#[derive(Copy, Clone, Debug, PartialEq, Eq, Structural)]
enum Scan {
    Ground,
    Esc,
    Csi,
}

/// Streaming scanner that infers the inner app's keyboard-input protocol from
/// its PTY *output*. vt100 tracks DECSET modes like application-cursor and
/// bracketed-paste, but has no API for the kitty keyboard protocol or
/// `modifyOtherKeys`, so this tiny CSI parser runs over the same byte stream the
/// vt100 parser sees and remembers the result. `encode_key` then asks
/// [`Self::encoding`] how to represent modified functional keys.
///
/// Sequences recognised (all app → terminal):
/// - `CSI > flags u`        kitty push  (progressive enhancement)
/// - `CSI < n u`            kitty pop
/// - `CSI = flags ; mode u` kitty set/clear
/// - `CSI > 4 ; n m`        xterm modifyOtherKeys level n (n omitted = off)
pub struct KbdTracker {
    /// Kitty progressive-enhancement push stack; top is the active flag set.
    kitty_stack: Vec<u8>,
    /// xterm modifyOtherKeys level (0 = off).
    modify_other_keys: u8,
    scan: Scan,
    prefix: u8,
    params: Vec<u32>,
    cur: Option<u32>,
    len: usize,
}

/// Where in an escape sequence a tracker is: outside of one, behind the escape,
/// or behind `ESC [` with what came since.
pub enum Place {
    Ground,
    Esc,
    Csi { prefix: u8, params: Seq<u32>, cur: Option<u32>, len: nat },
}

/// A tracker in the abstract.
pub struct TrackerModel {
    pub stack: Seq<u8>,
    pub level: u8,
    pub place: Place,
}

impl View for KbdTracker {
    type V = TrackerModel;

    closed spec fn view(&self) -> TrackerModel {
        TrackerModel {
            stack: self.kitty_stack@,
            level: self.modify_other_keys,
            place: match self.scan {
                Scan::Ground => Place::Ground,
                Scan::Esc => Place::Esc,
                Scan::Csi => Place::Csi {
                    prefix: self.prefix,
                    params: self.params@,
                    cur: self.cur,
                    len: self.len as nat,
                },
            },
        }
    }
}

/// The longest control sequence that is followed.
pub const MAX_CSI: usize = 64;

/// The top of a stack of flags; 0 where it is empty.
pub open spec fn top(stack: Seq<u8>) -> u8 {
    if stack.len() == 0 {
        0
    } else {
        stack.last()
    }
}

/// Parameter `i` of a control sequence, or what it is by default.
pub open spec fn param(params: Seq<u32>, i: int, default: u32) -> u32 {
    if i < params.len() {
        params[i]
    } else {
        default
    }
}

/// The low eight bits of a parameter.
pub open spec fn low_byte(n: u32) -> u8 {
    (n % 256) as u8
}

/// The flags after `CSI = flags ; mode u`.
pub open spec fn flags_set(was: u8, flags: u8, mode: u32) -> u8 {
    if mode == 2 {
        was | flags
    } else if mode == 3 {
        was & !flags
    } else {
        flags
    }
}

/// What a control sequence that ends in `b` does to the stack.
pub open spec fn stack_after(stack: Seq<u8>, prefix: u8, params: Seq<u32>) -> Seq<u8> {
    // '>'
    if prefix == 62 {
        stack.push(low_byte(param(params, 0, 0)))
        // '<'

    } else if prefix == 60 {
        let n = param(params, 0, 1);
        let gone = if n == 0 {
            1
        } else {
            n as int
        };
        if gone <= stack.len() {
            stack.take(stack.len() - gone)
        } else {
            seq![]
        }
        // '='

    } else if prefix == 61 {
        let next = flags_set(top(stack), low_byte(param(params, 0, 0)), param(params, 1, 1));
        if stack.len() == 0 {
            seq![next]
        } else {
            stack.drop_last().push(next)
        }
    } else {
        stack
    }
}

/// The tracker after a complete control sequence that ends in `b`.
pub open spec fn sequence_done(m: TrackerModel, prefix: u8, params: Seq<u32>, b: u8) -> TrackerModel {
    let m1 = TrackerModel { place: Place::Ground, ..m };
    // 'u'
    if b == 117 {
        TrackerModel { stack: stack_after(m.stack, prefix, params), ..m1 }
        // 'm' behind '>'

    } else if b == 109 && prefix == 62 && params.len() > 0 && params[0] == 4 {
        TrackerModel { level: low_byte(param(params, 1, 0)), ..m1 }
    } else {
        m1
    }
}

/// A number with one more digit, as far as 32 bits hold it.
pub open spec fn with_digit(cur: Option<u32>, b: u8) -> u32 {
    let c = match cur {
        Some(n) => n as int,
        None => 0,
    };
    ((c * 10 + (b - 48)) % 0x1_0000_0000) as u32
}

/// The tracker after one byte of output.
pub open spec fn byte_fed(m: TrackerModel, b: u8) -> TrackerModel {
    match m.place {
        Place::Ground => if b == 0x1b {
            TrackerModel { place: Place::Esc, ..m }
        } else {
            m
        },
        Place::Esc => if b == 91 {
            TrackerModel {
                place: Place::Csi { prefix: 0, params: seq![], cur: None, len: 0 },
                ..m
            }
        } else if b == 0x1b {
            m
        } else {
            TrackerModel { place: Place::Ground, ..m }
        },
        Place::Csi { prefix, params, cur, len } => {
            if len >= MAX_CSI {
                TrackerModel { place: Place::Ground, ..m }
            } else if 48 <= b <= 57 {
                TrackerModel {
                    place: Place::Csi {
                        prefix,
                        params,
                        cur: Some(with_digit(cur, b)),
                        len: len + 1,
                    },
                    ..m
                }
            } else if b == 59 {
                let n = match cur {
                    Some(n) => n,
                    None => 0,
                };
                TrackerModel {
                    place: Place::Csi { prefix, params: params.push(n), cur: None, len: len + 1 },
                    ..m
                }
            } else if 60 <= b <= 63 && len == 0 {
                TrackerModel {
                    place: Place::Csi { prefix: b, params, cur, len: len + 1 },
                    ..m
                }
            } else if 0x20 <= b <= 0x3f {
                TrackerModel { place: Place::Csi { prefix, params, cur, len: len + 1 }, ..m }
            } else if 0x40 <= b <= 0x7e {
                let all = match cur {
                    Some(n) => params.push(n),
                    None => params,
                };
                sequence_done(m, prefix, all, b)
            } else {
                TrackerModel { place: Place::Ground, ..m }
            }
        },
    }
}

/// The tracker after a chunk of output.
pub open spec fn fed(m: TrackerModel, bytes: Seq<u8>) -> TrackerModel
    decreases bytes.len(),
{
    if bytes.len() == 0 {
        m
    } else {
        byte_fed(fed(m, bytes.drop_last()), bytes.last())
    }
}

/// The encoding that a tracker's state stands for.
pub open spec fn encoding_of(m: TrackerModel) -> KbdEncoding {
    if top(m.stack) != 0 {
        KbdEncoding::Kitty(top(m.stack))
    } else if m.level >= 1 {
        KbdEncoding::ModifyOtherKeys
    } else {
        KbdEncoding::Legacy
    }
}

/// A tracker that has seen nothing.
pub open spec fn fresh_tracker() -> TrackerModel {
    TrackerModel { stack: seq![], level: 0, place: Place::Ground }
}

/// The escape sequences that bring a fresh tracker to the same protocol.
pub open spec fn prelude_text(m: TrackerModel) -> Seq<char> {
    (if top(m.stack) != 0 {
        "\x1b[>"@ + text::decimal(top(m.stack) as nat) + "u"@
    } else {
        seq![]
    }) + (if m.level >= 1 {
        "\x1b[>4;"@ + text::decimal(m.level as nat) + "m"@
    } else {
        seq![]
    })
}

impl Default for KbdTracker {
    fn default() -> (r: KbdTracker)
        ensures
            r@ == fresh_tracker(),
    {
        let r = KbdTracker {
            kitty_stack: Vec::new(),
            modify_other_keys: 0,
            scan: Scan::Ground,
            prefix: 0,
            params: Vec::new(),
            cur: None,
            len: 0,
        };
        assert(r@.stack =~= seq![]);
        r
    }
}

impl KbdTracker {
    /// Feed a chunk of PTY output. Maintains partial-sequence state across
    /// calls, so a CSI sequence split over two frames is still recognised.
    pub fn feed(&mut self, bytes: &[u8])
        ensures
            final(self)@ == fed(old(self)@, bytes@),
    {
        let mut i: usize = 0;
        assert(bytes@.take(0) =~= seq![]);
        while i < bytes.len()
            invariant
                i <= bytes.len(),
                self@ == fed(old(self)@, bytes@.take(i as int)),
            decreases bytes.len() - i,
        {
            assert(bytes@.take(i + 1).drop_last() =~= bytes@.take(i as int));
            assert(bytes@.take(i + 1).last() == bytes@[i as int]);
            self.feed_byte(bytes[i]);
            i += 1;
        }
        assert(bytes@.take(bytes@.len() as int) =~= bytes@);
    }

    fn feed_byte(&mut self, b: u8)
        ensures
            final(self)@ == byte_fed(old(self)@, b),
    {
        match self.scan {
            Scan::Ground => {
                if b == 0x1b {
                    self.scan = Scan::Esc;
                }
            },
            Scan::Esc => {
                if b == 91 {
                    self.scan = Scan::Csi;
                    self.prefix = 0;
                    self.params.clear();
                    self.cur = None;
                    self.len = 0;
                    assert(self.params@ =~= seq![]);
                } else if b != 0x1b {
                    self.scan = Scan::Ground;
                }
            },
            Scan::Csi => self.csi_byte(b),
        }
    }

    fn csi_byte(&mut self, b: u8)
        requires
            old(self)@.place is Csi,
        ensures
            final(self)@ == byte_fed(old(self)@, b),
    {
        // Bound a runaway/malformed CSI so a stray ESC[ can't grow unbounded.
        if self.len >= MAX_CSI {
            self.scan = Scan::Ground;
            return;
        }
        self.len += 1;
        if 48 <= b && b <= 57 {
            let c: u64 = match self.cur {
                Some(n) => n as u64,
                None => 0,
            };
            self.cur = Some(((c * 10 + (b - 48) as u64) % 0x1_0000_0000) as u32);
        } else if b == 59 {
            let n: u32 = match self.cur {
                Some(n) => n,
                None => 0,
            };
            self.params.push(n);
            self.cur = None;
        } else if 60 <= b && b <= 63 && self.len == 1 {
            self.prefix = b;
        } else if 0x20 <= b && b <= 0x3f {
            // Other intermediates and parameters mean nothing here.
        } else if 0x40 <= b && b <= 0x7e {
            if let Some(v) = self.cur {
                self.params.push(v);
                self.cur = None;
            }
            self.dispatch(b);
        } else {
            self.scan = Scan::Ground;
        }
    }

    fn param(&self, i: usize, default: u32) -> (r: u32)
        ensures
            r == param(self.params@, i as int, default),
    {
        if i < self.params.len() {
            self.params[i]
        } else {
            default
        }
    }

    fn top_flags(&self) -> (r: u8)
        ensures
            r == top(self@.stack),
    {
        let n: usize = self.kitty_stack.len();
        if n == 0 {
            0
        } else {
            self.kitty_stack[n - 1]
        }
    }

    fn dispatch(&mut self, final_byte: u8)
        requires
            old(self)@.place is Csi,
        ensures
            final(self)@ == sequence_done(
                old(self)@,
                old(self)@.place->prefix,
                old(self)@.place->params,
                final_byte,
            ),
    {
        self.scan = Scan::Ground;
        if final_byte == 117 {
            self.change_stack();
        } else if final_byte == 109 && self.prefix == 62 && self.params.len() > 0
            && self.params[0] == 4 {
            // CSI > 4 ; n m  (n absent on reset → level 0)
            self.modify_other_keys = (self.param(1, 0) % 256) as u8;
        }
    }

    fn change_stack(&mut self)
        requires
            old(self).scan is Ground,
        ensures
            final(self)@ == (TrackerModel {
                stack: stack_after(old(self)@.stack, old(self).prefix, old(self).params@),
                ..old(self)@
            }),
    {
        let first: u32 = self.param(0, 0);
        if self.prefix == 62 {
            self.kitty_stack.push((first % 256) as u8);
        } else if self.prefix == 60 {
            let asked: u32 = self.param(0, 1);
            let n: u32 = if asked == 0 {
                1
            } else {
                asked
            };
            let depth: usize = self.kitty_stack.len();
            if n as u64 <= depth as u64 {
                self.kitty_stack.truncate(depth - n as usize);
            } else {
                self.kitty_stack.clear();
            }
            assert(self@.stack =~= stack_after(
                old(self)@.stack,
                old(self).prefix,
                old(self).params@,
            ));
        } else if self.prefix == 61 {
            let flags: u8 = (first % 256) as u8;
            let mode: u32 = self.param(1, 1);
            let was: u8 = self.top_flags();
            let next: u8 = if mode == 2 {
                was | flags
            } else if mode == 3 {
                was & !flags
            } else {
                flags
            };
            let _ = self.kitty_stack.pop();
            self.kitty_stack.push(next);
            assert(self@.stack =~= stack_after(
                old(self)@.stack,
                old(self).prefix,
                old(self).params@,
            ));
        }
    }

    /// The encoding `encode_key` should use for modified functional keys.
    pub fn encoding(&self) -> (r: KbdEncoding)
        ensures
            r == encoding_of(self@),
    {
        let flags: u8 = self.top_flags();
        if flags != 0 {
            KbdEncoding::Kitty(flags)
        } else if self.modify_other_keys >= 1 {
            KbdEncoding::ModifyOtherKeys
        } else {
            KbdEncoding::Legacy
        }
    }

    /// Escape sequences that re-establish this protocol state in a fresh
    /// parser. Used by the supervisor's attach prelude so a reattaching
    /// client's own `KbdTracker` (fed the dump) lands on the same state the
    /// inner app negotiated before the client was around.
    pub fn prelude(&self) -> (r: Vec<u8>)
        ensures
            r@ == encode_utf8(prelude_text(self@)),
    {
        let mut s: String = String::new();
        let flags: u8 = self.top_flags();
        if flags != 0 {
            s = text::concat3("\x1b[>", text::to_decimal(flags as u64).as_str(), "u");
        }
        assert(s@ =~= if top(self@.stack) != 0 {
            "\x1b[>"@ + text::decimal(top(self@.stack) as nat) + "u"@
        } else {
            seq![]
        });
        if self.modify_other_keys >= 1 {
            let level = text::to_decimal(self.modify_other_keys as u64);
            s.push_str(text::concat3("\x1b[>4;", level.as_str(), "m").as_str());
        }
        assert(s@ =~= prelude_text(self@));
        let mut out: Vec<u8> = Vec::new();
        push_bytes(&mut out, s.as_str().as_bytes());
        assert(out@ =~= encode_utf8(s@));
        out
    }
}

/// A chunk that arrives in two parts tells the tracker what it tells it in one.
pub proof fn law_chunks_may_be_split(m: TrackerModel, a: Seq<u8>, b: Seq<u8>)
    ensures
        fed(m, a + b) == fed(fed(m, a), b),
    decreases b.len(),
{
    if b.len() == 0 {
        assert(a + b =~= a);
    } else {
        law_chunks_may_be_split(m, a, b.drop_last());
        assert((a + b).drop_last() =~= a + b.drop_last());
        assert((a + b).last() == b.last());
    }
}

/// The bytes of a text of characters below 128.
spec fn low_bytes(s: Seq<char>) -> Seq<u8> {
    Seq::new(s.len(), |i: int| s[i] as u8)
}

spec fn low(s: Seq<char>) -> bool {
    vstd::utf8::is_ascii_chars(s)
}

proof fn lemma_low_bytes(s: Seq<char>)
    requires
        low(s),
    ensures
        encode_utf8(s) == low_bytes(s),
{
    vstd::utf8::is_ascii_chars_encode_utf8(s);
    assert(encode_utf8(s) =~= low_bytes(s));
}

proof fn lemma_decimal_is_low(n: nat)
    ensures
        low(text::decimal(n)),
        text::decimal(n).len() >= 1,
    decreases n,
{
    if n >= 10 {
        lemma_decimal_is_low(n / 10);
    }
}

/// A decimal number that comes behind the start of a control sequence is read as
/// that number.
proof fn lemma_number_read(m: TrackerModel, n: nat)
    requires
        m.place matches Place::Csi { prefix, params, cur, len } && cur is None && len <= 8,
        n < 1000,
    ensures
        fed(m, low_bytes(text::decimal(n))) == (TrackerModel {
            place: Place::Csi {
                prefix: m.place->prefix,
                params: m.place->params,
                cur: Some(n as u32),
                len: m.place->len + text::decimal(n).len(),
            },
            ..m
        }),
        text::decimal(n).len() <= (if n < 10 { 1int } else if n < 100 { 2 } else { 3 }),
    decreases n,
{
    let s = low_bytes(text::decimal(n));
    if n < 10 {
        assert(s.drop_last() =~= seq![]);
        assert(fed(m, s.drop_last()) == m);
        assert(s.last() == 48 + n);
    } else {
        lemma_number_read(m, n / 10);
        assert(s.drop_last() =~= low_bytes(text::decimal(n / 10)));
        assert(s.last() == 48 + n % 10);
    }
}

proof fn lemma_fed_one(m: TrackerModel, b: u8)
    ensures
        fed(m, seq![b]) == byte_fed(m, b),
{
    assert(seq![b].drop_last() =~= seq![]);
    assert(fed(m, seq![b].drop_last()) == m);
}

/// `ESC [ >` opens a control sequence with the prefix `>`.
proof fn lemma_opens(m: TrackerModel)
    requires
        m.place is Ground,
    ensures
        fed(m, seq![0x1bu8, 91, 62]) == (TrackerModel {
            place: Place::Csi { prefix: 62, params: seq![], cur: None, len: 1 },
            ..m
        }),
{
    assert(seq![0x1bu8, 91, 62] =~= seq![0x1bu8] + seq![91u8] + seq![62u8]);
    law_chunks_may_be_split(m, seq![0x1bu8] + seq![91u8], seq![62u8]);
    law_chunks_may_be_split(m, seq![0x1bu8], seq![91u8]);
    lemma_fed_one(m, 0x1b);
    let e = TrackerModel { place: Place::Esc, ..m };
    lemma_fed_one(e, 91);
    let c = TrackerModel {
        place: Place::Csi { prefix: 0, params: seq![], cur: None, len: 0 },
        ..m
    };
    lemma_fed_one(c, 62);
}

proof fn lemma_push_read(m: TrackerModel, n: nat)
    requires
        m.place is Ground,
        n < 256,
    ensures
        ({
            let s = "\x1b[>"@ + text::decimal(n) + "u"@;
            &&& low(s)
            &&& fed(m, low_bytes(s)) == (TrackerModel { stack: m.stack.push(n as u8), ..m })
        }),
{
    reveal_strlit("\x1b[>");
    reveal_strlit("u");
    lemma_decimal_is_low(n);
    let s = "\x1b[>"@ + text::decimal(n) + "u"@;
    let d = low_bytes(text::decimal(n));
    assert(low_bytes(s) =~= seq![0x1bu8, 91, 62] + d + seq![117u8]);
    law_chunks_may_be_split(m, seq![0x1bu8, 91, 62] + d, seq![117u8]);
    law_chunks_may_be_split(m, seq![0x1bu8, 91, 62], d);
    lemma_opens(m);
    let c = fed(m, seq![0x1bu8, 91, 62]);
    lemma_number_read(c, n);
    lemma_fed_one(fed(c, d), 117);
    assert(Seq::<u32>::empty().push(n as u32)[0] == n);
}

proof fn lemma_level_read(m: TrackerModel, n: nat)
    requires
        m.place is Ground,
        n < 256,
    ensures
        ({
            let s = "\x1b[>4;"@ + text::decimal(n) + "m"@;
            &&& low(s)
            &&& fed(m, low_bytes(s)) == (TrackerModel { level: n as u8, ..m })
        }),
{
    reveal_strlit("\x1b[>4;");
    reveal_strlit("m");
    lemma_decimal_is_low(n);
    let s = "\x1b[>4;"@ + text::decimal(n) + "m"@;
    let d = low_bytes(text::decimal(n));
    let open = seq![0x1bu8, 91, 62];
    assert(low_bytes(s) =~= open + seq![52u8] + seq![59u8] + d + seq![109u8]);
    law_chunks_may_be_split(m, open + seq![52u8] + seq![59u8] + d, seq![109u8]);
    law_chunks_may_be_split(m, open + seq![52u8] + seq![59u8], d);
    law_chunks_may_be_split(m, open + seq![52u8], seq![59u8]);
    law_chunks_may_be_split(m, open, seq![52u8]);
    lemma_opens(m);
    let c1 = fed(m, open);
    lemma_fed_one(c1, 52);
    let c2 = fed(c1, seq![52u8]);
    lemma_fed_one(c2, 59);
    let c3 = fed(c2, seq![59u8]);
    lemma_number_read(c3, n);
    lemma_fed_one(fed(c3, d), 109);
    let params = Seq::<u32>::empty().push(4u32).push(n as u32);
    assert(params[0] == 4 && params[1] == n);
}

/// Whatever state a tracker is in, its prelude brings a fresh tracker to the
/// same encoding.
pub proof fn law_preludes_bring_the_protocol_back(m: TrackerModel)
    ensures
        encoding_of(fed(fresh_tracker(), encode_utf8(prelude_text(m)))) == encoding_of(m),
{
    let f = fresh_tracker();
    let flags = top(m.stack);
    let a = if flags != 0 {
        "\x1b[>"@ + text::decimal(flags as nat) + "u"@
    } else {
        seq![]
    };
    let b = if m.level >= 1 {
        "\x1b[>4;"@ + text::decimal(m.level as nat) + "m"@
    } else {
        seq![]
    };
    lemma_push_read(f, flags as nat);
    let f1 = if flags != 0 {
        TrackerModel { stack: f.stack.push(flags), ..f }
    } else {
        f
    };
    assert(fed(f, low_bytes(a)) == f1) by {
        if flags == 0 {
            assert(low_bytes(a) =~= seq![]);
        }
    }
    lemma_level_read(f1, m.level as nat);
    let f2 = if m.level >= 1 {
        TrackerModel { level: m.level, ..f1 }
    } else {
        f1
    };
    assert(fed(f1, low_bytes(b)) == f2) by {
        if m.level == 0 {
            assert(low_bytes(b) =~= seq![]);
        }
    }
    assert(low(a + b));
    lemma_low_bytes(a + b);
    assert(low_bytes(a + b) =~= low_bytes(a) + low_bytes(b));
    law_chunks_may_be_split(f, low_bytes(a), low_bytes(b));
    assert(f1.stack.len() > 0 ==> f1.stack.last() == flags);
}

/// There is no prelude exactly where no protocol is in force.
pub proof fn law_only_legacy_needs_no_prelude(m: TrackerModel)
    ensures
        prelude_text(m).len() == 0 <==> encoding_of(m) is Legacy,
{
    lemma_decimal_is_low(top(m.stack) as nat);
    lemma_decimal_is_low(m.level as nat);
}

// ---------------------------------------------------------------------------
// The clipboard
// ---------------------------------------------------------------------------

/// Cap on a single buffered OSC payload; a copy larger than this is dropped
/// rather than buffered unbounded. 1 MiB of base64 ≈ 768 KiB of clipboard.
pub const MAX_OSC: usize = 1_048_576;

/// Where in an operating-system command a scan is.
#[derive(Copy, Clone, Debug, PartialEq, Eq, Structural)]
pub enum OscScan {
    Ground,
    Esc,
    Osc,
    OscEsc,
}

/// Sniffs OSC 52 clipboard-*copy* sequences out of a PTY byte stream so the
/// client can forward them to the real outer terminal. Inner output is
/// re-rendered cell by cell, so escape sequences with no on-screen effect — OSC
/// 52 among them — would otherwise never reach the emulator that owns the system
/// clipboard. Fed the raw stream, it keeps partial-sequence state across frames.
///
/// Only copy requests (`ESC ] 52 ; <ty> ; <base64> ST`) are surfaced; paste
/// queries (`… ; ?`) carry no data and are ignored.
pub struct ClipboardSniffer {
    scan: OscScan,
    /// Bytes accumulated between `ESC ]` and the string terminator.
    buf: Vec<u8>,
}

/// A sniffer in the abstract.
pub struct SnifferModel {
    pub scan: OscScan,
    pub buf: Seq<u8>,
}

impl View for ClipboardSniffer {
    type V = SnifferModel;

    closed spec fn view(&self) -> SnifferModel {
        SnifferModel { scan: self.scan, buf: self.buf@ }
    }
}

/// The payload of a command that copies to the clipboard: what comes behind
/// `52;`, unless its last part is a `?`, which asks for the clipboard instead.
pub open spec fn copy_in(buf: Seq<u8>) -> Option<Seq<char>> {
    if valid_utf8(buf) {
        let s = decode_utf8(buf);
        if text::has_prefix(s, "52;"@) {
            let payload = s.skip(3);
            if text::split(payload, ';').last() == "?"@ {
                None
            } else {
                Some(payload)
            }
        } else {
            None
        }
    } else {
        None
    }
}

/// The copy that was just completed, in a list.
pub open spec fn copies(buf: Seq<u8>) -> Seq<Seq<char>> {
    match copy_in(buf) {
        Some(p) => seq![p],
        None => seq![],
    }
}

/// The sniffer after one byte of output, and the copy that it completed.
pub open spec fn byte_sniffed(m: SnifferModel, b: u8) -> (SnifferModel, Seq<Seq<char>>) {
    let none = Seq::<Seq<char>>::empty();
    match m.scan {
        OscScan::Ground => if b == 0x1b {
            (SnifferModel { scan: OscScan::Esc, ..m }, none)
        } else {
            (m, none)
        },
        OscScan::Esc => if b == 93 {
            (SnifferModel { scan: OscScan::Osc, buf: seq![] }, none)
        } else if b == 0x1b {
            (m, none)
        } else {
            (SnifferModel { scan: OscScan::Ground, ..m }, none)
        },
        OscScan::Osc => if b == 7 {
            (SnifferModel { scan: OscScan::Ground, ..m }, copies(m.buf))
        } else if b == 0x1b {
            (SnifferModel { scan: OscScan::OscEsc, ..m }, none)
        } else if m.buf.len() >= MAX_OSC {
            (SnifferModel { scan: OscScan::Ground, buf: seq![] }, none)
        } else {
            (SnifferModel { buf: m.buf.push(b), ..m }, none)
        },
        OscScan::OscEsc => (
            SnifferModel {
                scan: if b == 0x1b {
                    OscScan::Esc
                } else {
                    OscScan::Ground
                },
                buf: seq![],
            },
            if b == 92 {
                copies(m.buf)
            } else {
                none
            },
        ),
    }
}

/// The sniffer after a chunk of output, and the copies that it completed.
pub open spec fn sniffed(m: SnifferModel, bytes: Seq<u8>) -> (SnifferModel, Seq<Seq<char>>)
    decreases bytes.len(),
{
    if bytes.len() == 0 {
        (m, seq![])
    } else {
        let (m1, before) = sniffed(m, bytes.drop_last());
        let (m2, last) = byte_sniffed(m1, bytes.last());
        (m2, before + last)
    }
}

/// `String::from_utf8`: the text that the bytes encode, or none where they are
/// no valid UTF-8.
#[verifier::external_body]
fn text_from(bytes: Vec<u8>) -> (r: Option<String>)
    ensures
        match r {
            Some(s) => valid_utf8(bytes@) && s@ == decode_utf8(bytes@),
            None => !valid_utf8(bytes@),
        },
{
    String::from_utf8(bytes).ok()
}

/// A sniffer that has seen nothing.
pub open spec fn fresh_sniffer() -> SnifferModel {
    SnifferModel { scan: OscScan::Ground, buf: seq![] }
}

impl Default for ClipboardSniffer {
    fn default() -> (r: ClipboardSniffer)
        ensures
            r@ == fresh_sniffer(),
    {
        let r = ClipboardSniffer { scan: OscScan::Ground, buf: Vec::new() };
        assert(r@.buf =~= seq![]);
        r
    }
}

impl ClipboardSniffer {
    /// Feed a chunk of PTY output; returns the payload (`<ty>;<base64>`) of any
    /// completed OSC 52 copy sequences, ready to splice into
    /// `ESC ] 52 ; <payload> BEL`.
    pub fn feed(&mut self, bytes: &[u8]) -> (r: Vec<String>)
        ensures
            final(self)@ == sniffed(old(self)@, bytes@).0,
            text::texts(r@) == sniffed(old(self)@, bytes@).1,
    {
        let mut out: Vec<String> = Vec::new();
        let mut i: usize = 0;
        assert(bytes@.take(0) =~= seq![]);
        assert(text::texts(out@) =~= seq![]);
        while i < bytes.len()
            invariant
                i <= bytes.len(),
                self@ == sniffed(old(self)@, bytes@.take(i as int)).0,
                text::texts(out@) == sniffed(old(self)@, bytes@.take(i as int)).1,
            decreases bytes.len() - i,
        {
            assert(bytes@.take(i + 1).drop_last() =~= bytes@.take(i as int));
            assert(bytes@.take(i + 1).last() == bytes@[i as int]);
            let ghost before = out@;
            let ghost was = self@;
            let copied = self.feed_byte(bytes[i]);
            if let Some(p) = copied {
                out.push(p);
                assert(text::texts(out@) =~= text::texts(before) + seq![p@]);
            } else {
                assert(text::texts(out@) =~= text::texts(before) + Seq::<Seq<char>>::empty());
            }
            i += 1;
        }
        assert(bytes@.take(bytes@.len() as int) =~= bytes@);
        out
    }

    fn feed_byte(&mut self, b: u8) -> (r: Option<String>)
        ensures
            final(self)@ == byte_sniffed(old(self)@, b).0,
            byte_sniffed(old(self)@, b).1 == (match r {
                Some(p) => seq![p@],
                None => seq![],
            }),
    {
        match self.scan {
            OscScan::Ground => {
                if b == 0x1b {
                    self.scan = OscScan::Esc;
                }
                None
            },
            OscScan::Esc => {
                if b == 93 {
                    self.scan = OscScan::Osc;
                    self.buf.clear();
                    assert(self.buf@ =~= seq![]);
                } else if b != 0x1b {
                    self.scan = OscScan::Ground;
                }
                None
            },
            OscScan::Osc => {
                if b == 7 {
                    self.scan = OscScan::Ground;
                    return self.take_copy();
                }
                if b == 0x1b {
                    self.scan = OscScan::OscEsc;
                } else if self.buf.len() >= MAX_OSC {
                    self.buf.clear();
                    assert(self.buf@ =~= seq![]);
                    self.scan = OscScan::Ground;
                } else {
                    self.buf.push(b);
                }
                None
            },
            OscScan::OscEsc => {
                // The string terminator is `ESC \`; anything else aborts.
                let copied = if b == 92 {
                    self.take_copy()
                } else {
                    None
                };
                self.buf.clear();
                assert(self.buf@ =~= seq![]);
                self.scan = if b == 0x1b {
                    OscScan::Esc
                } else {
                    OscScan::Ground
                };
                copied
            },
        }
    }

    /// If the buffered OSC is a `52` *copy* (not a `?` paste query), return its
    /// `<ty>;<base64>` payload.
    fn take_copy(&self) -> (r: Option<String>)
        ensures
            text::opt_text(r) == copy_in(self@.buf),
            copies(self@.buf) == (match r {
                Some(p) => seq![p@],
                None => seq![],
            }),
    {
        let mut bytes: Vec<u8> = Vec::new();
        push_bytes(&mut bytes, self.buf.as_slice());
        assert(bytes@ =~= self.buf@);
        let s = match text_from(bytes) {
            Some(s) => s,
            None => return None,
        };
        if !text::starts_with(s.as_str(), "52;") {
            return None;
        }
        proof {
            reveal_strlit("52;");
        }
        let v = text::chars_of(s.as_str());
        let payload = text::string_of(&v, 3, v.len());
        assert(payload@ =~= s@.skip(3));
        let parts = text::split_on(payload.as_str(), ';');
        let last = parts[parts.len() - 1].as_str();
        assert(last@ == text::split(payload@, ';').last());
        if text::same(last, "?") {
            None
        } else {
            Some(payload)
        }
    }
}

/// A chunk that arrives in two parts yields the copies that it yields in one.
pub proof fn law_sniffed_chunks_may_be_split(m: SnifferModel, a: Seq<u8>, b: Seq<u8>)
    ensures
        sniffed(m, a + b).0 == sniffed(sniffed(m, a).0, b).0,
        sniffed(m, a + b).1 == sniffed(m, a).1 + sniffed(sniffed(m, a).0, b).1,
    decreases b.len(),
{
    if b.len() == 0 {
        assert(a + b =~= a);
        assert(sniffed(m, a).1 + Seq::<Seq<char>>::empty() =~= sniffed(m, a).1);
    } else {
        law_sniffed_chunks_may_be_split(m, a, b.drop_last());
        assert((a + b).drop_last() =~= a + b.drop_last());
        assert((a + b).last() == b.last());
        let m1 = sniffed(m, a).0;
        let last = byte_sniffed(sniffed(m1, b.drop_last()).0, b.last()).1;
        assert(sniffed(m, a + b).1 =~= sniffed(m, a).1 + (sniffed(m1, b.drop_last()).1 + last));
    }
}

proof fn lemma_buffered(m: SnifferModel, bytes: Seq<u8>)
    requires
        m.scan is Osc,
        m.buf.len() + bytes.len() <= MAX_OSC,
        forall|i: int| 0 <= i < bytes.len() ==> #[trigger] bytes[i] != 7 && bytes[i] != 0x1b,
    ensures
        sniffed(m, bytes) == (
            SnifferModel { scan: OscScan::Osc, buf: m.buf + bytes },
            Seq::<Seq<char>>::empty(),
        ),
    decreases bytes.len(),
{
    if bytes.len() == 0 {
        assert(m.buf + bytes =~= m.buf);
    } else {
        let front = bytes.drop_last();
        assert forall|i: int| 0 <= i < front.len() implies #[trigger] front[i] != 7 && front[i]
            != 0x1b by {
            assert(front[i] == bytes[i]);
        }
        lemma_buffered(m, front);
        assert((m.buf + front).push(bytes.last()) =~= m.buf + bytes);
        assert(bytes[bytes.len() - 1] != 7);
        assert(Seq::<Seq<char>>::empty() + Seq::<Seq<char>>::empty() =~= Seq::<
            Seq<char>,
        >::empty());
    }
}

/// A command that copies to the clipboard is surfaced, with its payload as it
/// is, when the bell that ends it arrives.
pub proof fn law_copies_are_surfaced(m: SnifferModel, payload: Seq<char>)
    requires
        m.scan is Ground,
        encode_utf8("52;"@ + payload).len() <= MAX_OSC,
        forall|i: int|
            0 <= i < encode_utf8("52;"@ + payload).len() ==> #[trigger] encode_utf8(
                "52;"@ + payload,
            )[i] != 7 && encode_utf8("52;"@ + payload)[i] != 0x1b,
        text::split(payload, ';').last() != "?"@,
    ensures
        sniffed(m, seq![0x1bu8, 93] + encode_utf8("52;"@ + payload) + seq![7u8]).1 == seq![payload],
{
    let s = "52;"@ + payload;
    let body = encode_utf8(s);
    reveal_strlit("52;");
    vstd::utf8::encode_utf8_valid_utf8(s);
    vstd::utf8::encode_utf8_decode_utf8(s);
    assert(s.take(3) =~= "52;"@);
    assert(s.skip(3) =~= payload);
    assert(copy_in(body) == Some(payload));
    law_sniffed_chunks_may_be_split(m, seq![0x1bu8, 93] + body, seq![7u8]);
    law_sniffed_chunks_may_be_split(m, seq![0x1bu8, 93], body);
    let none = Seq::<Seq<char>>::empty();
    let e = SnifferModel { scan: OscScan::Esc, ..m };
    let o = SnifferModel { scan: OscScan::Osc, buf: seq![] };
    assert(sniffed(m, seq![0x1bu8, 93]) == (o, none)) by {
        let two = seq![0x1bu8, 93];
        assert(two.drop_last() =~= seq![0x1bu8]);
        assert(seq![0x1bu8].drop_last() =~= seq![]);
        assert(sniffed(m, seq![0x1bu8].drop_last()) == (m, none));
        assert(none + none =~= none);
        assert(sniffed(m, seq![0x1bu8]) == (e, none));
    }
    lemma_buffered(o, body);
    assert(o.buf + body =~= body);
    let full = SnifferModel { scan: OscScan::Osc, buf: body };
    assert(sniffed(full, seq![7u8]).1 =~= seq![payload]) by {
        assert(seq![7u8].drop_last() =~= seq![]);
        assert(sniffed(full, seq![7u8].drop_last()) == (full, none));
    }
    assert(none + none + seq![payload] =~= seq![payload]);
}

} // verus!
