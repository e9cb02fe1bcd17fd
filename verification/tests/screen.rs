use imbuia::cells::{convert_color, pane_cells, pane_cursor, ScreenColor};
use imbuia::event::{KeyModifiers, MouseButton, MouseEvent, MouseEventKind};
use imbuia::input::KbdTracker;
use imbuia::layout::Rect;
use imbuia::screen::{
    encode_mouse, mode_prelude, modes_of, paste_chunks, scroll_as_arrows, scrollback_after,
    write_mouse, MouseDeed, MouseEncoding, MouseMode, PASTE_CHUNK,
};
use imbuia::supervisor::{output_dump, push_output_log, OutputLog};
use imbuia::theme::{Color, Theme, ThemeKind};

fn parsed(bytes: &[u8]) -> vt100::Parser {
    let mut p = vt100::Parser::new(4, 10, 100);
    p.process(bytes);
    p
}

fn mouse(kind: MouseEventKind, modifiers: KeyModifiers) -> MouseEvent {
    MouseEvent {
        kind,
        column: 4,
        row: 2,
        modifiers,
    }
}

#[test]
fn every_mode_is_brought_back() {
    let bytes = b"\x1b[?1049h\x1b[?1h\x1b=\x1b[?2004h\x1b[?1002h\x1b[?1005h";
    let src = parsed(bytes);
    let m = modes_of(src.screen());
    assert!(m.alternate_screen && m.application_cursor && m.application_keypad);
    assert!(m.bracketed_paste);
    assert_eq!(m.mouse, MouseMode::ButtonMotion);
    assert_eq!(m.encoding, MouseEncoding::Utf8);
    let dst = parsed(&mode_prelude(src.screen()));
    assert_eq!(modes_of(dst.screen()), m);
    assert_eq!(mode_prelude(src.screen()), bytes);
}

#[test]
fn every_mouse_mode_is_told_apart() {
    for (seq, mode) in [
        (&b""[..], MouseMode::Off),
        (&b"\x1b[?9h"[..], MouseMode::Press),
        (&b"\x1b[?1000h"[..], MouseMode::PressRelease),
        (&b"\x1b[?1002h"[..], MouseMode::ButtonMotion),
        (&b"\x1b[?1003h"[..], MouseMode::AnyMotion),
    ] {
        assert_eq!(modes_of(parsed(seq).screen()).mouse, mode);
    }
}

#[test]
fn mouse_events_are_written_as_asked() {
    let down = mouse(MouseEventKind::Down(MouseButton::Left), KeyModifiers::none());
    let up = mouse(MouseEventKind::Up(MouseButton::Left), KeyModifiers::none());
    assert_eq!(
        encode_mouse(down, MouseMode::PressRelease, MouseEncoding::Sgr),
        b"\x1b[<0;5;3M"
    );
    assert_eq!(
        encode_mouse(up, MouseMode::PressRelease, MouseEncoding::Sgr),
        b"\x1b[<0;5;3m"
    );
    assert_eq!(
        encode_mouse(down, MouseMode::PressRelease, MouseEncoding::Default),
        [0x1b, b'[', b'M', 32, 37, 35]
    );
    assert_eq!(
        encode_mouse(up, MouseMode::PressRelease, MouseEncoding::Default),
        [0x1b, b'[', b'M', 35, 37, 35]
    );
    assert!(encode_mouse(up, MouseMode::Press, MouseEncoding::Sgr).is_empty());
    assert!(encode_mouse(down, MouseMode::Off, MouseEncoding::Sgr).is_empty());
    let ctrl = mouse(MouseEventKind::ScrollUp, KeyModifiers::control());
    assert_eq!(
        encode_mouse(ctrl, MouseMode::Press, MouseEncoding::Sgr),
        b"\x1b[<80;5;3M"
    );
}

#[test]
fn the_wheel_goes_where_it_is_wanted() {
    let wheel = mouse(MouseEventKind::ScrollUp, KeyModifiers::none());
    let shifted = mouse(MouseEventKind::ScrollUp, KeyModifiers::shift());
    let plain = modes_of(parsed(b"").screen());
    assert!(matches!(write_mouse(wheel, plain), MouseDeed::ScrollBack));
    let alt = modes_of(parsed(b"\x1b[?1049h").screen());
    match write_mouse(wheel, alt) {
        MouseDeed::Write(bytes) => assert_eq!(bytes, b"\x1b[A\x1b[A\x1b[A"),
        other => panic!("unexpected: {other:?}"),
    }
    assert!(matches!(write_mouse(shifted, alt), MouseDeed::ScrollBack));
    let tracking = modes_of(parsed(b"\x1b[?1000h\x1b[?1006h").screen());
    match write_mouse(wheel, tracking) {
        MouseDeed::Write(bytes) => assert_eq!(bytes, b"\x1b[<64;5;3M"),
        other => panic!("unexpected: {other:?}"),
    }
    assert!(matches!(write_mouse(shifted, tracking), MouseDeed::ScrollBack));
    let click = mouse(MouseEventKind::Down(MouseButton::Left), KeyModifiers::none());
    assert!(matches!(write_mouse(click, plain), MouseDeed::Nothing));
    let down = mouse(MouseEventKind::ScrollDown, KeyModifiers::none());
    assert!(matches!(write_mouse(down, plain), MouseDeed::ScrollForward));
    assert_eq!(
        scroll_as_arrows(MouseEventKind::ScrollDown, true, 2),
        b"\x1bOB\x1bOB"
    );
}

#[test]
fn the_view_does_not_scroll_below_the_bottom() {
    assert_eq!(scrollback_after(2, 3), 5);
    assert_eq!(scrollback_after(2, -3), 0);
}

#[test]
fn pastes_are_bracketed_once() {
    assert_eq!(paste_chunks("hi", true), [b"\x1b[200~hi\x1b[201~".to_vec()]);
    assert_eq!(paste_chunks("", true), [b"\x1b[200~\x1b[201~".to_vec()]);
    assert_eq!(paste_chunks("hi", false), [b"hi".to_vec()]);
    let long = "x".repeat(PASTE_CHUNK + 1);
    let chunks = paste_chunks(&long, true);
    assert_eq!(chunks.len(), 2);
    assert!(chunks[0].starts_with(b"\x1b[200~x"));
    assert_eq!(chunks[1], b"x\x1b[201~");
    assert_eq!(chunks.concat().len(), PASTE_CHUNK + 13);
    let sizes: Vec<usize> = paste_chunks(&"x".repeat(3 * PASTE_CHUNK), true)
        .iter()
        .map(Vec::len)
        .collect();
    assert_eq!(sizes, [PASTE_CHUNK + 6, PASTE_CHUNK, PASTE_CHUNK + 6]);
}

#[test]
fn a_dump_replays_the_log_while_it_is_whole() {
    let mut p = parsed(b"\x1b[?2004h");
    p.process(b"abc\r\n");
    let mut kbd = KbdTracker::default();
    kbd.feed(b"\x1b[>5u");
    let mut log = OutputLog::default();
    push_output_log(&mut log, b"abc\r\n");
    let dump = output_dump(p.screen(), &kbd, &log);
    assert!(dump.starts_with(b"\x1b[?2004h"));
    assert!(dump.ends_with(b"abc\r\n"));
    assert_eq!(dump.len(), 8 + kbd.prelude().len() + 5);

    log.truncated = true;
    let mut whole = mode_prelude(p.screen());
    whole.extend(kbd.prelude());
    whole.extend(p.screen().contents_formatted());
    assert_eq!(output_dump(p.screen(), &kbd, &log), whole);
}

#[test]
fn cells_take_the_theme_where_the_session_chose_nothing() {
    let theme = Theme::for_kind(ThemeKind::Dark);
    let p = parsed(b"a\x1b[1;3;4;7;31;48;2;1;2;3mb");
    let cells = pane_cells(p.screen(), 3, 2, &theme);
    assert_eq!(cells.len(), 6);
    assert_eq!((cells[0].col, cells[0].row), (0, 0));
    assert_eq!(cells[0].symbol, "a");
    assert_eq!(cells[0].style.fg, theme.fg);
    assert_eq!(cells[0].style.bg, theme.bg);
    assert!(!cells[0].style.bold && !cells[0].style.reversed);
    let b = &cells[1];
    assert_eq!(b.symbol, "b");
    assert_eq!(b.style.fg, Color::Indexed(1));
    assert_eq!(b.style.bg, Color::Rgb(1, 2, 3));
    assert!(b.style.bold && b.style.italic && b.style.underlined && b.style.reversed);
    assert_eq!(cells[2].symbol, " ");
    assert_eq!((cells[5].col, cells[5].row), (2, 1));
    // A pane that is larger than the screen shows the screen.
    assert_eq!(pane_cells(p.screen(), 100, 100, &theme).len(), 40);
}

#[test]
fn colors_are_carried_over() {
    let d = Color::Rgb(9, 9, 9);
    assert_eq!(convert_color(ScreenColor::Default, d), d);
    assert_eq!(convert_color(ScreenColor::Idx(7), d), Color::Indexed(7));
    assert_eq!(
        convert_color(ScreenColor::Rgb(1, 2, 3), d),
        Color::Rgb(1, 2, 3)
    );
}

#[test]
fn the_cursor_stays_on_the_pane() {
    let p = parsed(b"\x1b[3;6H");
    assert_eq!(
        pane_cursor(p.screen(), Rect::new(20, 5, 10, 4)),
        Some((25, 7))
    );
    assert_eq!(
        pane_cursor(p.screen(), Rect::new(20, 5, 3, 2)),
        Some((22, 6))
    );
    let hidden = parsed(b"\x1b[?25l");
    assert_eq!(pane_cursor(hidden.screen(), Rect::new(0, 0, 9, 9)), None);
}
