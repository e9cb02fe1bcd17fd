use imbuia::emulator::{is_roomy, MAX_COLS, MIN_COLS, MIN_ROWS, SCROLLBACK};
use imbuia::event::{KeyCode, KeyEvent, KeyModifiers, MouseButton, MouseEvent, MouseEventKind};
use imbuia::ipc::ClientMsg;
use imbuia::proxy::ProxySession;
use imbuia::screen::PASTE_CHUNK;
use imbuia::supervisor::Output;

fn session() -> ProxySession {
    ProxySession::new(7, 4, 20)
}

fn key(code: KeyCode) -> KeyEvent {
    KeyEvent::new(code, KeyModifiers::none())
}

fn event(kind: MouseEventKind) -> MouseEvent {
    MouseEvent {
        kind,
        column: 4,
        row: 2,
        modifiers: KeyModifiers::none(),
    }
}

fn written(msg: Option<ClientMsg>) -> Vec<u8> {
    match msg {
        Some(ClientMsg::WriteBytes { id: 7, bytes }) => bytes,
        other => panic!("{other:?}"),
    }
}

#[test]
fn output_shows_on_the_screen() {
    let mut s = session();
    assert!(s.take_in(b"one\r\n\x1b[1mtwo").is_empty());
    assert_eq!(s.screen().contents(), "one\ntwo");
    assert_eq!(s.screen().cursor_position(), (1, 3));
    assert!(s.screen().cell(1, 0).unwrap().bold());
}

#[test]
fn keys_follow_what_the_session_printed() {
    let mut s = session();
    assert_eq!(written(s.write_key(key(KeyCode::Up))), b"\x1b[A");
    s.take_in(b"\x1b[?1h");
    assert_eq!(written(s.write_key(key(KeyCode::Up))), b"\x1bOA");
    let shift_enter = KeyEvent::new(KeyCode::Enter, KeyModifiers::shift());
    assert_eq!(written(s.write_key(shift_enter)), b"\r");
    s.take_in(b"\x1b[>1u");
    assert_eq!(written(s.write_key(shift_enter)), b"\x1b[13;2u");
    assert!(s.write_key(key(KeyCode::F(99))).is_none());
}

#[test]
fn pastes_are_bracketed_where_the_session_asks() {
    let mut s = session();
    assert_eq!(s.write_paste("a\nb").len(), 1);
    assert_eq!(written(s.write_paste("a\nb").pop()), b"a\nb");
    s.take_in(b"\x1b[?2004h");
    assert_eq!(written(s.write_paste("a\nb").pop()), b"\x1b[200~a\nb\x1b[201~");
    let mut msgs = s.write_paste(&"x".repeat(PASTE_CHUNK + 1));
    assert_eq!(msgs.len(), 2);
    assert_eq!(written(msgs.pop()), b"x\x1b[201~");
    assert_eq!(written(msgs.pop()).len(), PASTE_CHUNK + 6);
}

#[test]
fn the_wheel_moves_the_view_unless_the_session_wants_it() {
    let mut s = session();
    for _ in 0..10 {
        s.take_in(b"line\r\n");
    }
    let (up, down) = (event(MouseEventKind::ScrollUp), event(MouseEventKind::ScrollDown));
    assert!(s.write_mouse(up).is_none());
    assert_eq!(s.screen().scrollback(), 3);
    assert!(s.write_mouse(up).is_none());
    assert!(s.write_mouse(up).is_none());
    assert_eq!(s.screen().scrollback(), 7);
    assert!(s.write_mouse(down).is_none());
    assert_eq!(s.screen().scrollback(), 4);
    s.bump_scrollback(-100);
    assert_eq!(s.screen().scrollback(), 0);
    let click = event(MouseEventKind::Down(MouseButton::Left));
    assert!(s.write_mouse(click).is_none());
    s.take_in(b"\x1b[?1000h\x1b[?1006h");
    assert_eq!(written(s.write_mouse(click)), b"\x1b[<0;5;3M");
    assert_eq!(written(s.write_mouse(up)), b"\x1b[<64;5;3M");
    assert_eq!(s.screen().scrollback(), 0);
}

#[test]
fn copies_come_back_once_they_are_complete() {
    let mut s = session();
    assert!(s.take_in(b"\x1b]52;c;aG").is_empty());
    assert_eq!(s.take_in(b"k=\x07after"), ["c;aGk="]);
    assert_eq!(s.screen().contents(), "after");
}

#[test]
fn a_resize_reaches_screen_and_supervisor() {
    let mut s = session();
    assert!(matches!(
        s.resize(10, 30),
        ClientMsg::Resize { id: 7, rows: 10, cols: 30 }
    ));
    assert_eq!(s.screen().size(), (10, 30));
    assert!(matches!(s.kill(), ClientMsg::Kill { id: 7 }));
}

#[test]
fn narrower_screens_may_cut_wide_characters() {
    let mut s = session();
    assert!(s.try_take_in(b"plain").is_some());
    s.resize(4, 10);
    assert!(s.try_take_in(b" text").is_some());
    assert_eq!(s.screen().contents(), "plain text");
    assert!(s.try_take_in("\r\n\u{6f22}".as_bytes()).is_some());
    s.resize(4, 12);
    assert!(s.try_take_in(b"!").is_some());
    s.resize(4, 8);
    assert!(s.try_take_in(b"?").is_none());
    assert_eq!(s.screen().contents(), "plain te\n\u{6f22}!");

    let mut out = Output::new(4, 10);
    assert!(out.try_take_in("\u{6f22}".as_bytes()));
    out.resize(5, 10);
    assert!(out.try_take_in(b"a"));
    out.resize(5, 9);
    assert!(!out.try_take_in(b"b"));
    assert_eq!(out.dump(), "\u{6f22}a".as_bytes());
}

#[test]
fn the_smallest_screens_take_any_output() {
    assert!(is_roomy(MIN_ROWS, MIN_COLS) && is_roomy(u16::MAX, MAX_COLS));
    assert!(!is_roomy(1, 80) && !is_roomy(24, 2) && !is_roomy(24, MAX_COLS + 1));
    let mut s = ProxySession::new(1, MIN_ROWS, MIN_COLS);
    s.take_in("abcdefg\u{6f22}\u{6f22}\u{2e3b}x\t\t\x1b[2J\x1bM\x1b[K\x1b[9P\x1b[9@z".as_bytes());
    let mut w = ProxySession::new(1, MIN_ROWS, MAX_COLS);
    w.take_in(b"\x1b[65535G\tx\ty");
    assert_eq!(w.screen().size(), (MIN_ROWS, MAX_COLS));
}

#[test]
fn an_attaching_client_sees_what_the_host_sees() {
    let mut host = Output::new(4, 20);
    for line in ["\x1b[?1049h\x1b[>4;1m", "one\r\n", "\x1b[31mtwo"] {
        host.take_in(line.as_bytes());
    }
    let mut client = session();
    client.take_in(&host.dump());
    assert_eq!(
        client.screen().contents_formatted(),
        host.terminal.screen().contents_formatted()
    );
    assert!(client.screen().alternate_screen());
    host.take_in(b" three");
    client.take_in(b" three");
    assert_eq!(client.screen().contents(), host.terminal.screen().contents());
    assert_eq!(client.screen().contents(), "one\ntwo three");
    assert_eq!(client.kbd.encoding(), host.kbd.encoding());
}

#[test]
fn lines_are_kept_up_to_a_limit() {
    let mut s = ProxySession::new(1, 2, 5);
    for _ in 0..SCROLLBACK + 50 {
        s.take_in(b"x\r\n");
    }
    s.bump_scrollback(i32::MAX);
    assert_eq!(s.screen().scrollback(), SCROLLBACK);
}
