use imbuia::editbox::EditBox;
use imbuia::event::{KeyCode, KeyEvent, KeyModifiers};
use imbuia::layout::{chrome, open_rows, Rect, MIN_SIDEBAR_WIDTH};

fn share(size: u16, length: u16, least: u16) -> u16 {
    if size >= length + least {
        length
    } else {
        size.saturating_sub(least)
    }
}

fn check_regions(area: Rect, asked: u16) {
    let c = chrome(area, asked);
    let bar = share(area.height, 1, 1);
    let main = area.height - bar;
    let wanted = asked
        .min(area.width.saturating_sub(MIN_SIDEBAR_WIDTH))
        .max(MIN_SIDEBAR_WIDTH);
    let side = share(area.width, wanted, 1);
    let tabs = share(main, 2, 1);
    let (left, right) = (area.x + side, area.width - side);
    assert_eq!(
        c.action_bar,
        Rect::new(area.x, area.y + main, area.width, bar),
        "{area:?} {asked}"
    );
    assert_eq!(
        c.sidebar,
        Rect::new(area.x, area.y, side, main),
        "{area:?} {asked}"
    );
    assert_eq!(
        c.tab_bar,
        Rect::new(left, area.y, right, tabs),
        "{area:?} {asked}"
    );
    assert_eq!(
        c.terminal,
        Rect::new(left, area.y + tabs, right, main - tabs),
        "{area:?} {asked}"
    );
}

#[test]
fn chrome_shares_out_every_cell() {
    for width in 0..60 {
        for height in 0..8 {
            check_regions(Rect::new(0, 0, width, height), 24);
            check_regions(Rect::new(3, 5, width, height), 13);
        }
    }
    for n in (0..65_535).step_by(509) {
        check_regions(Rect::new(0, 0, n, n / 3), n / 2);
        check_regions(Rect::new(0, 0, n, 40), 65_535);
        check_regions(Rect::new(65_535 - n, 65_535 - n, n, n), 0);
    }
}

#[test]
fn chrome_stops_at_the_largest_coordinate() {
    let c = chrome(Rect::new(65_500, 0, 100, 10), 24);
    assert_eq!(c.sidebar, Rect::new(65_500, 0, 24, 9));
    assert_eq!(c.terminal, Rect::new(65_524, 2, 11, 7));
    assert_eq!(c.action_bar, Rect::new(65_500, 9, 100, 1));
}

#[test]
fn both_panes_keep_their_columns() {
    let c = chrome(Rect::new(0, 0, 20, 10), 200);
    assert_eq!((c.sidebar.width, c.terminal.width), (10, 10));
    let c = chrome(Rect::new(0, 0, 15, 10), 200);
    assert_eq!((c.sidebar.width, c.terminal.width), (10, 5));
}

#[test]
fn rows_of_the_open_popup_share_its_inside() {
    for (y, width) in [(0, 68), (1, 30), (7, 1)] {
        for height in 11..80 {
            let r = open_rows(Rect::new(3, y, width, height));
            let left = height - 5;
            let b = if left >= 8 { (left + 1) / 2 } else { 4 };
            let at = |from: u16, n: u16| Rect::new(3, y + from, width, n);
            assert_eq!((r.supervisor, r.dir), (at(0, 1), at(1, 1)));
            assert_eq!(r.browser, at(2, b), "{height}");
            assert_eq!(r.script_label, at(2 + b, 1));
            assert_eq!(r.script, at(3 + b, left - b), "{height}");
            assert_eq!((r.checkbox, r.footer), (at(3 + left, 1), at(4 + left, 1)));
        }
    }
    for height in 0..11 {
        let r = open_rows(Rect::new(0, 2, 10, height));
        for part in [r.supervisor, r.dir, r.browser, r.script_label, r.script, r.checkbox, r.footer] {
            assert!(part.y >= 2 && part.y + part.height <= 2 + height && part.width == 10);
        }
    }
}

fn press(b: &mut EditBox, code: KeyCode) -> bool {
    b.input(KeyEvent::new(code, KeyModifiers::none()))
}

fn ctrl(b: &mut EditBox, c: char) -> bool {
    b.input(KeyEvent::new(KeyCode::Char(c), KeyModifiers::control()))
}

fn held(code: KeyCode, shift: bool, alt: bool) -> KeyEvent {
    let modifiers = KeyModifiers {
        shift,
        alt,
        ..KeyModifiers::none()
    };
    KeyEvent::new(code, modifiers)
}

fn lines(text: &str) -> EditBox {
    EditBox::holding(text.split('\n').map(String::from).collect())
}

#[test]
fn backspace_takes_back_what_was_typed() {
    let mut b = lines("ab\ncd");
    assert!(!press(&mut b, KeyCode::Backspace));
    assert_eq!(b.lines(), ["ab", "cd"]);
    assert!(press(&mut b, KeyCode::Char('x')));
    assert_eq!(b.lines(), ["xab", "cd"]);
    assert!(press(&mut b, KeyCode::Enter));
    assert_eq!(b.text(), "x\nab\ncd");
    press(&mut b, KeyCode::Backspace);
    assert_eq!(b.lines(), ["xab", "cd"]);
    assert!(press(&mut b, KeyCode::Backspace));
    assert_eq!(b.lines(), ["ab", "cd"]);
}

#[test]
fn moving_keys_leave_the_text() {
    let mut b = lines("one two\n\nthree");
    for code in [
        KeyCode::Down,
        KeyCode::Right,
        KeyCode::End,
        KeyCode::PageDown,
        KeyCode::Left,
        KeyCode::PageUp,
        KeyCode::Home,
        KeyCode::Up,
        KeyCode::Esc,
        KeyCode::F(3),
    ] {
        for (shift, alt) in [(false, false), (true, false), (false, true)] {
            assert!(!b.input(held(code, shift, alt)));
            assert_eq!(b.text(), "one two\n\nthree", "{code:?}");
        }
    }
    for c in ['n', 'p', 'f', 'b', 'a', 'e', 'v', 'q', 'z'] {
        assert!(!ctrl(&mut b, c));
        assert_eq!(b.text(), "one two\n\nthree", "{c}");
    }
}

#[test]
fn lines_and_words_are_erased() {
    let mut b = lines("one  two-x\nthree");
    press(&mut b, KeyCode::End);
    assert!(ctrl(&mut b, 'w'));
    assert_eq!(b.text(), "one  two-\nthree");
    ctrl(&mut b, 'w');
    assert_eq!(b.text(), "one  two\nthree");
    assert!(b.input(held(KeyCode::Backspace, false, true)));
    assert_eq!(b.text(), "one  \nthree");
    ctrl(&mut b, 'w');
    assert_eq!(b.text(), "\nthree");
    // At the end of a line the break goes.
    assert!(ctrl(&mut b, 'k'));
    assert_eq!(b.text(), "three");
    press(&mut b, KeyCode::Right);
    press(&mut b, KeyCode::Right);
    assert!(ctrl(&mut b, 'k'));
    assert_eq!(b.text(), "th");
    assert!(ctrl(&mut b, 'y'));
    assert_eq!(b.text(), "three");
    press(&mut b, KeyCode::Left);
    assert!(ctrl(&mut b, 'j'));
    assert_eq!(b.text(), "e");
    assert!(!ctrl(&mut b, 'j'));
    press(&mut b, KeyCode::Char('a'));
    press(&mut b, KeyCode::Char(' '));
    press(&mut b, KeyCode::Home);
    assert!(b.input(held(KeyCode::Char('d'), false, true)));
    assert_eq!(b.text(), " e");
    assert!(press(&mut b, KeyCode::Delete));
    assert!(ctrl(&mut b, 'd'));
    assert_eq!(b.text(), "");
    assert!(!press(&mut b, KeyCode::Delete));
}

#[test]
fn tabs_reach_the_next_stop() {
    let mut b = lines("ab");
    press(&mut b, KeyCode::Right);
    assert!(press(&mut b, KeyCode::Tab));
    assert_eq!(b.text(), "a   b");
    press(&mut b, KeyCode::Tab);
    assert_eq!(b.text(), "a       b");
}

#[test]
fn selections_are_cut_copied_and_pasted() {
    let mut b = lines("abc\ndef");
    press(&mut b, KeyCode::Right);
    b.input(held(KeyCode::Down, true, false));
    assert!(!ctrl(&mut b, 'c'));
    press(&mut b, KeyCode::End);
    assert!(ctrl(&mut b, 'y'));
    assert_eq!(b.text(), "abc\ndefbc\nd");
    b.input(held(KeyCode::Left, true, false));
    b.input(held(KeyCode::Left, true, false));
    assert!(ctrl(&mut b, 'x'));
    assert_eq!(b.text(), "abc\ndefbc");
    assert!(!ctrl(&mut b, 'x'));
    assert!(ctrl(&mut b, 'y'));
    assert_eq!(b.text(), "abc\ndefbc\nd");
    // A selection goes for what is typed.
    b.input(held(KeyCode::Home, true, false));
    press(&mut b, KeyCode::Char('z'));
    assert_eq!(b.text(), "abc\ndefbc\nz");
}

#[test]
fn pasting_nothing_over_a_selection_is_no_change_reported() {
    let mut b = lines("ab");
    b.input(held(KeyCode::Right, true, false));
    assert!(!ctrl(&mut b, 'y'));
    assert_eq!(b.text(), "b");
}

#[test]
fn undo_and_redo_give_texts_back() {
    let mut b = lines("ab");
    assert!(!ctrl(&mut b, 'u'));
    press(&mut b, KeyCode::Char('x'));
    press(&mut b, KeyCode::Enter);
    b.input(held(KeyCode::Home, true, false));
    assert!(ctrl(&mut b, 'u'));
    assert_eq!(b.text(), "xab");
    assert!(ctrl(&mut b, 'u'));
    assert_eq!(b.text(), "ab");
    assert!(!ctrl(&mut b, 'u'));
    assert!(ctrl(&mut b, 'r'));
    assert!(ctrl(&mut b, 'r'));
    assert_eq!(b.text(), "x\nab");
    assert!(!ctrl(&mut b, 'r'));
    for _ in 0..60 {
        press(&mut b, KeyCode::Char('y'));
    }
    let mut undone = 0;
    while ctrl(&mut b, 'u') {
        undone += 1;
    }
    assert_eq!(undone, 50);
    assert_eq!(b.text(), format!("x\n{}ab", "y".repeat(10)));
}

#[test]
fn undo_and_redo_put_the_cursor_back() {
    let mut b = lines("hello");
    assert!(ctrl(&mut b, 'k'));
    assert_eq!(b.text(), "");
    assert!(ctrl(&mut b, 'u'));
    assert!(press(&mut b, KeyCode::Char('!')));
    assert_eq!(b.text(), "hello!");

    let mut b = lines("ab\ncd");
    press(&mut b, KeyCode::Enter);
    press(&mut b, KeyCode::Char('x'));
    assert!(ctrl(&mut b, 'u') && ctrl(&mut b, 'u'));
    assert!(!ctrl(&mut b, 'u'));
    assert_eq!(b.text(), "ab\ncd");
    assert!(ctrl(&mut b, 'r'));
    press(&mut b, KeyCode::Char('y'));
    assert_eq!(b.text(), "\nyab\ncd");
    assert!(!ctrl(&mut b, 'r'));

    let mut b = lines("ab\ncd");
    press(&mut b, KeyCode::End);
    assert!(press(&mut b, KeyCode::Delete));
    assert_eq!(b.text(), "abcd");
    assert!(ctrl(&mut b, 'u'));
    press(&mut b, KeyCode::Char('z'));
    assert_eq!(b.text(), "ab\nzcd");
}

#[test]
fn an_empty_box_shows_its_placeholder() {
    let b = EditBox::with_placeholder("type here");
    assert_eq!(b.area.placeholder_text(), "type here");
    assert_eq!(b.text(), "");
    assert_eq!(lines("a").area.placeholder_text(), "");
}
