use imbuia::event::{KeyCode, KeyEvent, KeyModifiers};
use imbuia::input::{encode_key, ClipboardSniffer, KbdEncoding, KbdTracker};

fn ev(code: KeyCode, mods: KeyModifiers) -> KeyEvent {
    KeyEvent::new(code, mods)
}

#[test]
fn legacy_enter_is_carriage_return_regardless_of_shift() {
    // No protocol negotiated: Shift+Enter degrades to bare CR (unchanged
    // pre-fix behaviour — we simply can't do better without a protocol).
    let out = encode_key(
        ev(KeyCode::Enter, KeyModifiers::shift()),
        false,
        KbdEncoding::Legacy,
    );
    assert_eq!(out, b"\r");
}

#[test]
fn kitty_shift_enter_is_csi_u() {
    let out = encode_key(
        ev(KeyCode::Enter, KeyModifiers::shift()),
        false,
        KbdEncoding::Kitty(1),
    );
    assert_eq!(out, b"\x1b[13;2u");
}

#[test]
fn kitty_unmodified_enter_stays_legacy_without_report_all() {
    let out = encode_key(
        ev(KeyCode::Enter, KeyModifiers::none()),
        false,
        KbdEncoding::Kitty(1),
    );
    assert_eq!(out, b"\r");
}

#[test]
fn kitty_report_all_encodes_unmodified_enter() {
    let out = encode_key(
        ev(KeyCode::Enter, KeyModifiers::none()),
        false,
        KbdEncoding::Kitty(0b1001),
    );
    assert_eq!(out, b"\x1b[13u");
}

#[test]
fn modify_other_keys_shift_enter() {
    let out = encode_key(
        ev(KeyCode::Enter, KeyModifiers::shift()),
        false,
        KbdEncoding::ModifyOtherKeys,
    );
    assert_eq!(out, b"\x1b[27;2;13~");
}

#[test]
fn ctrl_alt_enter_modifier_math() {
    // ctrl(4) + alt(2) = 6, +1 = 7.
    let out = encode_key(
        ev(KeyCode::Enter, KeyModifiers::control().union(KeyModifiers::alt())),
        false,
        KbdEncoding::Kitty(1),
    );
    assert_eq!(out, b"\x1b[13;7u");
}

#[test]
fn printable_chars_never_take_enhanced_path() {
    // 'A' must stay 'A' even in kitty mode — we don't touch Char keys.
    let out = encode_key(
        ev(KeyCode::Char('A'), KeyModifiers::shift()),
        false,
        KbdEncoding::Kitty(1),
    );
    assert_eq!(out, b"A");
}

#[test]
fn tracker_detects_kitty_push_and_pop() {
    let mut t = KbdTracker::default();
    assert_eq!(t.encoding(), KbdEncoding::Legacy);
    t.feed(b"\x1b[>1u");
    assert_eq!(t.encoding(), KbdEncoding::Kitty(1));
    t.feed(b"\x1b[<u");
    assert_eq!(t.encoding(), KbdEncoding::Legacy);
}

#[test]
fn tracker_handles_sequence_split_across_frames() {
    let mut t = KbdTracker::default();
    t.feed(b"\x1b[>");
    t.feed(b"5");
    t.feed(b"u");
    assert_eq!(t.encoding(), KbdEncoding::Kitty(5));
}

#[test]
fn tracker_kitty_set_all_and_clear() {
    let mut t = KbdTracker::default();
    t.feed(b"\x1b[=15;1u"); // set all → 15
    assert_eq!(t.encoding(), KbdEncoding::Kitty(15));
    t.feed(b"\x1b[=8;3u"); // clear bit 3 (value 8) → 7
    assert_eq!(t.encoding(), KbdEncoding::Kitty(7));
}

#[test]
fn tracker_modify_other_keys_on_off() {
    let mut t = KbdTracker::default();
    t.feed(b"\x1b[>4;2m");
    assert_eq!(t.encoding(), KbdEncoding::ModifyOtherKeys);
    t.feed(b"\x1b[>4m"); // reset → off
    assert_eq!(t.encoding(), KbdEncoding::Legacy);
}

#[test]
fn prelude_round_trips_through_a_fresh_tracker() {
    // Whatever state the supervisor's tracker is in, replaying its prelude
    // into a fresh client tracker must reproduce the same encoding.
    for seq in [&b"\x1b[>5u"[..], &b"\x1b[>4;2m"[..], &b"\x1b[=15;1u"[..]] {
        let mut src = KbdTracker::default();
        src.feed(seq);
        let mut dst = KbdTracker::default();
        dst.feed(&src.prelude());
        assert_eq!(src.encoding(), dst.encoding(), "seq {seq:?}");
    }
}

#[test]
fn prelude_is_empty_when_legacy() {
    assert!(KbdTracker::default().prelude().is_empty());
}

#[test]
fn tracker_ignores_unrelated_csi() {
    let mut t = KbdTracker::default();
    t.feed(b"\x1b[2J\x1b[1;1H\x1b[?1049h hello \x1b[0m");
    assert_eq!(t.encoding(), KbdEncoding::Legacy);
}

#[test]
fn sniffs_osc52_copy_bel_terminated() {
    let mut s = ClipboardSniffer::default();
    let out = s.feed(b"before\x1b]52;c;aGVsbG8=\x07after");
    assert_eq!(out, vec!["c;aGVsbG8=".to_string()]);
}

#[test]
fn sniffs_osc52_copy_st_terminated() {
    let mut s = ClipboardSniffer::default();
    let out = s.feed(b"\x1b]52;p;ZGF0YQ==\x1b\\");
    assert_eq!(out, vec!["p;ZGF0YQ==".to_string()]);
}

#[test]
fn sniffs_osc52_split_across_frames() {
    let mut s = ClipboardSniffer::default();
    assert!(s.feed(b"\x1b]52;c;aGVs").is_empty());
    let out = s.feed(b"bG8=\x07");
    assert_eq!(out, vec!["c;aGVsbG8=".to_string()]);
}

#[test]
fn ignores_osc52_paste_query() {
    let mut s = ClipboardSniffer::default();
    assert!(s.feed(b"\x1b]52;c;?\x07").is_empty());
}

#[test]
fn ignores_non_52_osc() {
    let mut s = ClipboardSniffer::default();
    // Window-title (OSC 0) must not be mistaken for a clipboard copy.
    assert!(s.feed(b"\x1b]0;my title\x07").is_empty());
}

#[test]
fn sniffs_multiple_copies_in_one_chunk() {
    let mut s = ClipboardSniffer::default();
    let out = s.feed(b"\x1b]52;c;YQ==\x07\x1b]52;c;Yg==\x07");
    assert_eq!(out, vec!["c;YQ==".to_string(), "c;Yg==".to_string()]);
}
