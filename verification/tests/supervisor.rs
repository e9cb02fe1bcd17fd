use imbuia::screen::mode_prelude;
use imbuia::supervisor::{push_output_log, OutputLog, OUTPUT_LOG_CAP};

#[test]
fn push_output_log_appends_under_cap() {
    let mut log = OutputLog::default();
    push_output_log(&mut log, b"hello\n");
    assert_eq!(log.buf.len(), 6);
    assert!(!log.truncated);
}

#[test]
fn push_output_log_evicts_at_cap_with_newline_boundary() {
    let mut log = OutputLog::default();
    // Fill with a long string of "line\n" so eviction has newlines to align on.
    let chunk = b"line\n".repeat(OUTPUT_LOG_CAP / 5 + 100);
    push_output_log(&mut log, &chunk);
    assert!(log.buf.len() <= OUTPUT_LOG_CAP);
    // Newline-aligned eviction keeps the log safe to replay, so the
    // truncated flag stays false.
    assert!(
        !log.truncated,
        "newline-aligned eviction should not flip truncated"
    );
    // Head should now be at the start of a fresh `line` token.
    assert_eq!(
        &log.buf.iter().copied().take(4).collect::<Vec<_>>(),
        b"line"
    );
}

#[test]
fn push_output_log_marks_truncated_without_newline() {
    let mut log = OutputLog::default();
    // No newlines anywhere — eviction can't align, so truncated must flip.
    let chunk = vec![b'x'; OUTPUT_LOG_CAP + 1024];
    push_output_log(&mut log, &chunk);
    assert!(log.buf.len() <= OUTPUT_LOG_CAP);
    assert!(log.truncated);
}

#[test]
fn mode_prelude_emits_alt_screen_and_sgr_mouse() {
    // Synthesise a parser that's been told to enter alt-screen with SGR
    // mouse capture; the prelude should reflect both.
    let mut p = vt100::Parser::new(24, 80, 100);
    p.process(b"\x1b[?1049h\x1b[?1006h\x1b[?1000h");
    let prelude = mode_prelude(p.screen());
    assert!(
        prelude
            .windows(b"\x1b[?1049h".len())
            .any(|w| w == b"\x1b[?1049h"),
        "missing alt-screen toggle: {prelude:?}"
    );
    assert!(
        prelude
            .windows(b"\x1b[?1006h".len())
            .any(|w| w == b"\x1b[?1006h"),
        "missing SGR mouse encoding: {prelude:?}"
    );
    assert!(
        prelude
            .windows(b"\x1b[?1000h".len())
            .any(|w| w == b"\x1b[?1000h"),
        "missing press/release mouse mode: {prelude:?}"
    );
}

#[test]
fn mode_prelude_empty_when_no_modes_active() {
    let p = vt100::Parser::new(24, 80, 100);
    assert!(mode_prelude(p.screen()).is_empty());
}
