use imbuia::event::{KeyCode, KeyEvent, KeyModifiers};
use imbuia::keybinds::{
    defaults, defaults_as_config, format_binding, load_overlay, parse, BindableAction, Chord,
    MatchResult, Scope, ALL,
};
use imbuia::keytable::KeybindTable;

#[test]
fn parse_single_char() {
    let b = parse("o").unwrap();
    assert_eq!(b.0.len(), 1);
    assert_eq!(
        b.0[0],
        Chord {
            mods: KeyModifiers::none(),
            code: KeyCode::Char('o')
        }
    );
}

#[test]
fn parse_uppercase_implies_shift_stripped() {
    // Round-trip: `T` should match a KeyEvent with Char('T') and no Shift.
    let b = parse("T").unwrap();
    let evt = KeyEvent::new(KeyCode::Char('T'), KeyModifiers::shift());
    assert_eq!(b.0[0], Chord::from_event(&evt));
}

#[test]
fn ctrl_letter_is_case_and_shift_insensitive() {
    // The `<C-\><C-n>` leave-terminal chord must keep matching no matter how
    // the keyboard protocol reports Ctrl+n. Under kitty disambiguate,
    // Ctrl+Shift+n arrives as Char('N') + CONTROL|SHIFT; legacy gives
    // Char('n') + CONTROL. Both must canonicalise to the `<C-n>` chord.
    let want = parse("<C-n>").unwrap().0[0];
    for (code, mods) in [
        (KeyCode::Char('n'), KeyModifiers::control()),
        (
            KeyCode::Char('N'),
            KeyModifiers::control().union(KeyModifiers::shift()),
        ),
        (
            KeyCode::Char('n'),
            KeyModifiers::control().union(KeyModifiers::shift()),
        ),
    ] {
        assert_eq!(Chord::from_event(&KeyEvent::new(code, mods)), want);
    }
    // …but Shift still matters for a plain (non-Ctrl) letter: `G` != `g`.
    assert_ne!(
        Chord::from_event(&KeyEvent::new(KeyCode::Char('G'), KeyModifiers::none())),
        Chord::from_event(&KeyEvent::new(KeyCode::Char('g'), KeyModifiers::none())),
    );
}

#[test]
fn parse_ctrl_w_gt() {
    let b = parse("<C-w>>").unwrap();
    assert_eq!(b.0.len(), 2);
    assert_eq!(b.0[0].mods, KeyModifiers::control());
    assert_eq!(b.0[0].code, KeyCode::Char('w'));
    assert_eq!(b.0[1].code, KeyCode::Char('>'));
}

#[test]
fn parse_space_chord() {
    let b = parse("<Space>w").unwrap();
    assert_eq!(b.0.len(), 2);
    assert_eq!(b.0[0].code, KeyCode::Char(' '));
    assert_eq!(b.0[1].code, KeyCode::Char('w'));
}

#[test]
fn parse_gt() {
    let b = parse("gt").unwrap();
    assert_eq!(b.0.len(), 2);
    assert_eq!(b.0[0].code, KeyCode::Char('g'));
    assert_eq!(b.0[1].code, KeyCode::Char('t'));
}

#[test]
fn round_trip_all_defaults() {
    for (b, _) in defaults().normal.iter().chain(defaults().terminal.iter()) {
        let s = format_binding(b);
        let re = parse(&s).unwrap_or_else(|e| panic!("re-parse {s:?}: {e:?}"));
        assert_eq!(b, &re, "round-trip changed binding: {s:?}");
    }
}

#[test]
fn rejects_too_long() {
    assert!(parse("abcde").is_err());
}

#[test]
fn rejects_unclosed_bracket() {
    assert!(parse("<C-w").is_err());
}

#[test]
fn lookup_exact_then_prefix() {
    let km = defaults();
    let g = Chord {
        mods: KeyModifiers::none(),
        code: KeyCode::Char('g'),
    };
    assert!(matches!(
        km.lookup(Scope::Normal, &[g]),
        MatchResult::Prefix(_)
    ));
    let t = Chord {
        mods: KeyModifiers::none(),
        code: KeyCode::Char('t'),
    };
    assert_eq!(
        km.lookup(Scope::Normal, &[g, t]),
        MatchResult::Exact(BindableAction::NextTab)
    );
}

#[test]
fn lookup_unknown_returns_none() {
    let km = defaults();
    let z = Chord {
        mods: KeyModifiers::none(),
        code: KeyCode::Char('z'),
    };
    assert!(matches!(km.lookup(Scope::Normal, &[z]), MatchResult::NoMatch));
}

#[test]
fn user_overlay_replaces_default_binding_for_action() {
    let mut user = KeybindTable::new();
    user.insert("open_tab".into(), "<Space>t".into());
    let km = load_overlay(&user);
    assert_eq!(
        km.binding_for(BindableAction::OpenTab).as_deref(),
        Some("<Space>t")
    );
}

#[test]
fn user_overlay_skips_unknown_action() {
    let mut user = KeybindTable::new();
    user.insert("not_a_real_action".into(), "x".into());
    let km = load_overlay(&user);
    // Defaults intact for known actions.
    assert_eq!(
        km.binding_for(BindableAction::OpenTab).as_deref(),
        Some("o")
    );
}

#[test]
fn user_overlay_skips_unparseable() {
    let mut user = KeybindTable::new();
    user.insert("open_tab".into(), "<NotAKey>".into());
    let km = load_overlay(&user);
    assert_eq!(
        km.binding_for(BindableAction::OpenTab).as_deref(),
        Some("o")
    );
}

#[test]
fn reserved_esc_rejected() {
    let mut user = KeybindTable::new();
    user.insert("open_tab".into(), "<Esc>".into());
    let km = load_overlay(&user);
    assert_eq!(
        km.binding_for(BindableAction::OpenTab).as_deref(),
        Some("o")
    );
}

#[test]
fn defaults_as_config_lists_every_action() {
    let cfg = defaults_as_config();
    for a in ALL {
        assert!(
            cfg.contains_key(a.name()),
            "missing default for {}",
            a.name()
        );
    }
}

#[test]
fn brackets_round_trip() {
    for (s, written) in [
        ("<lt>a", "<lt>a"),
        ("<lt><lt>", "<lt><"),
        ("a<lt>", "a<"),
        ("<C-gt>", "<C-gt>"),
        ("<A-lt>x", "<A-lt>x"),
        (">>", ">>"),
        ("<C-w><", "<C-w><"),
    ] {
        let b = parse(s).unwrap();
        assert_eq!(format_binding(&b), written);
        assert_eq!(parse(written).unwrap(), b);
    }
}

#[test]
fn overlaid_bindings_come_last() {
    let mut user = defaults_as_config();
    let km = load_overlay(&user);
    for a in ALL {
        assert_eq!(km.binding_for(a), defaults().binding_for(a), "{a:?}");
    }
    // The other default keys of an action stay with the one that is listed.
    let down = parse("<Down>").unwrap();
    assert!(matches!(
        km.lookup(Scope::Normal, &down.0),
        MatchResult::Exact(BindableAction::SidebarDown)
    ));
    // `close_tab` comes before `open_tab`, which keeps `o` too.
    user.insert("close_tab".into(), "o".into());
    let o = parse("o").unwrap();
    assert!(matches!(
        load_overlay(&user).lookup(Scope::Normal, &o.0),
        MatchResult::Exact(BindableAction::CloseTab)
    ));
}
