use imbuia::theme::{Color, Theme, ThemeKind};

#[test]
fn parse_round_trip() {
    assert_eq!(ThemeKind::parse("dark"), Some(ThemeKind::Dark));
    assert_eq!(ThemeKind::parse("Light"), Some(ThemeKind::Light));
    assert_eq!(ThemeKind::parse("  DARK  "), Some(ThemeKind::Dark));
    assert_eq!(ThemeKind::parse("solarized"), None);
    assert_eq!(ThemeKind::Dark.as_str(), "dark");
    assert_eq!(ThemeKind::Light.as_str(), "light");
}

#[test]
fn for_kind_returns_palette() {
    let dark = Theme::for_kind(ThemeKind::Dark);
    assert_eq!(dark.bg, Color::Rgb(0x1E, 0x1E, 0x2E));
    let light = Theme::for_kind(ThemeKind::Light);
    assert_eq!(light.bg, Color::Rgb(0xEF, 0xF1, 0xF5));
}
