//! Color palette. Two bundled variants — `Dark` and `Light`. Persisted in the
//! global config as a plain string ("dark" / "light").

use crate::text;
use vstd::prelude::*;

verus! {

/// A color of a cell.
#[derive(Copy, Clone, Debug, PartialEq, Eq, Structural)]
pub enum Color {
    Reset,
    Indexed(u8),
    Rgb(u8, u8, u8),
}

#[derive(Copy, Clone, Debug, PartialEq, Eq, Structural)]
pub enum ThemeKind {
    Dark,
    Light,
}

impl Default for ThemeKind {
    fn default() -> (r: ThemeKind)
        ensures
            r == ThemeKind::Dark,
    {
        ThemeKind::Dark
    }
}

impl ThemeKind {
    /// The name a kind is saved under.
    pub open spec fn text(self) -> Seq<char> {
        match self {
            ThemeKind::Dark => "dark"@,
            ThemeKind::Light => "light"@,
        }
    }

    /// The kind that `s` names, in any case and with white space round it.
    pub open spec fn named(s: Seq<char>) -> Option<ThemeKind> {
        let name = text::lower_ascii(text::trimmed(s));
        if name == ThemeKind::Dark.text() {
            Some(ThemeKind::Dark)
        } else if name == ThemeKind::Light.text() {
            Some(ThemeKind::Light)
        } else {
            None
        }
    }

    pub fn parse(s: &str) -> (r: Option<ThemeKind>)
        ensures
            r == ThemeKind::named(s@),
    {
        let name = text::to_lower_ascii(text::trim(s).as_str());
        if text::same(name.as_str(), "dark") {
            Some(ThemeKind::Dark)
        } else if text::same(name.as_str(), "light") {
            Some(ThemeKind::Light)
        } else {
            None
        }
    }

    pub fn as_str(self) -> (r: &'static str)
        ensures
            r@ == self.text(),
    {
        match self {
            ThemeKind::Dark => "dark",
            ThemeKind::Light => "light",
        }
    }
}

/// Reading a kind's saved name gives the kind back.
pub proof fn law_theme_name_round_trips(kind: ThemeKind)
    ensures
        ThemeKind::named(kind.text()) == Some(kind),
{
    reveal_strlit("dark");
    reveal_strlit("light");
    let s = kind.text();
    assert(!text::is_white(s[0]) && !text::is_white(s.last()));
    assert(text::trimmed(s) == s);
    assert(text::lower_ascii(s) =~= s);
    assert("dark"@.len() != "light"@.len());
}

#[derive(Copy, Clone, Debug, PartialEq, Eq, Structural)]
pub struct Theme {
    pub kind: ThemeKind,
    pub bg: Color,
    pub fg: Color,
    pub fg_dim: Color,
    pub border: Color,
    pub border_focus: Color,
    pub selection_bg: Color,
    pub selection_fg: Color,
    pub status_idle: Color,
    pub status_running: Color,
    pub status_ok: Color,
    pub status_error: Color,
    /// Used for "review requested changes" — distinct from `status_error`
    /// (CI failure) so the two PR states are visually separable.
    pub status_changes: Color,
    /// Used for "PR approved, ready to merge" (sidebar bar). Blue.
    pub status_approved: Color,
    pub header_fg: Color,
}

/// The palette of a kind.
pub open spec fn palette(kind: ThemeKind) -> Theme {
    match kind {
        ThemeKind::Dark => Theme {
            kind: ThemeKind::Dark,
            bg: Color::Rgb(0x1E, 0x1E, 0x2E),
            fg: Color::Rgb(0xCD, 0xD6, 0xF4),
            fg_dim: Color::Rgb(0x9A, 0xA0, 0xB6),
            border: Color::Rgb(0x45, 0x47, 0x5A),
            border_focus: Color::Rgb(0x89, 0xB4, 0xFA),
            selection_bg: Color::Rgb(0x58, 0x5B, 0x70),
            selection_fg: Color::Rgb(0xF5, 0xF7, 0xFA),
            status_idle: Color::Rgb(0x9A, 0xA0, 0xB6),
            status_running: Color::Rgb(0xF9, 0xE2, 0xAF),
            status_ok: Color::Rgb(0xA6, 0xE3, 0xA1),
            status_error: Color::Rgb(0xF3, 0x8B, 0xA8),
            status_changes: Color::Rgb(0xCB, 0xA6, 0xF7),
            status_approved: Color::Rgb(0x89, 0xB4, 0xFA),
            header_fg: Color::Rgb(0xF5, 0xC2, 0xE7),
        },
        ThemeKind::Light => Theme {
            kind: ThemeKind::Light,
            bg: Color::Rgb(0xEF, 0xF1, 0xF5),
            fg: Color::Rgb(0x2C, 0x2F, 0x44),
            fg_dim: Color::Rgb(0x6C, 0x6F, 0x85),
            border: Color::Rgb(0xBC, 0xC0, 0xCC),
            border_focus: Color::Rgb(0x1E, 0x66, 0xF5),
            selection_bg: Color::Rgb(0xCC, 0xD0, 0xDA),
            selection_fg: Color::Rgb(0x1F, 0x22, 0x36),
            status_idle: Color::Rgb(0x6C, 0x6F, 0x85),
            status_running: Color::Rgb(0xBE, 0x6A, 0x00),
            status_ok: Color::Rgb(0x2D, 0x80, 0x1F),
            status_error: Color::Rgb(0xC4, 0x0E, 0x33),
            status_changes: Color::Rgb(0x88, 0x39, 0xEF),
            status_approved: Color::Rgb(0x1E, 0x66, 0xF5),
            header_fg: Color::Rgb(0xC8, 0x44, 0xA9),
        },
    }
}

impl Theme {
    pub fn for_kind(kind: ThemeKind) -> (r: Theme)
        ensures
            r == palette(kind),
    {
        match kind {
            ThemeKind::Dark => Theme {
                kind: ThemeKind::Dark,
                bg: Color::Rgb(0x1E, 0x1E, 0x2E),
                fg: Color::Rgb(0xCD, 0xD6, 0xF4),
                fg_dim: Color::Rgb(0x9A, 0xA0, 0xB6),
                border: Color::Rgb(0x45, 0x47, 0x5A),
                border_focus: Color::Rgb(0x89, 0xB4, 0xFA),
                selection_bg: Color::Rgb(0x58, 0x5B, 0x70),
                selection_fg: Color::Rgb(0xF5, 0xF7, 0xFA),
                status_idle: Color::Rgb(0x9A, 0xA0, 0xB6),
                status_running: Color::Rgb(0xF9, 0xE2, 0xAF),
                status_ok: Color::Rgb(0xA6, 0xE3, 0xA1),
                status_error: Color::Rgb(0xF3, 0x8B, 0xA8),
                status_changes: Color::Rgb(0xCB, 0xA6, 0xF7),
                status_approved: Color::Rgb(0x89, 0xB4, 0xFA),
                header_fg: Color::Rgb(0xF5, 0xC2, 0xE7),
            },
            ThemeKind::Light => Theme {
                kind: ThemeKind::Light,
                bg: Color::Rgb(0xEF, 0xF1, 0xF5),
                fg: Color::Rgb(0x2C, 0x2F, 0x44),
                fg_dim: Color::Rgb(0x6C, 0x6F, 0x85),
                border: Color::Rgb(0xBC, 0xC0, 0xCC),
                border_focus: Color::Rgb(0x1E, 0x66, 0xF5),
                selection_bg: Color::Rgb(0xCC, 0xD0, 0xDA),
                selection_fg: Color::Rgb(0x1F, 0x22, 0x36),
                status_idle: Color::Rgb(0x6C, 0x6F, 0x85),
                status_running: Color::Rgb(0xBE, 0x6A, 0x00),
                status_ok: Color::Rgb(0x2D, 0x80, 0x1F),
                status_error: Color::Rgb(0xC4, 0x0E, 0x33),
                status_changes: Color::Rgb(0x88, 0x39, 0xEF),
                status_approved: Color::Rgb(0x1E, 0x66, 0xF5),
                header_fg: Color::Rgb(0xC8, 0x44, 0xA9),
            },
        }
    }
}

impl Default for Theme {
    fn default() -> (r: Theme)
        ensures
            r == palette(ThemeKind::Dark),
    {
        Theme::for_kind(ThemeKind::Dark)
    }
}

} // verus!
