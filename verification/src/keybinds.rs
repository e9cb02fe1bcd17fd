//! User-configurable keybindings.
//!
//! All Normal-mode keys and leader-chord targets resolve through a `KeyMap`
//! at runtime. Defaults are hardcoded here; the global config overlays
//! user-supplied bindings on top via a `[keybinds]` toml table.
//!
//! Wire format is vim-style: `<C-x>` (Ctrl), `<S-x>` (Shift, rarely needed),
//! `<A-x>` (Alt), `<Space>`, `<CR>`/`<Enter>`, `<Tab>`, `<F1>`–`<F12>`,
//! `<Esc>` (rejected). Multi-key chords concatenate: `gt`, `<Space>w`,
//! `<C-w>>`.
//!
//! Reserved sequences the overlay refuses to bind:
//! - `<Esc>` — universal popup cancel.
//! - `<C-q>` — hard quit (short-circuited in `input::map`).
//! - any binding that starts with `<C-\>` other than `leave_terminal`'s
//!   default — remapping the Terminal-mode escape to something a shell
//!   user would type would trap them in Terminal mode.

use crate::event::{no_mods, KeyCode, KeyEvent, KeyModifiers};
use crate::keytable::{as_map, lemma_map_has, names_ascend, pairs, KeybindTable};
use crate::text;
use vstd::prelude::*;

verus! {

/// Every action a key can trigger.
#[derive(Copy, Clone, Debug, PartialEq, Eq, Hash, Structural)]
pub enum BindableAction {
    FocusSidebar,
    FocusTerminal,
    SidebarUp,
    SidebarDown,
    ActivateSelection,
    OpenTab,
    CloseTab,
    EnterTerminalMode,
    EnterCommandMode,
    NextTab,
    PrevTab,
    SidebarGrow,
    SidebarShrink,
    SidebarReset,
    OpenProjectPopup,
    NewWorktree,
    RemoveWorktree,
    EditProject,
    LaunchPicker,
    UsagePopup,
    HelpPopup,
    CommandPalette,
    Quit,
    LeaveTerminal,
}

#[derive(Copy, Clone, Debug, PartialEq, Eq, Structural)]
pub enum Scope {
    Normal,
    Terminal,
}

/// Every action, in the order of the help page.
pub const ALL: [BindableAction; 24] = [
    BindableAction::FocusSidebar,
    BindableAction::FocusTerminal,
    BindableAction::SidebarUp,
    BindableAction::SidebarDown,
    BindableAction::ActivateSelection,
    BindableAction::OpenTab,
    BindableAction::CloseTab,
    BindableAction::EnterTerminalMode,
    BindableAction::EnterCommandMode,
    BindableAction::NextTab,
    BindableAction::PrevTab,
    BindableAction::SidebarGrow,
    BindableAction::SidebarShrink,
    BindableAction::SidebarReset,
    BindableAction::OpenProjectPopup,
    BindableAction::NewWorktree,
    BindableAction::RemoveWorktree,
    BindableAction::EditProject,
    BindableAction::LaunchPicker,
    BindableAction::UsagePopup,
    BindableAction::HelpPopup,
    BindableAction::CommandPalette,
    BindableAction::Quit,
    BindableAction::LeaveTerminal,
];

impl BindableAction {
    /// Where the action stands in `ALL`.
    pub open spec fn position(self) -> int {
        match self {
            BindableAction::FocusSidebar => 0,
            BindableAction::FocusTerminal => 1,
            BindableAction::SidebarUp => 2,
            BindableAction::SidebarDown => 3,
            BindableAction::ActivateSelection => 4,
            BindableAction::OpenTab => 5,
            BindableAction::CloseTab => 6,
            BindableAction::EnterTerminalMode => 7,
            BindableAction::EnterCommandMode => 8,
            BindableAction::NextTab => 9,
            BindableAction::PrevTab => 10,
            BindableAction::SidebarGrow => 11,
            BindableAction::SidebarShrink => 12,
            BindableAction::SidebarReset => 13,
            BindableAction::OpenProjectPopup => 14,
            BindableAction::NewWorktree => 15,
            BindableAction::RemoveWorktree => 16,
            BindableAction::EditProject => 17,
            BindableAction::LaunchPicker => 18,
            BindableAction::UsagePopup => 19,
            BindableAction::HelpPopup => 20,
            BindableAction::CommandPalette => 21,
            BindableAction::Quit => 22,
            BindableAction::LeaveTerminal => 23,
        }
    }

    /// The name the action has in the config.
    pub open spec fn text(self) -> Seq<char> {
        match self {
            BindableAction::FocusSidebar => "focus_sidebar"@,
            BindableAction::FocusTerminal => "focus_terminal"@,
            BindableAction::SidebarUp => "sidebar_up"@,
            BindableAction::SidebarDown => "sidebar_down"@,
            BindableAction::ActivateSelection => "activate_selection"@,
            BindableAction::OpenTab => "open_tab"@,
            BindableAction::CloseTab => "close_tab"@,
            BindableAction::EnterTerminalMode => "enter_terminal_mode"@,
            BindableAction::EnterCommandMode => "enter_command_mode"@,
            BindableAction::NextTab => "next_tab"@,
            BindableAction::PrevTab => "prev_tab"@,
            BindableAction::SidebarGrow => "sidebar_grow"@,
            BindableAction::SidebarShrink => "sidebar_shrink"@,
            BindableAction::SidebarReset => "sidebar_reset"@,
            BindableAction::OpenProjectPopup => "open_project_popup"@,
            BindableAction::NewWorktree => "new_worktree"@,
            BindableAction::RemoveWorktree => "remove_worktree"@,
            BindableAction::EditProject => "edit_project"@,
            BindableAction::LaunchPicker => "launch_picker"@,
            BindableAction::UsagePopup => "usage_popup"@,
            BindableAction::HelpPopup => "help_popup"@,
            BindableAction::CommandPalette => "command_palette"@,
            BindableAction::Quit => "quit"@,
            BindableAction::LeaveTerminal => "leave_terminal"@,
        }
    }

    /// What the action does, in words.
    pub open spec fn meaning(self) -> Seq<char> {
        match self {
            BindableAction::FocusSidebar => "focus the sidebar"@,
            BindableAction::FocusTerminal => "focus the terminal pane"@,
            BindableAction::SidebarUp => "previous sidebar row"@,
            BindableAction::SidebarDown => "next sidebar row"@,
            BindableAction::ActivateSelection => "activate selected project / worktree"@,
            BindableAction::OpenTab => "open a new tab in the active worktree"@,
            BindableAction::CloseTab => "close the current tab"@,
            BindableAction::EnterTerminalMode => "switch to Terminal mode"@,
            BindableAction::EnterCommandMode => "open the :ex command line"@,
            BindableAction::NextTab => "next tab"@,
            BindableAction::PrevTab => "previous tab"@,
            BindableAction::SidebarGrow => "grow the sidebar"@,
            BindableAction::SidebarShrink => "shrink the sidebar"@,
            BindableAction::SidebarReset => "reset sidebar width"@,
            BindableAction::OpenProjectPopup => "open project popup"@,
            BindableAction::NewWorktree => "new worktree"@,
            BindableAction::RemoveWorktree => "remove worktree"@,
            BindableAction::EditProject => "edit project setup script"@,
            BindableAction::LaunchPicker => "launcher picker"@,
            BindableAction::UsagePopup => "resource usage"@,
            BindableAction::HelpPopup => "help"@,
            BindableAction::CommandPalette => "command palette"@,
            BindableAction::Quit => "quit imbuia"@,
            BindableAction::LeaveTerminal => "leave Terminal mode"@,
        }
    }

    /// The mode the action's keys belong to.
    pub open spec fn home(self) -> Scope {
        match self {
            BindableAction::LeaveTerminal => Scope::Terminal,
            _ => Scope::Normal,
        }
    }

    /// Stable snake_case name for the config toml.
    pub fn name(self) -> (r: &'static str)
        ensures
            r@ == self.text(),
    {
        match self {
            BindableAction::FocusSidebar => "focus_sidebar",
            BindableAction::FocusTerminal => "focus_terminal",
            BindableAction::SidebarUp => "sidebar_up",
            BindableAction::SidebarDown => "sidebar_down",
            BindableAction::ActivateSelection => "activate_selection",
            BindableAction::OpenTab => "open_tab",
            BindableAction::CloseTab => "close_tab",
            BindableAction::EnterTerminalMode => "enter_terminal_mode",
            BindableAction::EnterCommandMode => "enter_command_mode",
            BindableAction::NextTab => "next_tab",
            BindableAction::PrevTab => "prev_tab",
            BindableAction::SidebarGrow => "sidebar_grow",
            BindableAction::SidebarShrink => "sidebar_shrink",
            BindableAction::SidebarReset => "sidebar_reset",
            BindableAction::OpenProjectPopup => "open_project_popup",
            BindableAction::NewWorktree => "new_worktree",
            BindableAction::RemoveWorktree => "remove_worktree",
            BindableAction::EditProject => "edit_project",
            BindableAction::LaunchPicker => "launch_picker",
            BindableAction::UsagePopup => "usage_popup",
            BindableAction::HelpPopup => "help_popup",
            BindableAction::CommandPalette => "command_palette",
            BindableAction::Quit => "quit",
            BindableAction::LeaveTerminal => "leave_terminal",
        }
    }

    /// The action of that name.
    pub fn from_name(s: &str) -> (r: Option<BindableAction>)
        ensures
            r == action_named(s@),
    {
        let mut i: usize = 0;
        while i < ALL.len()
            invariant
                i <= ALL.len(),
                forall|j: int| 0 <= j < i ==> #[trigger] ALL[j].text() != s@,
            decreases ALL.len() - i,
        {
            if text::same(ALL[i].name(), s) {
                proof {
                    let found = action_named(s@)->Some_0;
                    assert(ALL[i as int].text() == s@);
                    law_names_tell_actions_apart(found, ALL[i as int]);
                }
                return Some(ALL[i]);
            }
            i += 1;
        }
        assert forall|a: BindableAction| #[trigger] a.text() != s@ by {
            lemma_all_holds(a);
            assert(ALL[a.position()].text() != s@);
        }
        None
    }

    pub fn description(self) -> (r: &'static str)
        ensures
            r@ == self.meaning(),
    {
        match self {
            BindableAction::FocusSidebar => "focus the sidebar",
            BindableAction::FocusTerminal => "focus the terminal pane",
            BindableAction::SidebarUp => "previous sidebar row",
            BindableAction::SidebarDown => "next sidebar row",
            BindableAction::ActivateSelection => "activate selected project / worktree",
            BindableAction::OpenTab => "open a new tab in the active worktree",
            BindableAction::CloseTab => "close the current tab",
            BindableAction::EnterTerminalMode => "switch to Terminal mode",
            BindableAction::EnterCommandMode => "open the :ex command line",
            BindableAction::NextTab => "next tab",
            BindableAction::PrevTab => "previous tab",
            BindableAction::SidebarGrow => "grow the sidebar",
            BindableAction::SidebarShrink => "shrink the sidebar",
            BindableAction::SidebarReset => "reset sidebar width",
            BindableAction::OpenProjectPopup => "open project popup",
            BindableAction::NewWorktree => "new worktree",
            BindableAction::RemoveWorktree => "remove worktree",
            BindableAction::EditProject => "edit project setup script",
            BindableAction::LaunchPicker => "launcher picker",
            BindableAction::UsagePopup => "resource usage",
            BindableAction::HelpPopup => "help",
            BindableAction::CommandPalette => "command palette",
            BindableAction::Quit => "quit imbuia",
            BindableAction::LeaveTerminal => "leave Terminal mode",
        }
    }

    pub fn scope(self) -> (r: Scope)
        ensures
            r == self.home(),
    {
        match self {
            BindableAction::LeaveTerminal => Scope::Terminal,
            _ => Scope::Normal,
        }
    }
}

/// The action of that name.
pub open spec fn action_named(s: Seq<char>) -> Option<BindableAction> {
    if exists|a: BindableAction| #[trigger] a.text() == s {
        Some(choose|a: BindableAction| #[trigger] a.text() == s)
    } else {
        None
    }
}

/// An action's name leads back to the action.
pub proof fn law_action_names_round_trip(a: BindableAction)
    ensures
        action_named(a.text()) == Some(a),
{
    law_names_tell_actions_apart(a, action_named(a.text())->Some_0);
}

proof fn lemma_all_holds(a: BindableAction)
    ensures
        0 <= a.position() < ALL.len(),
        ALL[a.position()] == a,
{
}

/// No two actions share a name.
pub proof fn law_names_tell_actions_apart(a: BindableAction, b: BindableAction)
    requires
        a.text() == b.text(),
    ensures
        a == b,
{
    reveal_strlit("focus_sidebar");
    reveal_strlit("focus_terminal");
    reveal_strlit("sidebar_up");
    reveal_strlit("sidebar_down");
    reveal_strlit("activate_selection");
    reveal_strlit("open_tab");
    reveal_strlit("close_tab");
    reveal_strlit("enter_terminal_mode");
    reveal_strlit("enter_command_mode");
    reveal_strlit("next_tab");
    reveal_strlit("prev_tab");
    reveal_strlit("sidebar_grow");
    reveal_strlit("sidebar_shrink");
    reveal_strlit("sidebar_reset");
    reveal_strlit("open_project_popup");
    reveal_strlit("new_worktree");
    reveal_strlit("remove_worktree");
    reveal_strlit("edit_project");
    reveal_strlit("launch_picker");
    reveal_strlit("usage_popup");
    reveal_strlit("help_popup");
    reveal_strlit("command_palette");
    reveal_strlit("quit");
    reveal_strlit("leave_terminal");
    assert("focus_sidebar"@.len() == 13);
    assert("focus_sidebar"@[0] == 'f');
    assert("sidebar_reset"@.len() == 13);
    assert("sidebar_reset"@[0] == 's');
    assert("launch_picker"@.len() == 13);
    assert("launch_picker"@[0] == 'l');
    assert("focus_terminal"@.len() == 14);
    assert("focus_terminal"@[0] == 'f');
    assert("sidebar_shrink"@.len() == 14);
    assert("sidebar_shrink"@[0] == 's');
    assert("leave_terminal"@.len() == 14);
    assert("leave_terminal"@[0] == 'l');
    assert("sidebar_up"@.len() == 10);
    assert("sidebar_up"@[0] == 's');
    assert("help_popup"@.len() == 10);
    assert("help_popup"@[0] == 'h');
    assert("sidebar_down"@.len() == 12);
    assert("sidebar_down"@[0] == 's');
    assert("sidebar_down"@[8] == 'd');
    assert("sidebar_grow"@.len() == 12);
    assert("sidebar_grow"@[0] == 's');
    assert("sidebar_grow"@[8] == 'g');
    assert("new_worktree"@.len() == 12);
    assert("new_worktree"@[0] == 'n');
    assert("new_worktree"@[8] == 't');
    assert("edit_project"@.len() == 12);
    assert("edit_project"@[0] == 'e');
    assert("edit_project"@[8] == 'j');
    assert("activate_selection"@.len() == 18);
    assert("activate_selection"@[0] == 'a');
    assert("enter_command_mode"@.len() == 18);
    assert("enter_command_mode"@[0] == 'e');
    assert("open_project_popup"@.len() == 18);
    assert("open_project_popup"@[0] == 'o');
    assert("open_tab"@.len() == 8);
    assert("open_tab"@[0] == 'o');
    assert("next_tab"@.len() == 8);
    assert("next_tab"@[0] == 'n');
    assert("prev_tab"@.len() == 8);
    assert("prev_tab"@[0] == 'p');
    assert("close_tab"@.len() == 9);
    assert("enter_terminal_mode"@.len() == 19);
    assert("remove_worktree"@.len() == 15);
    assert("remove_worktree"@[0] == 'r');
    assert("command_palette"@.len() == 15);
    assert("command_palette"@[0] == 'c');
    assert("usage_popup"@.len() == 11);
    assert("quit"@.len() == 4);
    assert(a.text().len() == b.text().len());
    assert(a.text()[0] == b.text()[0]);
    assert(a.text()[8] == b.text()[8]);
}

/// One keystroke = modifiers + keycode. Equality ignores irrelevant flags the
/// terminal may set (see `canonical`).
#[derive(Copy, Clone, Debug, PartialEq, Eq, Hash, Structural)]
pub struct Chord {
    pub mods: KeyModifiers,
    pub code: KeyCode,
}

/// Whether `c` is an ASCII letter.
pub open spec fn is_letter(c: char) -> bool {
    ('a' <= c && c <= 'z') || ('A' <= c && c <= 'Z')
}

/// The keystroke that equivalent keystrokes are compared as: only Control,
/// Shift and Alt count; Control with a letter drops Shift and the letter's case;
/// a capital letter drops Shift.
pub open spec fn canonical_of(m: KeyModifiers, code: KeyCode) -> Chord {
    let mods = KeyModifiers { control: m.control, shift: m.shift, alt: m.alt, ..no_mods() };
    match code {
        KeyCode::Char(c) => if is_letter(c) && m.control {
            Chord {
                mods: KeyModifiers { shift: false, ..mods },
                code: KeyCode::Char(text::lower_char(c)),
            }
        } else if 'A' <= c && c <= 'Z' {
            Chord { mods: KeyModifiers { shift: false, ..mods }, code }
        } else {
            Chord { mods, code }
        },
        _ => Chord { mods, code },
    }
}

/// Canonicalise a `(mods, code)` pair so equivalent keystrokes compare equal
/// regardless of how the active keyboard protocol reports them.
///
/// Two normalisations, both needed because the reporting depends on whether the
/// kitty keyboard protocol is active:
///
/// 1. **Ctrl + letter is case- and Shift-insensitive.** Every terminal
///    collapses Ctrl+n, Ctrl+N and Ctrl+Shift+n to the same control byte
///    (`0x0E`); under the kitty protocol they are reported distinctly. Fold the
///    letter to lowercase and drop Shift so the `<C-\><C-n>`-style chords keep
///    matching. (Alt is left alone — `M-n` vs `M-N` are traditionally distinct.)
/// 2. **Uppercase letter without Ctrl implies Shift.** `Shift+A` and `A` both
///    mean the `A` binding, so drop a redundant Shift there too. Lowercase vs
///    uppercase letters *without* Ctrl stay distinct (vim `g` vs `G`).
fn canonical(m: KeyModifiers, code: KeyCode) -> (r: Chord)
    ensures
        r == canonical_of(m, code),
{
    let mods = KeyModifiers {
        control: m.control,
        shift: m.shift,
        alt: m.alt,
        ..KeyModifiers::none()
    };
    if let KeyCode::Char(c) = code {
        let upper = 'A' <= c && c <= 'Z';
        let letter = upper || ('a' <= c && c <= 'z');
        if letter && mods.control {
            return Chord {
                mods: KeyModifiers { shift: false, ..mods },
                code: KeyCode::Char(text::to_lower(c)),
            };
        }
        if upper {
            return Chord { mods: KeyModifiers { shift: false, ..mods }, code };
        }
    }
    Chord { mods, code }
}

impl Chord {
    pub fn from_event(k: &KeyEvent) -> (r: Chord)
        ensures
            r == canonical_of(k.modifiers, k.code),
    {
        canonical(k.modifiers, k.code)
    }

    /// Whether the chord is the one its keystroke is compared as.
    pub open spec fn is_canonical(self) -> bool {
        canonical_of(self.mods, self.code) == self
    }
}

/// Making a keystroke canonical twice is making it so once.
pub proof fn law_canonical_is_idempotent(m: KeyModifiers, code: KeyCode)
    ensures
        canonical_of(m, code).is_canonical(),
{
}

/// Control with a letter matches however the terminal reports Shift and case.
pub proof fn law_control_letter_ignores_shift_and_case(m: KeyModifiers, c: char, shift: bool)
    requires
        is_letter(c),
        m.control,
    ensures
        canonical_of(m, KeyCode::Char(c)) == canonical_of(
            KeyModifiers { shift, ..m },
            KeyCode::Char(text::lower_char(c)),
        ),
{
}

/// 1–4 chords. Anything longer is rejected at parse time.
#[derive(Clone, Debug, PartialEq, Eq, Hash)]
pub struct Binding(pub Vec<Chord>);

impl View for Binding {
    type V = Seq<Chord>;

    open spec fn view(&self) -> Seq<Chord> {
        self.0@
    }
}

/// Whether `b` begins with `prefix`.
pub open spec fn begins(b: Seq<Chord>, prefix: Seq<Chord>) -> bool {
    prefix.len() <= b.len() && b.take(prefix.len() as int) == prefix
}

impl Binding {
    pub fn starts_with(&self, prefix: &[Chord]) -> (r: bool)
        ensures
            r == begins(self@, prefix@),
    {
        if self.0.len() < prefix.len() {
            return false;
        }
        let mut i: usize = 0;
        while i < prefix.len()
            invariant
                i <= prefix.len() <= self.0.len(),
                forall|j: int| 0 <= j < i ==> self.0[j] == prefix[j],
            decreases prefix.len() - i,
        {
            if self.0[i] != prefix[i] {
                assert(self@.take(prefix@.len() as int)[i as int] != prefix@[i as int]);
                return false;
            }
            i += 1;
        }
        assert(self@.take(prefix@.len() as int) =~= prefix@);
        true
    }

    /// A copy.
    pub fn copy(&self) -> (r: Binding)
        ensures
            r@ == self@,
    {
        let mut v: Vec<Chord> = Vec::new();
        let mut i: usize = 0;
        while i < self.0.len()
            invariant
                i <= self.0.len(),
                v@ == self@.take(i as int),
            decreases self.0.len() - i,
        {
            v.push(self.0[i]);
            i += 1;
        }
        assert(self@.take(self@.len() as int) =~= self@);
        Binding(v)
    }
}

/// A scope's table: bindings with their actions.
pub type Table = Seq<(Seq<Chord>, BindableAction)>;

/// The table held in a list.
pub open spec fn table_of(v: Seq<(Binding, BindableAction)>) -> Table {
    Seq::new(v.len(), |i: int| (v[i].0@, v[i].1))
}

/// Resolved keymap. Each scope owns its `(Binding, Action)` table.
#[derive(Clone, Debug)]
pub struct KeyMap {
    pub normal: Vec<(Binding, BindableAction)>,
    pub terminal: Vec<(Binding, BindableAction)>,
}

impl KeyMap {
    /// The table of a scope.
    pub open spec fn table(self, scope: Scope) -> Table {
        match scope {
            Scope::Normal => table_of(self.normal@),
            Scope::Terminal => table_of(self.terminal@),
        }
    }
}

#[derive(Copy, Clone, Debug, PartialEq, Eq)]
pub enum MatchResult<'a> {
    /// Sequence matched a binding exactly — fire this action.
    Exact(BindableAction),
    /// Sequence is a strict prefix of one or more bindings — keep waiting.
    Prefix(&'a [(Binding, BindableAction)]),
    /// No match and no prefix.
    NoMatch,
}

/// What a key sequence means: an action, the start of one, or nothing.
pub enum Meaning {
    Exact(BindableAction),
    Prefix,
    Nothing,
}

impl<'a> MatchResult<'a> {
    pub open spec fn meaning(self) -> Meaning {
        match self {
            MatchResult::Exact(a) => Meaning::Exact(a),
            MatchResult::Prefix(_) => Meaning::Prefix,
            MatchResult::NoMatch => Meaning::Nothing,
        }
    }
}

/// The action of the first binding in `t` that is exactly `seq`.
pub open spec fn first_exact(t: Table, seq: Seq<Chord>) -> Option<BindableAction>
    decreases t.len(),
{
    if t.len() == 0 {
        None
    } else if t[0].0 == seq {
        Some(t[0].1)
    } else {
        first_exact(t.skip(1), seq)
    }
}

/// Whether some binding in `t` begins with `seq` and goes on.
pub open spec fn goes_on(t: Table, seq: Seq<Chord>) -> bool {
    exists|i: int|
        0 <= i < t.len() && (#[trigger] t[i]).0.len() > seq.len() && begins(t[i].0, seq)
}

/// What `seq` means in `t`: an exact binding wins over a longer one, and the
/// empty sequence means nothing.
pub open spec fn meaning_in(t: Table, seq: Seq<Chord>) -> Meaning {
    if seq.len() == 0 {
        Meaning::Nothing
    } else {
        match first_exact(t, seq) {
            Some(a) => Meaning::Exact(a),
            None => if goes_on(t, seq) {
                Meaning::Prefix
            } else {
                Meaning::Nothing
            },
        }
    }
}

/// The first binding of `action` in `t`.
pub open spec fn first_binding(t: Table, action: BindableAction) -> Option<Seq<Chord>>
    decreases t.len(),
{
    if t.len() == 0 {
        None
    } else if t[0].1 == action {
        Some(t[0].0)
    } else {
        first_binding(t.skip(1), action)
    }
}

/// The bindings in `t` whose first chord is `head`, in order.
pub open spec fn under(t: Table, head: Chord) -> Table
    decreases t.len(),
{
    if t.len() == 0 {
        t
    } else {
        let front = under(t.drop_last(), head);
        if t.last().0.len() > 0 && t.last().0[0] == head {
            front.push(t.last())
        } else {
            front
        }
    }
}

/// A sequence and the same sequence held elsewhere.
fn same_chords(a: &Vec<Chord>, b: &[Chord]) -> (r: bool)
    ensures
        r == (a@ == b@),
{
    if a.len() != b.len() {
        return false;
    }
    let mut i: usize = 0;
    while i < a.len()
        invariant
            i <= a.len() == b.len(),
            forall|j: int| 0 <= j < i ==> a[j] == b[j],
        decreases a.len() - i,
    {
        if a[i] != b[i] {
            return false;
        }
        i += 1;
    }
    assert(a@ =~= b@);
    true
}

impl KeyMap {
    /// What the key sequence `seq` means in `scope`. Where it is the start of
    /// longer bindings, the scope's table comes with the answer.
    pub fn lookup(&self, scope: Scope, seq: &[Chord]) -> (r: MatchResult<'_>)
        ensures
            r.meaning() == meaning_in(self.table(scope), seq@),
            match r {
                MatchResult::Prefix(s) => table_of(s@) == self.table(scope),
                _ => true,
            },
    {
        let table = match scope {
            Scope::Normal => &self.normal,
            Scope::Terminal => &self.terminal,
        };
        let ghost t = self.table(scope);
        if seq.len() == 0 {
            return MatchResult::NoMatch;
        }
        let mut i: usize = 0;
        assert(t.skip(0) =~= t);
        while i < table.len()
            invariant
                i <= table.len(),
                t == table_of(table@),
                t == self.table(scope),
                seq@.len() > 0,
                first_exact(t, seq@) == first_exact(t.skip(i as int), seq@),
            decreases table.len() - i,
        {
            assert(t.skip(i as int)[0] == t[i as int]);
            if same_chords(&table[i].0.0, seq) {
                return MatchResult::Exact(table[i].1);
            }
            assert(t.skip(i as int).skip(1) =~= t.skip(i + 1));
            i += 1;
        }
        assert(first_exact(t, seq@) is None);
        let mut j: usize = 0;
        while j < table.len()
            invariant
                j <= table.len(),
                t == table_of(table@),
                t == self.table(scope),
                seq@.len() > 0,
                first_exact(t, seq@) is None,
                forall|k: int|
                    0 <= k < j ==> !((#[trigger] t[k]).0.len() > seq@.len() && begins(
                        t[k].0,
                        seq@,
                    )),
            decreases table.len() - j,
        {
            if table[j].0.0.len() > seq.len() && table[j].0.starts_with(seq) {
                assert(t[j as int].0.len() > seq@.len() && begins(t[j as int].0, seq@));
                assert(goes_on(t, seq@));
                return MatchResult::Prefix(table.as_slice());
            }
            assert(t[j as int] == (table[j as int].0@, table[j as int].1));
            j += 1;
        }
        MatchResult::NoMatch
    }

    /// Every binding in the given scope whose first chord equals `head`.
    /// Used by the which-key hint and `:help`.
    pub fn bindings_starting_with(&self, scope: Scope, head: &Chord) -> (r: Vec<
        (Binding, BindableAction),
    >)
        ensures
            table_of(r@) == under(self.table(scope), *head),
    {
        let table = match scope {
            Scope::Normal => &self.normal,
            Scope::Terminal => &self.terminal,
        };
        let ghost t = self.table(scope);
        let mut out: Vec<(Binding, BindableAction)> = Vec::new();
        let mut i: usize = 0;
        assert(table_of(out@) =~= t.take(0));
        while i < table.len()
            invariant
                i <= table.len(),
                t == table_of(table@),
                table_of(out@) == under(t.take(i as int), *head),
            decreases table.len() - i,
        {
            let ghost before = out@;
            assert(t.take(i + 1).drop_last() =~= t.take(i as int));
            assert(t.take(i + 1).last() == t[i as int]);
            if table[i].0.0.len() > 0 && table[i].0.0[0] == *head {
                out.push((table[i].0.copy(), table[i].1));
                assert(table_of(out@) =~= table_of(before).push(t[i as int]));
            }
            i += 1;
        }
        assert(t.take(t.len() as int) =~= t);
        out
    }

    /// First binding registered for `action`, formatted for display.
    pub fn binding_for(&self, action: BindableAction) -> (r: Option<String>)
        ensures
            text::opt_text(r) == shown_binding(self.table(action.home()), action),
    {
        let table = match action.scope() {
            Scope::Normal => &self.normal,
            Scope::Terminal => &self.terminal,
        };
        let ghost t = self.table(action.home());
        let mut i: usize = 0;
        assert(t.skip(0) =~= t);
        while i < table.len()
            invariant
                i <= table.len(),
                t == table_of(table@),
                t == self.table(action.home()),
                first_binding(t, action) == first_binding(t.skip(i as int), action),
            decreases table.len() - i,
        {
            assert(t.skip(i as int)[0] == t[i as int]);
            if table[i].1 == action {
                return Some(format_binding(&table[i].0));
            }
            assert(t.skip(i as int).skip(1) =~= t.skip(i + 1));
            i += 1;
        }
        None
    }
}

/// How the first binding of `action` in `t` is shown.
pub open spec fn shown_binding(t: Table, action: BindableAction) -> Option<Seq<char>> {
    match first_binding(t, action) {
        Some(b) => Some(written(b)),
        None => None,
    }
}

// ---------------------------------------------------------------------------
// Writing bindings
// ---------------------------------------------------------------------------

/// The name of a key inside brackets.
pub open spec fn key_word(code: KeyCode) -> Seq<char> {
    match code {
        KeyCode::Char(ch) => if ch == ' ' {
            "Space"@
        } else if ch == '<' {
            "lt"@
        } else if ch == '>' {
            "gt"@
        } else {
            seq![ch]
        },
        KeyCode::Enter => "CR"@,
        KeyCode::Tab => "Tab"@,
        KeyCode::Esc => "Esc"@,
        KeyCode::Backspace => "BS"@,
        KeyCode::Up => "Up"@,
        KeyCode::Down => "Down"@,
        KeyCode::Left => "Left"@,
        KeyCode::Right => "Right"@,
        KeyCode::Home => "Home"@,
        KeyCode::End => "End"@,
        KeyCode::PageUp => "PageUp"@,
        KeyCode::PageDown => "PageDown"@,
        KeyCode::F(n) => seq!['F'] + text::decimal(n as nat),
        _ => seq!['?'],
    }
}

/// The modifiers in front of a key's name.
pub open spec fn mod_words(m: KeyModifiers) -> Seq<char> {
    (if m.control {
        seq!['C', '-']
    } else {
        seq![]
    }) + (if m.shift {
        seq!['S', '-']
    } else {
        seq![]
    }) + (if m.alt {
        seq!['A', '-']
    } else {
        seq![]
    })
}

/// Whether a chord is written as its bare character. A `<` is one only at the end
/// of a binding: elsewhere it would open a token.
pub open spec fn is_bare(c: Chord, last: bool) -> bool {
    &&& c.mods == no_mods()
    &&& c.code is Char
    &&& c.code != KeyCode::Char(' ')
    &&& c.code == KeyCode::Char('<') ==> last
}

/// A chord in vim style; `last` says whether it ends its binding.
pub open spec fn written_chord(c: Chord, last: bool) -> Seq<char> {
    if is_bare(c, last) {
        seq![c.code->Char_0]
    } else {
        seq!['<'] + (mod_words(c.mods) + key_word(c.code)) + seq!['>']
    }
}

/// Chords in vim style, with more to come behind them.
pub open spec fn written_front(b: Seq<Chord>) -> Seq<char>
    decreases b.len(),
{
    if b.len() == 0 {
        seq![]
    } else {
        written_front(b.drop_last()) + written_chord(b.last(), false)
    }
}

/// A binding in vim style.
pub open spec fn written(b: Seq<Chord>) -> Seq<char> {
    if b.len() == 0 {
        seq![]
    } else {
        written_front(b.drop_last()) + written_chord(b.last(), true)
    }
}

/// Format a binding back into vim-style. Round-trips with `parse`.
pub fn format_binding(b: &Binding) -> (r: String)
    ensures
        r@ == written(b@),
{
    let mut out: String = String::new();
    if b.0.len() == 0 {
        return out;
    }
    let mut i: usize = 0;
    while i < b.0.len() - 1
        invariant
            i < b.0.len(),
            out@ == written_front(b@.take(i as int)),
        decreases b.0.len() - i,
    {
        assert(b@.take(i + 1).drop_last() =~= b@.take(i as int));
        format_chord(&b.0[i], false, &mut out);
        i += 1;
    }
    assert(b@.take(i as int) =~= b@.drop_last());
    format_chord(&b.0[i], true, &mut out);
    out
}

fn push_mods(m: KeyModifiers, out: &mut String)
    ensures
        final(out)@ == old(out)@ + mod_words(m),
{
    if m.control {
        out.push('C');
        out.push('-');
    }
    if m.shift {
        out.push('S');
        out.push('-');
    }
    if m.alt {
        out.push('A');
        out.push('-');
    }
    assert(out@ =~= old(out)@ + mod_words(m));
}

/// The name of a key inside brackets.
fn key_name(code: KeyCode) -> (r: String)
    ensures
        r@ == key_word(code),
{
    let mut out: String = String::new();
    match code {
        KeyCode::Char(ch) => {
            if ch == ' ' {
                return text::owned("Space");
            }
            if ch == '<' {
                return text::owned("lt");
            }
            if ch == '>' {
                return text::owned("gt");
            }
            out.push(ch);
        },
        KeyCode::Enter => return text::owned("CR"),
        KeyCode::Tab => return text::owned("Tab"),
        KeyCode::Esc => return text::owned("Esc"),
        KeyCode::Backspace => return text::owned("BS"),
        KeyCode::Up => return text::owned("Up"),
        KeyCode::Down => return text::owned("Down"),
        KeyCode::Left => return text::owned("Left"),
        KeyCode::Right => return text::owned("Right"),
        KeyCode::Home => return text::owned("Home"),
        KeyCode::End => return text::owned("End"),
        KeyCode::PageUp => return text::owned("PageUp"),
        KeyCode::PageDown => return text::owned("PageDown"),
        KeyCode::F(n) => {
            out.push('F');
            out.push_str(text::to_decimal(n as u64).as_str());
        },
        _ => out.push('?'),
    }
    assert(out@ =~= key_word(code));
    out
}

fn format_chord(c: &Chord, last: bool, out: &mut String)
    ensures
        final(out)@ == old(out)@ + written_chord(*c, last),
{
    if let KeyCode::Char(ch) = c.code {
        if c.mods == KeyModifiers::none() && ch != ' ' && (ch != '<' || last) {
            out.push(ch);
            assert(out@ =~= old(out)@ + written_chord(*c, last));
            return;
        }
    }
    out.push('<');
    push_mods(c.mods, out);
    out.push_str(key_name(c.code).as_str());
    out.push('>');
    assert(out@ =~= old(out)@ + written_chord(*c, last));
}

// ---------------------------------------------------------------------------
// Reading bindings
// ---------------------------------------------------------------------------

/// Why a binding was refused.
#[derive(Clone, Debug, PartialEq, Eq)]
pub enum BindingError {
    /// A `<` without its `>`.
    Unclosed,
    /// The text between brackets names no key.
    UnknownToken(String),
    /// Nothing to bind.
    Empty,
    /// So many chords; at most four are allowed.
    TooLong(usize),
}

/// The key that a small-letter word names.
pub open spec fn word_key(s: Seq<char>) -> Option<KeyCode> {
    if s == "space"@ {
        Some(KeyCode::Char(' '))
    } else if s == "cr"@ || s == "enter"@ || s == "return"@ {
        Some(KeyCode::Enter)
    } else if s == "tab"@ {
        Some(KeyCode::Tab)
    } else if s == "bs"@ || s == "backspace"@ {
        Some(KeyCode::Backspace)
    } else if s == "esc"@ || s == "escape"@ {
        Some(KeyCode::Esc)
    } else if s == "up"@ {
        Some(KeyCode::Up)
    } else if s == "down"@ {
        Some(KeyCode::Down)
    } else if s == "left"@ {
        Some(KeyCode::Left)
    } else if s == "right"@ {
        Some(KeyCode::Right)
    } else if s == "home"@ {
        Some(KeyCode::Home)
    } else if s == "end"@ {
        Some(KeyCode::End)
    } else if s == "pageup"@ || s == "pgup"@ {
        Some(KeyCode::PageUp)
    } else if s == "pagedown"@ || s == "pgdn"@ {
        Some(KeyCode::PageDown)
    } else if s == "lt"@ {
        Some(KeyCode::Char('<'))
    } else if s == "gt"@ {
        Some(KeyCode::Char('>'))
    } else if s == "bslash"@ || s == "bs2"@ {
        Some(KeyCode::Char('\\'))
    } else if s.len() > 0 && s[0] == 'f' {
        match text::parsed(s.skip(1), 255) {
            Some(n) => Some(KeyCode::F(n as u8)),
            None => None,
        }
    } else {
        None
    }
}

/// The key that `s` names, in any case.
pub open spec fn key_named(s: Seq<char>) -> Option<KeyCode> {
    word_key(text::lower_ascii(s))
}

fn named_key(s: &str) -> (r: Option<KeyCode>)
    ensures
        r == key_named(s@),
{
    let lower = text::to_lower_ascii(s);
    let w = lower.as_str();
    if text::same(w, "space") {
        Some(KeyCode::Char(' '))
    } else if text::same(w, "cr") || text::same(w, "enter") || text::same(w, "return") {
        Some(KeyCode::Enter)
    } else if text::same(w, "tab") {
        Some(KeyCode::Tab)
    } else if text::same(w, "bs") || text::same(w, "backspace") {
        Some(KeyCode::Backspace)
    } else if text::same(w, "esc") || text::same(w, "escape") {
        Some(KeyCode::Esc)
    } else if text::same(w, "up") {
        Some(KeyCode::Up)
    } else if text::same(w, "down") {
        Some(KeyCode::Down)
    } else if text::same(w, "left") {
        Some(KeyCode::Left)
    } else if text::same(w, "right") {
        Some(KeyCode::Right)
    } else if text::same(w, "home") {
        Some(KeyCode::Home)
    } else if text::same(w, "end") {
        Some(KeyCode::End)
    } else if text::same(w, "pageup") || text::same(w, "pgup") {
        Some(KeyCode::PageUp)
    } else if text::same(w, "pagedown") || text::same(w, "pgdn") {
        Some(KeyCode::PageDown)
    } else if text::same(w, "lt") {
        Some(KeyCode::Char('<'))
    } else if text::same(w, "gt") {
        Some(KeyCode::Char('>'))
    } else if text::same(w, "bslash") || text::same(w, "bs2") {
        Some(KeyCode::Char('\\'))
    } else {
        let v = text::chars_of(w);
        if v.len() > 0 && v[0] == 'f' {
            let rest = text::string_of(&v, 1, v.len());
            assert(rest@ =~= w@.skip(1));
            match text::parse_number(rest.as_str(), 255) {
                Some(n) => Some(KeyCode::F(n as u8)),
                None => None,
            }
        } else {
            None
        }
    }
}

/// The modifier that `t` starts with: `C-`, `S-`, `A-` or `M-`, in any case.
pub open spec fn leading_mod(t: Seq<char>) -> Option<char> {
    if t.len() >= 2 && t[1] == '-' {
        let c = text::lower_char(t[0]);
        if c == 'c' || c == 's' {
            Some(c)
        } else if c == 'a' || c == 'm' {
            Some('a')
        } else {
            None
        }
    } else {
        None
    }
}

/// `m` with the modifier `c` held too.
pub open spec fn with_mod(m: KeyModifiers, c: char) -> KeyModifiers {
    if c == 'c' {
        KeyModifiers { control: true, ..m }
    } else if c == 's' {
        KeyModifiers { shift: true, ..m }
    } else {
        KeyModifiers { alt: true, ..m }
    }
}

/// The chord of a bracketed token once its modifiers so far are `m`.
pub open spec fn token_chord(t: Seq<char>, m: KeyModifiers) -> Option<Chord>
    decreases t.len(),
{
    match leading_mod(t) {
        Some(c) => token_chord(t.skip(2), with_mod(m, c)),
        None => match key_named(t) {
            Some(code) => Some(canonical_of(m, code)),
            None => if t.len() == 1 {
                Some(canonical_of(m, KeyCode::Char(t[0])))
            } else {
                None
            },
        },
    }
}

fn parse_token(t: &str) -> (r: Option<Chord>)
    ensures
        r == token_chord(t@, no_mods()),
{
    let v = text::chars_of(t);
    let mut mods = KeyModifiers::none();
    let mut i: usize = 0;
    assert(t@.skip(0) =~= t@);
    loop
        invariant_except_break
            token_chord(t@, no_mods()) == token_chord(t@.skip(i as int), mods),
        invariant
            i <= v.len(),
            v@ == t@,
        ensures
            leading_mod(t@.skip(i as int)) is None,
            token_chord(t@, no_mods()) == token_chord(t@.skip(i as int), mods),
        decreases v.len() - i,
    {
        let ghost rest = t@.skip(i as int);
        if v.len() - i < 2 || v[i + 1] != '-' {
            assert(rest.len() >= 2 ==> rest[1] == v[i + 1]);
            break;
        }
        assert(rest[0] == v[i as int] && rest[1] == v[i + 1]);
        let c = text::to_lower(v[i]);
        if c == 'c' {
            mods.control = true;
        } else if c == 's' {
            mods.shift = true;
        } else if c == 'a' || c == 'm' {
            mods.alt = true;
        } else {
            break;
        }
        assert(rest.skip(2) =~= t@.skip(i + 2));
        i += 2;
    }
    let rest = text::string_of(&v, i, v.len());
    assert(rest@ =~= t@.skip(i as int));
    match named_key(rest.as_str()) {
        Some(code) => Some(canonical(mods, code)),
        None => {
            if v.len() - i == 1 {
                assert(rest@[0] == v[i as int]);
                Some(canonical(mods, KeyCode::Char(v[i])))
            } else {
                None
            }
        },
    }
}

/// The chord of a bare character. Shift for a capital is implied by the
/// character itself, so nothing is held.
pub open spec fn char_chord(c: char) -> Chord {
    Chord { mods: no_mods(), code: KeyCode::Char(c) }
}

fn chord_for_char(c: char) -> (r: Chord)
    ensures
        r == char_chord(c),
{
    Chord { mods: KeyModifiers::none(), code: KeyCode::Char(c) }
}

/// What a text reads as: chords, or the first thing wrong with it.
pub enum Reading {
    Chords(Seq<Chord>),
    Unclosed,
    Unknown(Seq<char>),
}

/// `r` with `before` in front.
pub open spec fn after(before: Seq<Chord>, r: Reading) -> Reading {
    match r {
        Reading::Chords(v) => Reading::Chords(before + v),
        _ => r,
    }
}

/// Reads `s` from the left: `<...>` is a token, any other character stands for
/// itself, and so does a `<` at the very end.
pub open spec fn reading(s: Seq<char>) -> Reading
    decreases s.len(),
{
    if s.len() == 0 {
        Reading::Chords(seq![])
    } else if s[0] == '<' {
        let n = text::find_char(s.skip(1), '>') as int;
        if n < s.len() - 1 {
            let token = s.subrange(1, 1 + n);
            match token_chord(token, no_mods()) {
                Some(c) => after(seq![c], reading(s.skip(n + 2))),
                None => Reading::Unknown(token),
            }
        } else if s.len() == 1 {
            Reading::Chords(seq![char_chord('<')])
        } else {
            Reading::Unclosed
        }
    } else {
        after(seq![char_chord(s[0])], reading(s.skip(1)))
    }
}

/// What `parse` answers to a text that reads as `r`.
pub open spec fn answers(out: Result<Binding, BindingError>, r: Reading) -> bool {
    match r {
        Reading::Chords(v) => if v.len() == 0 {
            out == Err::<Binding, BindingError>(BindingError::Empty)
        } else if v.len() > 4 {
            out matches Err(BindingError::TooLong(n)) && n == v.len()
        } else {
            out matches Ok(b) && b@ == v
        },
        Reading::Unclosed => out == Err::<Binding, BindingError>(BindingError::Unclosed),
        Reading::Unknown(t) => out matches Err(BindingError::UnknownToken(u)) && u@ == t,
    }
}

/// Vim-style parser. Returns 1–4 chords.
pub fn parse(s: &str) -> (r: Result<Binding, BindingError>)
    ensures
        answers(r, reading(s@)),
{
    let v = text::chars_of(s);
    let mut chords: Vec<Chord> = Vec::new();
    let mut i: usize = 0;
    assert(s@.skip(0) =~= s@);
    proof {
        lemma_after_nothing(reading(s@));
    }
    while i < v.len()
        invariant
            i <= v.len(),
            v@ == s@,
            reading(s@) == after(chords@, reading(s@.skip(i as int))),
        decreases v.len() - i,
    {
        let ghost rest = s@.skip(i as int);
        let ghost before = chords@;
        assert(rest[0] == v[i as int]);
        if v[i] == '<' {
            let end = text::position_from(&v, i + 1, '>');
            assert(rest.skip(1) =~= s@.skip(i + 1));
            if end < v.len() {
                let token = text::string_of(&v, i + 1, end);
                assert(rest.subrange(1, end - i) =~= token@);
                match parse_token(token.as_str()) {
                    Some(c) => {
                        chords.push(c);
                        proof {
                            assert(rest.skip(end - i + 1) =~= s@.skip(end + 1));
                            lemma_after_after(before, seq![c], reading(s@.skip(end + 1)));
                            assert(before + seq![c] =~= chords@);
                        }
                        i = end + 1;
                    },
                    None => return Err(BindingError::UnknownToken(token)),
                }
            } else if i + 1 != v.len() {
                return Err(BindingError::Unclosed);
            } else {
                chords.push(chord_for_char('<'));
                proof {
                    assert(before + seq![char_chord('<')] =~= chords@);
                    assert(s@.skip(i + 1).len() == 0);
                    assert(chords@ + Seq::<Chord>::empty() =~= chords@);
                }
                i += 1;
            }
        } else {
            chords.push(chord_for_char(v[i]));
            proof {
                assert(rest.skip(1) =~= s@.skip(i + 1));
                lemma_after_after(before, seq![char_chord(rest[0])], reading(s@.skip(i + 1)));
                assert(before + seq![char_chord(rest[0])] =~= chords@);
            }
            i += 1;
        }
    }
    assert(s@.skip(i as int).len() == 0);
    assert(chords@ + Seq::<Chord>::empty() =~= chords@);
    if chords.len() == 0 {
        return Err(BindingError::Empty);
    }
    if chords.len() > 4 {
        return Err(BindingError::TooLong(chords.len()));
    }
    Ok(Binding(chords))
}

proof fn lemma_after_nothing(r: Reading)
    ensures
        after(seq![], r) == r,
{
    if let Reading::Chords(v) = r {
        assert(Seq::<Chord>::empty() + v =~= v);
    }
}

proof fn lemma_after_after(a: Seq<Chord>, b: Seq<Chord>, r: Reading)
    ensures
        after(a, after(b, r)) == after(a + b, r),
{
    if let Reading::Chords(v) = r {
        assert(a + (b + v) =~= (a + b) + v);
    }
}

// ---------------------------------------------------------------------------
// Reading what was written
// ---------------------------------------------------------------------------

/// The keys that the notation has a name for.
pub open spec fn has_word(code: KeyCode) -> bool {
    match code {
        KeyCode::Char(_) => true,
        KeyCode::Enter => true,
        KeyCode::Tab => true,
        KeyCode::Esc => true,
        KeyCode::Backspace => true,
        KeyCode::Up => true,
        KeyCode::Down => true,
        KeyCode::Left => true,
        KeyCode::Right => true,
        KeyCode::Home => true,
        KeyCode::End => true,
        KeyCode::PageUp => true,
        KeyCode::PageDown => true,
        KeyCode::F(_) => true,
        _ => false,
    }
}

/// The chords that can be written and read back: canonical, and of a key with a
/// name.
pub open spec fn writable(c: Chord) -> bool {
    c.is_canonical() && has_word(c.code)
}

proof fn lemma_key_word_is_read(code: KeyCode)
    requires
        has_word(code),
    ensures
        match code {
            KeyCode::Char(ch) => if ch == ' ' || ch == '<' || ch == '>' {
                key_named(key_word(code)) == Some(code)
            } else {
                key_named(key_word(code)) is None && key_word(code).len() == 1
            },
            _ => key_named(key_word(code)) == Some(code),
        },
        leading_mod(key_word(code)) is None,
        forall|i: int| 0 <= i < key_word(code).len() ==> key_word(code)[i] != '>',
        key_word(code).len() > 0,
{
    reveal_strlit("space");
    reveal_strlit("cr");
    reveal_strlit("enter");
    reveal_strlit("return");
    reveal_strlit("tab");
    reveal_strlit("bs");
    reveal_strlit("backspace");
    reveal_strlit("esc");
    reveal_strlit("escape");
    reveal_strlit("up");
    reveal_strlit("down");
    reveal_strlit("left");
    reveal_strlit("right");
    reveal_strlit("home");
    reveal_strlit("end");
    reveal_strlit("pageup");
    reveal_strlit("pgup");
    reveal_strlit("pagedown");
    reveal_strlit("pgdn");
    reveal_strlit("lt");
    reveal_strlit("gt");
    reveal_strlit("bslash");
    reveal_strlit("bs2");
    reveal_strlit("Space");
    reveal_strlit("CR");
    reveal_strlit("Tab");
    reveal_strlit("Esc");
    reveal_strlit("BS");
    reveal_strlit("Up");
    reveal_strlit("Down");
    reveal_strlit("Left");
    reveal_strlit("Right");
    reveal_strlit("Home");
    reveal_strlit("End");
    reveal_strlit("PageUp");
    reveal_strlit("PageDown");
    let w = key_word(code);
    let low = text::lower_ascii(w);
    match code {
        KeyCode::Char(ch) => {
            if ch == ' ' {
                assert(low =~= "space"@);
            } else if ch == '<' || ch == '>' {
                assert(low =~= if ch == '<' {
                    "lt"@
                } else {
                    "gt"@
                });
                assert("cr"@[0] == 'c');
                assert("bs"@[0] == 'b');
                assert("up"@[0] == 'u');
                assert("lt"@[0] == 'l');
                assert("gt"@[0] == 'g');
            } else {
                assert(low.len() == 1);
                assert(low.skip(1).len() == 0);
            }
        },
        KeyCode::Enter => assert(low =~= "cr"@),
        KeyCode::Tab => assert(low =~= "tab"@),
        KeyCode::Esc => assert(low =~= "esc"@),
        KeyCode::Backspace => assert(low =~= "bs"@),
        KeyCode::Up => assert(low =~= "up"@),
        KeyCode::Down => assert(low =~= "down"@),
        KeyCode::Left => assert(low =~= "left"@),
        KeyCode::Right => assert(low =~= "right"@),
        KeyCode::Home => assert(low =~= "home"@),
        KeyCode::End => assert(low =~= "end"@),
        KeyCode::PageUp => assert(low =~= "pageup"@),
        KeyCode::PageDown => assert(low =~= "pagedown"@),
        KeyCode::F(n) => {
            let d = text::decimal(n as nat);
            text::lemma_decimal_reads_back(n as nat);
            text::law_decimal_round_trips(n as nat, 255);
            assert forall|i: int| 0 <= i < d.len() implies text::lower_char(d[i]) == d[i] && d[i]
                != '>' && d[i] != '-' by {
                assert(text::is_digit(d[i]));
            }
            assert(w[1] == d[0]);
            assert(low.skip(1) =~= d);
            assert(low[0] == 'f');
            assert forall|i: int| 0 <= i < w.len() implies w[i] != '>' by {
                if i > 0 {
                    assert(w[i] == d[i - 1]);
                }
            }
        },
        _ => {},
    }
}

proof fn lemma_mod_is_read(first: char, t: Seq<char>, m: KeyModifiers)
    requires
        first == 'C' || first == 'S' || first == 'A',
    ensures
        token_chord(seq![first, '-'] + t, m) == token_chord(
            t,
            with_mod(m, text::lower_char(first)),
        ),
{
    let whole = seq![first, '-'] + t;
    assert(whole.skip(2) =~= t);
    assert(whole[0] == first && whole[1] == '-');
}

#[verifier::spinoff_prover]
#[verifier::rlimit(40)]
proof fn lemma_token_is_read(c: Chord)
    requires
        writable(c),
    ensures
        token_chord(mod_words(c.mods) + key_word(c.code), no_mods()) == Some(c),
        forall|i: int|
            0 <= i < (mod_words(c.mods) + key_word(c.code)).len() ==> (mod_words(c.mods)
                + key_word(c.code))[i] != '>',
{
    lemma_key_word_is_read(c.code);
    let w = key_word(c.code);
    let none = Seq::<char>::empty();
    let a = if c.mods.alt {
        seq!['A', '-']
    } else {
        none
    };
    let s = if c.mods.shift {
        seq!['S', '-']
    } else {
        none
    };
    let k = if c.mods.control {
        seq!['C', '-']
    } else {
        none
    };
    assert(mod_words(c.mods) + w =~= k + (s + (a + w)));
    assert(none + w =~= w);
    assert(none + (a + w) =~= a + w);
    assert(none + (s + (a + w)) =~= s + (a + w));
    let m1 = KeyModifiers { control: c.mods.control, ..no_mods() };
    let m2 = KeyModifiers { shift: c.mods.shift, ..m1 };
    let m3 = KeyModifiers { alt: c.mods.alt, ..m2 };
    if c.mods.control {
        lemma_mod_is_read('C', s + (a + w), no_mods());
    }
    assert(token_chord(k + (s + (a + w)), no_mods()) == token_chord(s + (a + w), m1));
    if c.mods.shift {
        lemma_mod_is_read('S', a + w, m1);
    }
    assert(token_chord(s + (a + w), m1) == token_chord(a + w, m2));
    if c.mods.alt {
        lemma_mod_is_read('A', w, m2);
    }
    assert(token_chord(a + w, m2) == token_chord(w, m3));
    assert(m3 == c.mods);
    assert(canonical_of(m3, c.code) == c);
}

/// A written chord in front of a text reads as that chord, then the text.
proof fn lemma_chord_is_read(c: Chord, last: bool, rest: Seq<char>)
    requires
        writable(c),
        last ==> rest.len() == 0,
    ensures
        reading(written_chord(c, last) + rest) == after(seq![c], reading(rest)),
{
    let w = written_chord(c, last);
    let whole = w + rest;
    if is_bare(c, last) {
        let ch = c.code->Char_0;
        assert(whole[0] == ch);
        assert(c == char_chord(ch));
        if ch == '<' {
            assert(whole.len() == 1);
            text::lemma_find_char(whole.skip(1), '>');
            assert(seq![c] + Seq::<Chord>::empty() =~= seq![c]);
        } else {
            assert(whole.skip(1) =~= rest);
        }
    } else {
        lemma_token_is_read(c);
        let token = mod_words(c.mods) + key_word(c.code);
        let tail = whole.skip(1);
        assert(whole[0] == '<');
        assert forall|i: int| 0 <= i < token.len() implies tail[i] != '>' by {
            assert(tail[i] == token[i]);
        }
        assert(tail[token.len() as int] == '>');
        text::lemma_find_char_is(tail, '>', token.len());
        assert(whole.subrange(1, 1 + token.len() as int) =~= token);
        assert(whole.skip(token.len() as int + 2) =~= rest);
    }
}

proof fn lemma_front_is_read(b: Seq<Chord>, rest: Seq<char>)
    requires
        forall|i: int| 0 <= i < b.len() ==> writable(#[trigger] b[i]),
    ensures
        reading(written_front(b) + rest) == after(b, reading(rest)),
    decreases b.len(),
{
    if b.len() == 0 {
        assert(written_front(b) + rest =~= rest);
        lemma_after_nothing(reading(rest));
        assert(b =~= seq![]);
    } else {
        let front = b.drop_last();
        let tail = written_chord(b.last(), false) + rest;
        assert forall|i: int| 0 <= i < front.len() implies writable(#[trigger] front[i]) by {
            assert(front[i] == b[i]);
        }
        assert(written_front(b) + rest =~= written_front(front) + tail);
        lemma_front_is_read(front, tail);
        lemma_chord_is_read(b.last(), false, rest);
        lemma_after_after(front, seq![b.last()], reading(rest));
        assert(front + seq![b.last()] =~= b);
    }
}

proof fn lemma_binding_is_read(b: Seq<Chord>)
    requires
        b.len() > 0,
        forall|i: int| 0 <= i < b.len() ==> writable(#[trigger] b[i]),
    ensures
        reading(written(b)) == Reading::Chords(b),
{
    let front = b.drop_last();
    let tail = written_chord(b.last(), true);
    assert forall|i: int| 0 <= i < front.len() implies writable(#[trigger] front[i]) by {
        assert(front[i] == b[i]);
    }
    lemma_front_is_read(front, tail);
    lemma_chord_is_read(b.last(), true, seq![]);
    assert(tail + Seq::<char>::empty() =~= tail);
    assert(seq![b.last()] + Seq::<Chord>::empty() =~= seq![b.last()]);
    assert(front + seq![b.last()] =~= b);
}

/// Whatever `parse` makes of a text, it makes of the written form of the result:
/// formatting a binding and parsing it again gives the same binding.
pub proof fn law_written_bindings_read_back(s: &str, b: Binding)
    requires
        answers(Ok::<Binding, BindingError>(b), reading(s@)),
    ensures
        reading(written(b@)) == Reading::Chords(b@),
        1 <= b@.len() <= 4,
{
    assert forall|i: int| 0 <= i < b@.len() implies writable(#[trigger] b@[i]) by {
        law_read_chords_are_canonical(s@, i);
    }
    lemma_binding_is_read(b@);
}

proof fn lemma_tokens_are_canonical(t: Seq<char>, m: KeyModifiers)
    ensures
        token_chord(t, m) matches Some(c) ==> c.is_canonical() && has_word(c.code),
    decreases t.len(),
{
    match leading_mod(t) {
        Some(c) => lemma_tokens_are_canonical(t.skip(2), with_mod(m, c)),
        None => {},
    }
}

/// Every chord that is read is canonical and of a key with a name.
pub proof fn law_read_chords_are_canonical(s: Seq<char>, i: int)
    ensures
        reading(s) matches Reading::Chords(v) ==> 0 <= i < v.len() ==> v[i].is_canonical()
            && has_word(v[i].code),
    decreases s.len(),
{
    if s.len() > 0 {
        if s[0] == '<' {
            let n = text::find_char(s.skip(1), '>') as int;
            if n < s.len() - 1 {
                lemma_tokens_are_canonical(s.subrange(1, 1 + n), no_mods());
                law_read_chords_are_canonical(s.skip(n + 2), i - 1);
            }
        } else {
            law_read_chords_are_canonical(s.skip(1), i - 1);
        }
    }
}

// ---------------------------------------------------------------------------
// Defaults and the user's overlay
// ---------------------------------------------------------------------------

/// A key with nothing held.
pub open spec fn bare(code: KeyCode) -> Chord {
    Chord { mods: no_mods(), code }
}

/// A character with Control held.
pub open spec fn ctrl(c: char) -> Chord {
    Chord { mods: KeyModifiers { control: true, ..no_mods() }, code: KeyCode::Char(c) }
}

fn bare_key(code: KeyCode) -> (r: Chord)
    ensures
        r == bare(code),
{
    Chord { mods: KeyModifiers::none(), code }
}

fn ctrl_key(c: char) -> (r: Chord)
    ensures
        r == ctrl(c),
{
    Chord { mods: KeyModifiers::control(), code: KeyCode::Char(c) }
}

/// The default bindings of Normal mode. The arrow keys double `h`, `j`, `k` and
/// `l`, and the capitals double two leader chords; the first binding of an
/// action is the one shown for it.
pub open spec fn default_normal() -> Table {
    seq![
        (seq![char_chord('h')], BindableAction::FocusSidebar),
        (seq![char_chord('l')], BindableAction::FocusTerminal),
        (seq![char_chord('j')], BindableAction::SidebarDown),
        (seq![char_chord('k')], BindableAction::SidebarUp),
        (seq![bare(KeyCode::Enter)], BindableAction::ActivateSelection),
        (seq![char_chord('o')], BindableAction::OpenTab),
        (seq![char_chord('x')], BindableAction::CloseTab),
        (seq![char_chord('i')], BindableAction::EnterTerminalMode),
        (seq![char_chord(':')], BindableAction::EnterCommandMode),
        (seq![char_chord('g'), char_chord('t')], BindableAction::NextTab),
        (seq![char_chord('g'), char_chord('T')], BindableAction::PrevTab),
        (seq![ctrl('w'), char_chord('>')], BindableAction::SidebarGrow),
        (seq![ctrl('w'), char_chord('<')], BindableAction::SidebarShrink),
        (seq![ctrl('w'), char_chord('=')], BindableAction::SidebarReset),
        (seq![char_chord(' '), char_chord('o')], BindableAction::OpenProjectPopup),
        (seq![char_chord(' '), char_chord('w')], BindableAction::NewWorktree),
        (seq![char_chord(' '), char_chord('W')], BindableAction::RemoveWorktree),
        (seq![char_chord(' '), char_chord('e')], BindableAction::EditProject),
        (seq![char_chord(' '), char_chord('l')], BindableAction::LaunchPicker),
        (seq![char_chord(' '), char_chord('u')], BindableAction::UsagePopup),
        (seq![char_chord(' '), char_chord('?')], BindableAction::HelpPopup),
        (seq![char_chord(' '), char_chord('q')], BindableAction::Quit),
        (seq![ctrl('p')], BindableAction::CommandPalette),
        (seq![bare(KeyCode::Left)], BindableAction::FocusSidebar),
        (seq![bare(KeyCode::Right)], BindableAction::FocusTerminal),
        (seq![bare(KeyCode::Down)], BindableAction::SidebarDown),
        (seq![bare(KeyCode::Up)], BindableAction::SidebarUp),
        (seq![char_chord('O')], BindableAction::OpenProjectPopup),
        (seq![char_chord('L')], BindableAction::LaunchPicker),
    ]
}

/// The one default binding of Terminal mode: `<C-\\><C-n>`.
pub open spec fn default_terminal() -> Table {
    seq![(leave_keys(), BindableAction::LeaveTerminal)]
}

/// The keys that leave Terminal mode by default.
pub open spec fn leave_keys() -> Seq<Chord> {
    seq![ctrl('\\'), ctrl('n')]
}

fn bind1(v: &mut Vec<(Binding, BindableAction)>, a: Chord, action: BindableAction)
    ensures
        table_of(final(v)@) == table_of(old(v)@).push((seq![a], action)),
{
    let mut keys: Vec<Chord> = Vec::new();
    keys.push(a);
    assert(keys@ =~= seq![a]);
    v.push((Binding(keys), action));
    assert(table_of(v@) =~= table_of(old(v)@).push((seq![a], action)));
}

fn bind2(v: &mut Vec<(Binding, BindableAction)>, a: Chord, b: Chord, action: BindableAction)
    ensures
        table_of(final(v)@) == table_of(old(v)@).push((seq![a, b], action)),
{
    let mut keys: Vec<Chord> = Vec::new();
    keys.push(a);
    keys.push(b);
    assert(keys@ =~= seq![a, b]);
    v.push((Binding(keys), action));
    assert(table_of(v@) =~= table_of(old(v)@).push((seq![a, b], action)));
}

/// Hardcoded default bindings. Order here is the order rendered by `:help`.
pub fn defaults() -> (r: KeyMap)
    ensures
        r.table(Scope::Normal) == default_normal(),
        r.table(Scope::Terminal) == default_terminal(),
{
    let mut normal: Vec<(Binding, BindableAction)> = Vec::new();
    let mut terminal: Vec<(Binding, BindableAction)> = Vec::new();
    assert(table_of(normal@) =~= seq![]);
    assert(table_of(terminal@) =~= seq![]);
    bind1(&mut normal, chord_for_char('h'), BindableAction::FocusSidebar);
    bind1(&mut normal, chord_for_char('l'), BindableAction::FocusTerminal);
    bind1(&mut normal, chord_for_char('j'), BindableAction::SidebarDown);
    bind1(&mut normal, chord_for_char('k'), BindableAction::SidebarUp);
    bind1(&mut normal, bare_key(KeyCode::Enter), BindableAction::ActivateSelection);
    bind1(&mut normal, chord_for_char('o'), BindableAction::OpenTab);
    bind1(&mut normal, chord_for_char('x'), BindableAction::CloseTab);
    bind1(&mut normal, chord_for_char('i'), BindableAction::EnterTerminalMode);
    bind1(&mut normal, chord_for_char(':'), BindableAction::EnterCommandMode);
    bind2(&mut normal, chord_for_char('g'), chord_for_char('t'), BindableAction::NextTab);
    bind2(&mut normal, chord_for_char('g'), chord_for_char('T'), BindableAction::PrevTab);
    bind2(&mut normal, ctrl_key('w'), chord_for_char('>'), BindableAction::SidebarGrow);
    bind2(&mut normal, ctrl_key('w'), chord_for_char('<'), BindableAction::SidebarShrink);
    bind2(&mut normal, ctrl_key('w'), chord_for_char('='), BindableAction::SidebarReset);
    bind2(&mut normal, chord_for_char(' '), chord_for_char('o'), BindableAction::OpenProjectPopup);
    bind2(&mut normal, chord_for_char(' '), chord_for_char('w'), BindableAction::NewWorktree);
    bind2(&mut normal, chord_for_char(' '), chord_for_char('W'), BindableAction::RemoveWorktree);
    bind2(&mut normal, chord_for_char(' '), chord_for_char('e'), BindableAction::EditProject);
    bind2(&mut normal, chord_for_char(' '), chord_for_char('l'), BindableAction::LaunchPicker);
    bind2(&mut normal, chord_for_char(' '), chord_for_char('u'), BindableAction::UsagePopup);
    bind2(&mut normal, chord_for_char(' '), chord_for_char('?'), BindableAction::HelpPopup);
    bind2(&mut normal, chord_for_char(' '), chord_for_char('q'), BindableAction::Quit);
    bind1(&mut normal, ctrl_key('p'), BindableAction::CommandPalette);
    bind1(&mut normal, bare_key(KeyCode::Left), BindableAction::FocusSidebar);
    bind1(&mut normal, bare_key(KeyCode::Right), BindableAction::FocusTerminal);
    bind1(&mut normal, bare_key(KeyCode::Down), BindableAction::SidebarDown);
    bind1(&mut normal, bare_key(KeyCode::Up), BindableAction::SidebarUp);
    bind1(&mut normal, chord_for_char('O'), BindableAction::OpenProjectPopup);
    bind1(&mut normal, chord_for_char('L'), BindableAction::LaunchPicker);
    assert(table_of(normal@) =~= default_normal());
    bind2(&mut terminal, ctrl_key('\\'), ctrl_key('n'), BindableAction::LeaveTerminal);
    assert(table_of(terminal@) =~= default_terminal());
    KeyMap { normal, terminal }
}

/// Whether a binding may not be given to an action: a bare `<Esc>`, `<C-q>`, and
/// all that starts with `<C-\\>` but `leave_terminal`'s own default.
pub open spec fn reserved(b: Seq<Chord>, action: BindableAction) -> bool {
    ||| b == seq![bare(KeyCode::Esc)]
    ||| b == seq![ctrl('q')]
    ||| b.len() > 0 && b[0] == ctrl('\\') && !(action is LeaveTerminal && b == leave_keys())
}

fn is_reserved(b: &Binding, action: BindableAction) -> (r: bool)
    ensures
        r == reserved(b@, action),
{
    let n: usize = b.0.len();
    if n == 1 && (b.0[0] == bare_key(KeyCode::Esc) || b.0[0] == ctrl_key('q')) {
        assert(b@ =~= seq![b@[0]]);
        return true;
    }
    assert(b@ == seq![bare(KeyCode::Esc)] ==> b@[0] == bare(KeyCode::Esc));
    assert(b@ == seq![ctrl('q')] ==> b@[0] == ctrl('q'));
    if n > 0 && b.0[0] == ctrl_key('\\') {
        let default = n == 2 && b.0[1] == ctrl_key('n');
        assert(default ==> b@ =~= leave_keys());
        return !(action == BindableAction::LeaveTerminal && default);
    }
    false
}

/// `t` without the bindings of `action`.
pub open spec fn unbound(t: Table, action: BindableAction) -> Table
    decreases t.len(),
{
    if t.len() == 0 {
        t
    } else if t.last().1 == action {
        unbound(t.drop_last(), action)
    } else {
        unbound(t.drop_last(), action).push(t.last())
    }
}

/// The bindings of `action` in `t`, in order.
pub open spec fn of_action(t: Table, action: BindableAction) -> Table
    decreases t.len(),
{
    if t.len() == 0 {
        t
    } else if t.last().1 == action {
        of_action(t.drop_last(), action).push(t.last())
    } else {
        of_action(t.drop_last(), action)
    }
}

/// `t` once an entry has given `action` the binding `b`: all that the action had
/// goes, and what it has now comes last. Where `b` is the binding that is shown
/// for the action already, its other bindings stay with it.
pub open spec fn rebound(t: Table, b: Seq<Chord>, action: BindableAction) -> Table {
    unbound(t, action) + if first_binding(t, action) == Some(b) {
        of_action(t, action)
    } else {
        seq![(b, action)]
    }
}

/// The binding that one entry of the user's table gives, and to which action:
/// none for an unknown action, a text that does not parse, or a reserved
/// sequence.
pub open spec fn rebinding(entry: (Seq<char>, Seq<char>)) -> Option<(Seq<Chord>, BindableAction)> {
    match action_named(entry.0) {
        Some(action) => match reading(entry.1) {
            Reading::Chords(b) => if 1 <= b.len() <= 4 && !reserved(b, action) {
                Some((b, action))
            } else {
                None
            },
            _ => None,
        },
        None => None,
    }
}

/// A scope's table once the user's entries have been laid over it, in order: an
/// entry's binding takes the place of all that its action had.
pub open spec fn overlaid(t: Table, scope: Scope, user: Seq<(Seq<char>, Seq<char>)>) -> Table
    decreases user.len(),
{
    if user.len() == 0 {
        t
    } else {
        let front = overlaid(t, scope, user.drop_last());
        match rebinding(user.last()) {
            Some((b, action)) => if action.home() == scope {
                rebound(front, b, action)
            } else {
                front
            },
            None => front,
        }
    }
}

/// Whether the binding shown for `action` is `binding`.
fn shows(v: &Vec<(Binding, BindableAction)>, binding: &Binding, action: BindableAction) -> (r: bool)
    ensures
        r == (first_binding(table_of(v@), action) == Some(binding@)),
{
    let ghost t = table_of(v@);
    let mut k: usize = 0;
    assert(t.skip(0) =~= t);
    while k < v.len()
        invariant
            k <= v.len(),
            t == table_of(v@),
            first_binding(t, action) == first_binding(t.skip(k as int), action),
        decreases v.len() - k,
    {
        assert(t.skip(k as int)[0] == t[k as int]);
        if v[k].1 == action {
            return same_chords(&v[k].0.0, binding.0.as_slice());
        }
        assert(t.skip(k as int).skip(1) =~= t.skip(k + 1));
        k += 1;
    }
    false
}

/// Gives `action` that binding.
fn rebind(v: &mut Vec<(Binding, BindableAction)>, binding: Binding, action: BindableAction)
    ensures
        table_of(final(v)@) == rebound(table_of(old(v)@), binding@, action),
{
    let ghost t = table_of(v@);
    let shown = shows(v, &binding, action);
    let mut kept: Vec<(Binding, BindableAction)> = Vec::new();
    let mut own: Vec<(Binding, BindableAction)> = Vec::new();
    let mut i: usize = 0;
    assert(table_of(kept@) =~= t.take(0));
    assert(table_of(own@) =~= t.take(0));
    while i < v.len()
        invariant
            i <= v.len(),
            t == table_of(v@),
            table_of(kept@) == unbound(t.take(i as int), action),
            table_of(own@) == of_action(t.take(i as int), action),
        decreases v.len() - i,
    {
        let ghost before = kept@;
        let ghost mine = own@;
        assert(t.take(i + 1).drop_last() =~= t.take(i as int));
        assert(t.take(i + 1).last() == t[i as int]);
        if v[i].1 == action {
            own.push((v[i].0.copy(), v[i].1));
            assert(table_of(own@) =~= table_of(mine).push(t[i as int]));
        } else {
            kept.push((v[i].0.copy(), v[i].1));
            assert(table_of(kept@) =~= table_of(before).push(t[i as int]));
        }
        i += 1;
    }
    assert(t.take(t.len() as int) =~= t);
    let ghost before = kept@;
    if shown {
        let ghost mine = own@;
        kept.append(&mut own);
        assert(table_of(kept@) =~= table_of(before) + table_of(mine));
    } else {
        kept.push((binding, action));
        assert(table_of(kept@) =~= table_of(before) + seq![(binding@, action)]);
    }
    *v = kept;
}

/// Build a `KeyMap` from the user's table, overlaying its bindings on top of
/// `defaults()`. Unknown actions and unparseable or reserved bindings leave the
/// default in place.
pub fn load_overlay(user: &KeybindTable) -> (r: KeyMap)
    ensures
        r.table(Scope::Normal) == overlaid(default_normal(), Scope::Normal, user.pairs()),
        r.table(Scope::Terminal) == overlaid(default_terminal(), Scope::Terminal, user.pairs()),
{
    let mut km = defaults();
    let entries = user.entries();
    let ghost p = user.pairs();
    let mut i: usize = 0;
    while i < entries.len()
        invariant
            i <= entries.len(),
            p == pairs(entries@),
            km.table(Scope::Normal) == overlaid(default_normal(), Scope::Normal, p.take(i as int)),
            km.table(Scope::Terminal) == overlaid(
                default_terminal(),
                Scope::Terminal,
                p.take(i as int),
            ),
        decreases entries.len() - i,
    {
        assert(p.take(i + 1).drop_last() =~= p.take(i as int));
        assert(p.take(i + 1).last() == (entries[i as int].0@, entries[i as int].1@));
        let found = BindableAction::from_name(entries[i].0.as_str());
        if let Some(action) = found {
            let parsed = parse(entries[i].1.as_str());
            if let Ok(binding) = parsed {
                if !is_reserved(&binding, action) {
                    match action.scope() {
                        Scope::Normal => rebind(&mut km.normal, binding, action),
                        Scope::Terminal => rebind(&mut km.terminal, binding, action),
                    }
                }
            }
        }
        i += 1;
    }
    assert(p.take(p.len() as int) =~= p);
    km
}

/// The default bindings as the config writes them: for each action the first
/// binding it has.
pub open spec fn default_config(entries: Table) -> Map<Seq<char>, Seq<char>>
    decreases entries.len(),
{
    if entries.len() == 0 {
        Map::empty()
    } else {
        let front = default_config(entries.drop_last());
        let name = entries.last().1.text();
        if front.contains_key(name) {
            front
        } else {
            front.insert(name, written(entries.last().0))
        }
    }
}

/// The default bindings of both modes.
pub open spec fn all_defaults() -> Table {
    default_normal() + default_terminal()
}

fn add_defaults(out: &mut KeybindTable, table: &Vec<(Binding, BindableAction)>, so_far: Ghost<Table>)
    requires
        old(out).map() == default_config(so_far@),
        names_ascend(old(out).pairs()),
    ensures
        names_ascend(final(out).pairs()),
        final(out).map() == default_config(so_far@ + table_of(table@)),
{
    let ghost t = table_of(table@);
    let mut i: usize = 0;
    assert(so_far@ + t.take(0) =~= so_far@);
    while i < table.len()
        invariant
            i <= table.len(),
            t == table_of(table@),
            names_ascend(out.pairs()),
            out.map() == default_config(so_far@ + t.take(i as int)),
        decreases table.len() - i,
    {
        let ghost next = so_far@ + t.take(i + 1);
        assert(next.drop_last() =~= so_far@ + t.take(i as int));
        assert(next.last() == t[i as int]);
        let name = table[i].1.name();
        if !out.contains_key(name) {
            out.insert(text::owned(name), format_binding(&table[i].0));
        }
        i += 1;
    }
    assert(t.take(t.len() as int) =~= t);
}

/// Render the full default keymap as a flat table for first-launch population
/// of the config toml.
pub fn defaults_as_config() -> (r: KeybindTable)
    ensures
        r.map() == default_config(all_defaults()),
        names_ascend(r.pairs()),
{
    let km = defaults();
    let mut out = KeybindTable::new();
    let ghost none = Seq::<(Seq<Chord>, BindableAction)>::empty();
    add_defaults(&mut out, &km.normal, Ghost(none));
    assert(none + default_normal() =~= default_normal());
    add_defaults(&mut out, &km.terminal, Ghost(default_normal()));
    out
}

proof fn lemma_config_has(t: Table, i: int)
    requires
        0 <= i < t.len(),
    ensures
        default_config(t).contains_key(t[i].1.text()),
    decreases t.len(),
{
    if i < t.len() - 1 {
        lemma_config_has(t.drop_last(), i);
        assert(t.drop_last()[i] == t[i]);
    }
}

/// Every action stands in the config that a first launch writes.
pub proof fn law_default_config_lists_every_action(a: BindableAction)
    ensures
        default_config(all_defaults()).contains_key(a.text()),
{
    let n = default_normal();
    let all = n + default_terminal();
    let i: int = match a {
        BindableAction::FocusSidebar => 0,
        BindableAction::FocusTerminal => 1,
        BindableAction::SidebarDown => 2,
        BindableAction::SidebarUp => 3,
        BindableAction::ActivateSelection => 4,
        BindableAction::OpenTab => 5,
        BindableAction::CloseTab => 6,
        BindableAction::EnterTerminalMode => 7,
        BindableAction::EnterCommandMode => 8,
        BindableAction::NextTab => 9,
        BindableAction::PrevTab => 10,
        BindableAction::SidebarGrow => 11,
        BindableAction::SidebarShrink => 12,
        BindableAction::SidebarReset => 13,
        BindableAction::OpenProjectPopup => 14,
        BindableAction::NewWorktree => 15,
        BindableAction::RemoveWorktree => 16,
        BindableAction::EditProject => 17,
        BindableAction::LaunchPicker => 18,
        BindableAction::UsagePopup => 19,
        BindableAction::HelpPopup => 20,
        BindableAction::Quit => 21,
        BindableAction::CommandPalette => 22,
        BindableAction::LeaveTerminal => n.len() as int,
    };
    assert(all[i].1 == a);
    lemma_config_has(all, i);
}

proof fn lemma_unbound_lacks(t: Table, action: BindableAction)
    ensures
        forall|i: int| 0 <= i < unbound(t, action).len() ==> (#[trigger] unbound(t, action)[i]).1
            != action,
    decreases t.len(),
{
    if t.len() > 0 {
        lemma_unbound_lacks(t.drop_last(), action);
    }
}

proof fn lemma_first_binding_at(t: Table, action: BindableAction, i: int)
    requires
        0 <= i < t.len(),
        t[i].1 == action,
        forall|j: int| 0 <= j < i ==> (#[trigger] t[j]).1 != action,
    ensures
        first_binding(t, action) == Some(t[i].0),
    decreases i,
{
    if i > 0 {
        assert(t[0].1 != action);
        assert forall|j: int| 0 <= j < i - 1 implies (#[trigger] t.skip(1)[j]).1 != action by {
            assert(t.skip(1)[j] == t[j + 1]);
        }
        assert(t.skip(1)[i - 1] == t[i]);
        lemma_first_binding_at(t.skip(1), action, i - 1);
    }
}

proof fn lemma_first_binding_push(t: Table, x: (Seq<Chord>, BindableAction), action: BindableAction)
    ensures
        first_binding(t.push(x), action) == (match first_binding(t, action) {
            Some(b) => Some(b),
            None => if x.1 == action {
                Some(x.0)
            } else {
                None
            },
        }),
    decreases t.len(),
{
    if t.len() == 0 {
        assert(t.push(x).skip(1) =~= t);
    } else {
        assert(t.push(x).skip(1) =~= t.skip(1).push(x));
        lemma_first_binding_push(t.skip(1), x, action);
    }
}

proof fn lemma_first_of_action(t: Table, action: BindableAction)
    ensures
        first_binding(t, action) == (if of_action(t, action).len() > 0 {
            Some(of_action(t, action)[0].0)
        } else {
            None
        }),
    decreases t.len(),
{
    if t.len() > 0 {
        lemma_first_of_action(t.drop_last(), action);
        lemma_first_binding_push(t.drop_last(), t.last(), action);
        assert(t.drop_last().push(t.last()) =~= t);
    }
}

proof fn lemma_of_action_adds(s: Table, r: Table, action: BindableAction)
    ensures
        of_action(s + r, action) == of_action(s, action) + of_action(r, action),
    decreases r.len(),
{
    if r.len() == 0 {
        assert(s + r =~= s);
        assert(of_action(s, action) + of_action(r, action) =~= of_action(s, action));
    } else {
        assert((s + r).drop_last() =~= s + r.drop_last());
        lemma_of_action_adds(s, r.drop_last(), action);
        assert(of_action(s + r, action) =~= of_action(s, action) + of_action(r, action));
    }
}

proof fn lemma_of_action_apart(t: Table, x: BindableAction, action: BindableAction)
    ensures
        of_action(unbound(t, x), action) == (if action == x {
            seq![]
        } else {
            of_action(t, action)
        }),
        of_action(of_action(t, x), action) == (if action == x {
            of_action(t, x)
        } else {
            seq![]
        }),
    decreases t.len(),
{
    if t.len() > 0 {
        lemma_of_action_apart(t.drop_last(), x, action);
        if t.last().1 == x {
            assert(of_action(t, x).drop_last() =~= of_action(t.drop_last(), x));
        } else {
            assert(unbound(t, x).drop_last() =~= unbound(t.drop_last(), x));
        }
    }
}

/// What an entry does: its action has that binding, and with it the others where
/// it was shown already; every other action keeps its bindings.
proof fn lemma_rebound(t: Table, b: Seq<Chord>, x: BindableAction, action: BindableAction)
    ensures
        of_action(rebound(t, b, x), action) == (if action != x || first_binding(t, x) == Some(b) {
            of_action(t, action)
        } else {
            seq![(b, x)]
        }),
{
    let rows = if first_binding(t, x) == Some(b) {
        of_action(t, x)
    } else {
        seq![(b, x)]
    };
    lemma_of_action_adds(unbound(t, x), rows, action);
    lemma_of_action_apart(t, x, action);
    let one: Table = seq![(b, x)];
    reveal_with_fuel(of_action, 2);
    assert(one.drop_last() =~= seq![]);
    assert(of_action(one, action) =~= if action == x {
        one
    } else {
        seq![]
    });
    assert(of_action(rebound(t, b, x), action) =~= if action != x || first_binding(t, x) == Some(
        b,
    ) {
        of_action(t, action)
    } else {
        seq![(b, x)]
    });
}

/// After an overlay, the binding shown for an action is the one that the last
/// valid entry gave it.
pub proof fn law_user_binding_replaces_the_default(
    t: Table,
    user: Seq<(Seq<char>, Seq<char>)>,
    b: Seq<Chord>,
    action: BindableAction,
)
    requires
        user.len() > 0,
        rebinding(user.last()) == Some((b, action)),
    ensures
        first_binding(overlaid(t, action.home(), user), action) == Some(b),
{
    let front = overlaid(t, action.home(), user.drop_last());
    lemma_rebound(front, b, action, action);
    lemma_first_of_action(front, action);
    lemma_first_of_action(rebound(front, b, action), action);
}

/// An entry that is not valid changes nothing.
pub proof fn law_invalid_entries_change_nothing(
    t: Table,
    scope: Scope,
    user: Seq<(Seq<char>, Seq<char>)>,
)
    requires
        user.len() > 0,
        rebinding(user.last()) is None,
    ensures
        overlaid(t, scope, user) == overlaid(t, scope, user.drop_last()),
{
}

/// Entries that give every action the binding that is shown for it already leave
/// every action its bindings, in their order.
pub proof fn law_repeated_bindings_change_no_binding(
    t: Table,
    scope: Scope,
    user: Seq<(Seq<char>, Seq<char>)>,
    action: BindableAction,
)
    requires
        forall|i: int|
            0 <= i < user.len() ==> (rebinding(#[trigger] user[i]) matches Some((b, a))
                ==> a.home() == scope ==> first_binding(t, a) == Some(b)),
    ensures
        of_action(overlaid(t, scope, user), action) == of_action(t, action),
        first_binding(overlaid(t, scope, user), action) == first_binding(t, action),
    decreases user.len(),
{
    if user.len() > 0 {
        let front = user.drop_last();
        let before = overlaid(t, scope, front);
        assert forall|i: int| 0 <= i < front.len() implies (rebinding(#[trigger] front[i]) matches
            Some((b, a)) ==> a.home() == scope ==> first_binding(t, a) == Some(b)) by {
            assert(front[i] == user[i]);
        }
        law_repeated_bindings_change_no_binding(t, scope, front, action);
        assert(user.last() == user[user.len() - 1]);
        match rebinding(user.last()) {
            Some((b, a)) => if a.home() == scope {
                law_repeated_bindings_change_no_binding(t, scope, front, a);
                lemma_rebound(before, b, a, action);
            },
            None => {},
        }
    }
    lemma_first_of_action(overlaid(t, scope, user), action);
    lemma_first_of_action(t, action);
}

/// Whether a row of the default table can be written, read back and bound again.
spec fn plain_row(row: (Seq<Chord>, BindableAction)) -> bool {
    &&& 1 <= row.0.len() <= 4
    &&& forall|i: int| 0 <= i < row.0.len() ==> writable(#[trigger] row.0[i])
    &&& !reserved(row.0, row.1)
}

#[verifier::spinoff_prover]
#[verifier::rlimit(40)]
proof fn lemma_default_rows(k: int)
    requires
        0 <= k < all_defaults().len(),
    ensures
        plain_row(all_defaults()[k]),
        all_defaults()[k].1.home() is Normal <==> k < default_normal().len(),
{
    let n = default_normal();
    assert(plain_row(n[0]));
    assert(plain_row(n[1]));
    assert(plain_row(n[2]));
    assert(plain_row(n[3]));
    assert(plain_row(n[4]));
    assert(plain_row(n[5]));
    assert(plain_row(n[6]));
    assert(plain_row(n[7]));
    assert(plain_row(n[8]));
    assert(plain_row(n[9]));
    assert(plain_row(n[10]));
    assert(plain_row(n[11]));
    assert(plain_row(n[12]));
    assert(plain_row(n[13]));
    assert(plain_row(n[14]));
    assert(plain_row(n[15]));
    assert(plain_row(n[16]));
    assert(plain_row(n[17]));
    assert(plain_row(n[18]));
    assert(plain_row(n[19]));
    assert(plain_row(n[20]));
    assert(plain_row(n[21]));
    assert(plain_row(n[22]));
    assert(plain_row(n[23]));
    assert(plain_row(n[24]));
    assert(plain_row(n[25]));
    assert(plain_row(n[26]));
    assert(plain_row(n[27]));
    assert(plain_row(n[28]));
    assert(plain_row(default_terminal()[0]));
    assert(n.len() == 29);
    if k < n.len() {
        assert(k == 0 || k == 1 || k == 2 || k == 3 || k == 4 || k == 5 || k == 6 || k == 7 || k == 8 || k == 9 || k == 10 || k == 11 || k == 12 || k == 13 || k == 14 || k == 15 || k == 16 || k == 17 || k == 18 || k == 19 || k == 20 || k == 21 || k == 22 || k == 23 || k == 24 || k == 25 || k == 26 || k == 27 || k == 28);
        assert(all_defaults()[k] == n[k]);
    }
}

/// Where an entry of the default config comes from: the first row of its action.
proof fn lemma_config_from(t: Table, name: Seq<char>) -> (k: int)
    requires
        default_config(t).contains_key(name),
    ensures
        0 <= k < t.len(),
        t[k].1.text() == name,
        forall|j: int| 0 <= j < k ==> (#[trigger] t[j]).1.text() != name,
        default_config(t)[name] == written(t[k].0),
    decreases t.len(),
{
    let front = t.drop_last();
    if default_config(front).contains_key(name) {
        let k = lemma_config_from(front, name);
        assert(front[k] == t[k]);
        assert forall|j: int| 0 <= j < k implies (#[trigger] t[j]).1.text() != name by {
            assert(front[j] == t[j]);
        }
        k
    } else {
        assert forall|j: int| 0 <= j < t.len() - 1 implies (#[trigger] t[j]).1.text() != name by {
            lemma_config_has(front, j);
            assert(front[j] == t[j]);
        }
        t.len() - 1
    }
}

/// The default table of a scope.
pub open spec fn default_table(scope: Scope) -> Table {
    match scope {
        Scope::Normal => default_normal(),
        Scope::Terminal => default_terminal(),
    }
}

proof fn lemma_default_entry(name: Seq<char>)
    requires
        default_config(all_defaults()).contains_key(name),
    ensures
        rebinding((name, default_config(all_defaults())[name])) matches Some((b, a))
            && first_binding(default_table(a.home()), a) == Some(b) && a.text() == name,
{
    let d = all_defaults();
    let k = lemma_config_from(d, name);
    let (b, a) = d[k];
    lemma_default_rows(k);
    law_action_names_round_trip(a);
    lemma_binding_is_read(b);
    let t = default_table(a.home());
    let at = if a.home() is Normal {
        k
    } else {
        k - default_normal().len()
    };
    assert(t[at] == d[k]);
    assert forall|j: int| 0 <= j < at implies (#[trigger] t[j]).1 != a by {
        assert(t[j] == d[j + k - at]);
    }
    lemma_first_binding_at(t, a, at);
}

/// The config that a first launch writes names the actions and nothing else, and
/// laid over the defaults it leaves every action its bindings, in their order.
pub proof fn law_default_config_changes_no_binding(
    user: Seq<(Seq<char>, Seq<char>)>,
    action: BindableAction,
)
    requires
        names_ascend(user),
        as_map(user) == default_config(all_defaults()),
    ensures
        ({
            let t = default_table(action.home());
            let over = overlaid(t, action.home(), user);
            &&& of_action(over, action) == of_action(t, action)
            &&& shown_binding(over, action) == shown_binding(t, action)
        }),
        forall|name: Seq<char>| #[trigger]
            as_map(user).contains_key(name) <==> action_named(name) is Some,
{
    let t = default_table(action.home());
    assert forall|i: int| 0 <= i < user.len() implies (rebinding(#[trigger] user[i]) matches Some(
        (b, a),
    ) ==> a.home() == action.home() ==> first_binding(t, a) == Some(b)) by {
        lemma_map_has(user, i);
        lemma_default_entry(user[i].0);
    }
    law_repeated_bindings_change_no_binding(t, action.home(), user, action);
    assert forall|name: Seq<char>| #[trigger] as_map(user).contains_key(name) <==> action_named(
        name,
    ) is Some by {
        if as_map(user).contains_key(name) {
            lemma_default_entry(name);
        }
        match action_named(name) {
            Some(a) => law_default_config_lists_every_action(a),
            None => {},
        }
    }
}

} // verus!
