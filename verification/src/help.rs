//! The help page, written from the live keymap so that it shows the user's
//! actual bindings.

use crate::app::AppState;
use crate::cmdtable::{CmdSpec, COMMANDS};
use crate::drawing::{byte_len, bytes_of, filled, less, least, less_u16, min_u16, pad_right, spaces};
use crate::keybinds::{shown_binding, BindableAction, KeyMap, Scope, Table};
use crate::text;
use vstd::prelude::*;

verus! {

/// A line of the help page.
#[derive(Debug)]
pub enum HelpLine {
    Header(&'static str),
    /// Keys, filled up to their column, and what they do.
    Row { keys: String, what: &'static str },
    Blank,
    /// A remark.
    Dim(&'static str),
}

/// A line of the help page in the abstract.
pub enum HelpModel {
    Header(Seq<char>),
    Row { keys: Seq<char>, what: Seq<char> },
    Blank,
    Dim(Seq<char>),
}

impl View for HelpLine {
    type V = HelpModel;

    open spec fn view(&self) -> HelpModel {
        match *self {
            HelpLine::Header(s) => HelpModel::Header(s@),
            HelpLine::Row { keys, what } => HelpModel::Row { keys: keys@, what: what@ },
            HelpLine::Blank => HelpModel::Blank,
            HelpLine::Dim(s) => HelpModel::Dim(s@),
        }
    }
}

/// The lines in a list.
pub open spec fn help_models(v: Seq<HelpLine>) -> Seq<HelpModel> {
    Seq::new(v.len(), |i: int| v[i]@)
}

/// A row of the help page.
pub open spec fn help_row(keys: Seq<char>, what: Seq<char>) -> HelpModel {
    HelpModel::Row { keys: "  "@ + filled(keys, 22), what }
}

/// How an action is bound: what the keymap says, or that it is not.
pub open spec fn bound_keys(normal: Table, terminal: Table, a: BindableAction) -> Seq<char> {
    let t = match a.home() {
        Scope::Normal => normal,
        Scope::Terminal => terminal,
    };
    match shown_binding(t, a) {
        Some(s) => s,
        None => "(unbound)"@,
    }
}

/// The row of an action.
pub open spec fn action_row(normal: Table, terminal: Table, a: BindableAction) -> HelpModel {
    help_row(bound_keys(normal, terminal, a), a.meaning())
}

/// The rows of several actions.
pub open spec fn action_rows(normal: Table, terminal: Table, list: Seq<BindableAction>) -> Seq<
    HelpModel,
> {
    Seq::new(list.len(), |i: int| action_row(normal, terminal, list[i]))
}

/// A section of the help page: a header, rows, and a blank line.
pub open spec fn help_section(title: Seq<char>, rows: Seq<HelpModel>) -> Seq<HelpModel> {
    seq![HelpModel::Header(title)] + rows + seq![HelpModel::Blank]
}

/// The longest usage of the first `n` commands, in bytes.
pub open spec fn widest_usage(n: int) -> usize
    decreases n,
{
    if n <= 0 {
        0
    } else {
        let before = widest_usage(n - 1);
        let this = byte_len(COMMANDS[n - 1].usage_text());
        if this >= before {
            this
        } else {
            before
        }
    }
}

/// The row of a command: its usage, filled up to a column behind the longest.
pub open spec fn command_row(c: CmdSpec) -> HelpModel {
    let column = widest_usage(COMMANDS@.len() as int) + 2;
    HelpModel::Row {
        keys: "  "@ + c.usage_text() + spaces(less(column, byte_len(c.usage_text()) as int)),
        what: c.description_text(),
    }
}

/// The rows of the first `n` commands.
pub open spec fn command_rows(n: nat) -> Seq<HelpModel> {
    Seq::new(n, |i: int| command_row(COMMANDS[i]))
}

pub const SIDEBAR_ACTIONS: [BindableAction; 5] = [
    BindableAction::FocusSidebar,
    BindableAction::FocusTerminal,
    BindableAction::SidebarDown,
    BindableAction::SidebarUp,
    BindableAction::ActivateSelection,
];

pub const TAB_ACTIONS: [BindableAction; 4] = [
    BindableAction::OpenTab,
    BindableAction::CloseTab,
    BindableAction::NextTab,
    BindableAction::PrevTab,
];

pub const WIDTH_ACTIONS: [BindableAction; 3] = [
    BindableAction::SidebarGrow,
    BindableAction::SidebarShrink,
    BindableAction::SidebarReset,
];

pub const LEADER_ACTIONS: [BindableAction; 8] = [
    BindableAction::OpenProjectPopup,
    BindableAction::NewWorktree,
    BindableAction::RemoveWorktree,
    BindableAction::LaunchPicker,
    BindableAction::EditProject,
    BindableAction::UsagePopup,
    BindableAction::HelpPopup,
    BindableAction::Quit,
];

pub const MODE_ACTIONS: [BindableAction; 3] = [
    BindableAction::EnterTerminalMode,
    BindableAction::LeaveTerminal,
    BindableAction::EnterCommandMode,
];

/// The part of the help page that shows bindings.
pub open spec fn help_bindings(normal: Table, terminal: Table) -> Seq<HelpModel> {
    help_section(
        "MODES"@,
        action_rows(normal, terminal, MODE_ACTIONS@).push(
            help_row("<Esc>"@, "Command → Normal · close popups"@),
        ),
    ) + help_section(
        "SIDEBAR & FOCUS (Normal mode)"@,
        action_rows(normal, terminal, SIDEBAR_ACTIONS@),
    ) + help_section("TABS"@, action_rows(normal, terminal, TAB_ACTIONS@)) + help_section(
        "SIDEBAR WIDTH"@,
        action_rows(normal, terminal, WIDTH_ACTIONS@),
    ) + help_section("LEADER"@, action_rows(normal, terminal, LEADER_ACTIONS@))
}

/// The part of the help page that is always the same.
pub open spec fn help_fixed() -> Seq<HelpModel> {
    help_section(
        "POPUPS"@,
        seq![
            help_row("Esc"@, "cancel / close"@),
            help_row("Enter"@, "confirm single-line input"@),
            help_row("Tab"@, "switch focus (open project)"@),
            help_row("Ctrl-S"@, "save (edit · open project)"@),
            help_row("j/k · wheel"@, "scroll (help · usage)"@),
        ],
    ) + help_section(
        "TERMINAL"@,
        seq![
            help_row("Shift+wheel"@, "scroll local scrollback (bypasses TUI app)"@),
            help_row("wheel (alt-screen)"@, "synthesised ↑/↓ for vim/less"@),
            help_row("Option+drag (iTerm)"@, "native text selection"@),
        ],
    ) + help_section(
        "MISC"@,
        seq![
            help_row("Ctrl-Q"@, "quit immediately (no confirmation)"@),
            help_row(":help"@, "open this popup"@),
        ],
    )
}

/// The help page.
pub open spec fn help_page(normal: Table, terminal: Table) -> Seq<HelpModel> {
    help_bindings(normal, terminal) + help_fixed() + help_section(
        "COMMANDS"@,
        command_rows(COMMANDS@.len()),
    ).push(HelpModel::Dim("  (this list is the source of truth — see /commands.rs)"@))
}

fn push_line(out: &mut Vec<HelpLine>, l: HelpLine)
    ensures
        help_models(final(out)@) == help_models(old(out)@).push(l@),
{
    out.push(l);
    assert(help_models(out@) =~= help_models(old(out)@).push(l@));
}

fn push_row(out: &mut Vec<HelpLine>, keys: &str, what: &'static str)
    ensures
        help_models(final(out)@) == help_models(old(out)@).push(help_row(keys@, what@)),
{
    let row = HelpLine::Row {
        keys: text::concat2("  ", pad_right(keys, 22).as_str()),
        what,
    };
    push_line(out, row);
}

fn push_actions(out: &mut Vec<HelpLine>, keymap: &KeyMap, list: &[BindableAction])
    ensures
        help_models(final(out)@) == help_models(old(out)@) + action_rows(
            keymap.table(Scope::Normal),
            keymap.table(Scope::Terminal),
            list@,
        ),
{
    let ghost normal = keymap.table(Scope::Normal);
    let ghost terminal = keymap.table(Scope::Terminal);
    let ghost start = help_models(out@);
    let ghost want = action_rows(normal, terminal, list@);
    let mut i: usize = 0;
    assert(help_models(out@) =~= start + want.take(0));
    while i < list.len()
        invariant
            i <= list.len(),
            normal == keymap.table(Scope::Normal),
            terminal == keymap.table(Scope::Terminal),
            want == action_rows(normal, terminal, list@),
            help_models(out@) == start + want.take(i as int),
        decreases list.len() - i,
    {
        let a = list[i];
        let keys = match keymap.binding_for(a) {
            Some(s) => s,
            None => text::owned("(unbound)"),
        };
        push_row(out, keys.as_str(), a.description());
        assert(start + want.take(i + 1) =~= (start + want.take(i as int)).push(want[i as int]));
        i += 1;
    }
    assert(want.take(want.len() as int) =~= want);
}

fn push_section(
    out: &mut Vec<HelpLine>,
    title: &'static str,
    keymap: &KeyMap,
    list: &[BindableAction],
)
    ensures
        help_models(final(out)@) == help_models(old(out)@) + help_section(
            title@,
            action_rows(keymap.table(Scope::Normal), keymap.table(Scope::Terminal), list@),
        ),
{
    push_line(out, HelpLine::Header(title));
    push_actions(out, keymap, list);
    push_line(out, HelpLine::Blank);
    assert(help_models(out@) =~= help_models(old(out)@) + help_section(
        title@,
        action_rows(keymap.table(Scope::Normal), keymap.table(Scope::Terminal), list@),
    ));
}

fn push_bindings(out: &mut Vec<HelpLine>, keymap: &KeyMap)
    ensures
        help_models(final(out)@) == help_models(old(out)@) + help_bindings(
            keymap.table(Scope::Normal),
            keymap.table(Scope::Terminal),
        ),
{
    let ghost normal = keymap.table(Scope::Normal);
    let ghost terminal = keymap.table(Scope::Terminal);
    let ghost start = help_models(out@);
    push_line(out, HelpLine::Header("MODES"));
    push_actions(out, keymap, MODE_ACTIONS.as_slice());
    push_row(out, "<Esc>", "Command → Normal · close popups");
    push_line(out, HelpLine::Blank);
    let ghost first = help_section(
        "MODES"@,
        action_rows(normal, terminal, MODE_ACTIONS@).push(
            help_row("<Esc>"@, "Command → Normal · close popups"@),
        ),
    );
    assert(help_models(out@) =~= start + first);
    push_section(out, "SIDEBAR & FOCUS (Normal mode)", keymap, SIDEBAR_ACTIONS.as_slice());
    push_section(out, "TABS", keymap, TAB_ACTIONS.as_slice());
    push_section(out, "SIDEBAR WIDTH", keymap, WIDTH_ACTIONS.as_slice());
    push_section(out, "LEADER", keymap, LEADER_ACTIONS.as_slice());
    assert(help_models(out@) =~= start + help_bindings(normal, terminal));
}

fn push_fixed(out: &mut Vec<HelpLine>)
    ensures
        help_models(final(out)@) == help_models(old(out)@) + help_fixed(),
{
    push_line(out, HelpLine::Header("POPUPS"));
    push_row(out, "Esc", "cancel / close");
    push_row(out, "Enter", "confirm single-line input");
    push_row(out, "Tab", "switch focus (open project)");
    push_row(out, "Ctrl-S", "save (edit · open project)");
    push_row(out, "j/k · wheel", "scroll (help · usage)");
    push_line(out, HelpLine::Blank);
    push_line(out, HelpLine::Header("TERMINAL"));
    push_row(out, "Shift+wheel", "scroll local scrollback (bypasses TUI app)");
    push_row(out, "wheel (alt-screen)", "synthesised ↑/↓ for vim/less");
    push_row(out, "Option+drag (iTerm)", "native text selection");
    push_line(out, HelpLine::Blank);
    push_line(out, HelpLine::Header("MISC"));
    push_row(out, "Ctrl-Q", "quit immediately (no confirmation)");
    push_row(out, ":help", "open this popup");
    push_line(out, HelpLine::Blank);
    assert(help_models(out@) =~= help_models(old(out)@) + help_fixed());
}

fn usage_column() -> (r: usize)
    ensures
        r == widest_usage(COMMANDS@.len() as int),
{
    let mut widest: usize = 0;
    let mut i: usize = 0;
    while i < COMMANDS.len()
        invariant
            i <= COMMANDS@.len(),
            widest == widest_usage(i as int),
        decreases COMMANDS@.len() - i,
    {
        let n: usize = bytes_of(COMMANDS[i].usage());
        if n >= widest {
            widest = n;
        }
        i += 1;
    }
    widest
}

fn push_commands(out: &mut Vec<HelpLine>)
    ensures
        help_models(final(out)@) == help_models(old(out)@) + command_rows(COMMANDS@.len()),
{
    let widest: usize = usage_column();
    let ghost start = help_models(out@);
    let ghost want = command_rows(COMMANDS@.len());
    let mut i: usize = 0;
    assert(help_models(out@) =~= start + want.take(0));
    while i < COMMANDS.len()
        invariant
            i <= COMMANDS@.len(),
            widest == widest_usage(COMMANDS@.len() as int),
            want == command_rows(COMMANDS@.len()),
            help_models(out@) == start + want.take(i as int),
        decreases COMMANDS@.len() - i,
    {
        let c = COMMANDS[i];
        let n: usize = bytes_of(c.usage());
        let mut keys = text::concat2("  ", c.usage());
        // Two columns lie between the longest usage and the descriptions.
        let pad: u128 = if widest as u128 + 2 >= n as u128 {
            widest as u128 + 2 - n as u128
        } else {
            0
        };
        let mut k: u128 = 0;
        let ghost lead = keys@;
        assert(keys@ =~= lead + spaces(0));
        while k < pad
            invariant
                k <= pad,
                keys@ == lead + spaces(k as int),
            decreases pad - k,
        {
            keys.push(' ');
            assert(keys@ =~= lead + spaces(k + 1));
            k += 1;
        }
        push_line(out, HelpLine::Row { keys, what: c.description() });
        assert(start + want.take(i + 1) =~= (start + want.take(i as int)).push(want[i as int]));
        i += 1;
    }
    assert(want.take(want.len() as int) =~= want);
}

/// Full help content. Sources key strings from the live keymap so the popup
/// reflects the user's actual bindings.
pub fn help_lines(state: &AppState) -> (r: Vec<HelpLine>)
    ensures
        help_models(r@) == help_page(state@.keys_normal, state@.keys_terminal),
{
    let mut out: Vec<HelpLine> = Vec::new();
    assert(help_models(out@) =~= seq![]);
    push_bindings(&mut out, &state.keymap);
    push_fixed(&mut out);
    push_line(&mut out, HelpLine::Header("COMMANDS"));
    push_commands(&mut out);
    push_line(&mut out, HelpLine::Blank);
    push_line(
        &mut out,
        HelpLine::Dim("  (this list is the source of truth — see /commands.rs)"),
    );
    assert(help_models(out@) =~= help_page(state@.keys_normal, state@.keys_terminal));
    out
}

/// What of the help page is in view.
#[derive(Debug)]
pub struct HelpView {
    /// Rows for the page; one more is for the footer.
    pub rows: u16,
    /// How far the page can be scrolled.
    pub max_scroll: u16,
    /// How far it is scrolled.
    pub scroll: u16,
    pub footer: String,
}

/// The footer of the help page.
pub open spec fn help_footer(scroll: int, max_scroll: int) -> Seq<char> {
    if max_scroll == 0 {
        " j/k or ↑↓ or wheel · Esc close"@
    } else {
        " j/k or ↑↓ or wheel · "@ + text::decimal((scroll + 1) as nat) + "/"@ + text::decimal(
            (max_scroll + 1) as nat,
        ) + " · Esc close"@
    }
}

/// What of a help page of so many lines is in view where `height` rows are free.
pub fn help_view(lines: u16, height: u16, scroll: u16) -> (r: HelpView)
    ensures
        r.rows == less(height as int, 1),
        r.max_scroll == less(lines as int, r.rows as int),
        r.scroll == least(scroll as int, r.max_scroll as int),
        r.footer@ == help_footer(r.scroll as int, r.max_scroll as int),
{
    let rows: u16 = less_u16(height, 1);
    let max_scroll: u16 = less_u16(lines, rows);
    let clipped: u16 = min_u16(scroll, max_scroll);
    let footer = if max_scroll == 0 {
        text::owned(" j/k or ↑↓ or wheel · Esc close")
    } else {
        let mut s = text::concat3(
            " j/k or ↑↓ or wheel · ",
            text::to_decimal(clipped as u64 + 1).as_str(),
            "/",
        );
        s.push_str(text::to_decimal(max_scroll as u64 + 1).as_str());
        s.push_str(" · Esc close");
        s
    };
    HelpView { rows, max_scroll, scroll: clipped, footer }
}

/// Every line of the help page can be scrolled into view, where there is a row
/// for it.
pub proof fn law_the_whole_page_can_be_seen(lines: u16, rows: u16, line: u16)
    requires
        line < lines,
        rows > 0,
    ensures
        exists|scroll: int|
            0 <= scroll <= less(lines as int, rows as int) && scroll <= line < #[trigger] (scroll
                + rows),
{
    let max = less(lines as int, rows as int);
    let scroll = least(line as int, max);
    assert(scroll <= line < scroll + rows);
}

} // verus!
