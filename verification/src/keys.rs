//! What keys do: which popup or mode takes them, and what the bound actions are.

use crate::app::{
    AppModel, AppState, Command, CommandModel, Commands, Mode, PaletteModel, PalettePopup, UiFocus,
};
use crate::cmdline::{command_key, completed, handle_command_key, refresh_command_completion};
use crate::cmdtable::{command_named, find_command};
use crate::commands::{
    self, command_run, edit_opened, launched, opened, palette_opened, removal_asked, usage_opened,
    worktree_asked,
};
use crate::editbox::BoxModel;
use crate::event::{no_mods, KeyCode, KeyEvent, KeyEventKind, KeyModifiers};
use crate::keybinds::{
    canonical_of, meaning_in, BindableAction, Chord, MatchResult, Meaning, Scope,
};
use crate::layout::DEFAULT_SIDEBAR_WIDTH;
use crate::palette::{self, ExecModel, PaletteExec};
use crate::popups::{
    self, confirm_key, cursor_down, cursor_up, edit_key, edit_types, input_key, last_of,
    launch_key, open_key, open_types, shortened,
};
use crate::sidebar::{self, cursor_moved, quiet, selection_activated, Step};
use crate::tabs::{
    self, stepped_width, tab_closed, tab_opened, tab_switched, width_set,
};
use crate::text;
use crate::usage::{handle_usage_popup_key, usage_key};
use vstd::prelude::*;

verus! {

// ---------------------------------------------------------------------------
// Actions
// ---------------------------------------------------------------------------

/// The state in Command mode with an empty line.
pub open spec fn command_mode(m: AppModel) -> AppModel {
    completed(
        AppModel {
            mode: Mode::Command,
            command: seq![],
            command_status: None,
            help_open: false,
            ..m
        },
    )
}

/// What a bound action does.
#[verifier::opaque]
pub open spec fn dispatched(m: AppModel, action: BindableAction) -> Step {
    let none = Seq::<Seq<char>>::empty();
    match action {
        BindableAction::FocusSidebar => quiet(AppModel { ui_focus: UiFocus::Sidebar, ..m }),
        BindableAction::FocusTerminal => quiet(AppModel { ui_focus: UiFocus::Terminal, ..m }),
        BindableAction::SidebarUp => quiet(
            if m.ui_focus is Sidebar {
                cursor_moved(m, false)
            } else {
                m
            },
        ),
        BindableAction::SidebarDown => quiet(
            if m.ui_focus is Sidebar {
                cursor_moved(m, true)
            } else {
                m
            },
        ),
        BindableAction::ActivateSelection => if m.ui_focus is Sidebar {
            selection_activated(m)
        } else {
            quiet(m)
        },
        BindableAction::OpenTab => (m, tab_opened(m)),
        BindableAction::CloseTab => tab_closed(m),
        BindableAction::EnterTerminalMode => quiet(AppModel { mode: Mode::Terminal, ..m }),
        BindableAction::EnterCommandMode => quiet(command_mode(m)),
        BindableAction::NextTab => quiet(tab_switched(m, true)),
        BindableAction::PrevTab => quiet(tab_switched(m, false)),
        BindableAction::SidebarGrow => width_set(m, stepped_width(m.sidebar_width, 2)),
        BindableAction::SidebarShrink => width_set(m, stepped_width(m.sidebar_width, -2)),
        BindableAction::SidebarReset => width_set(m, DEFAULT_SIDEBAR_WIDTH),
        BindableAction::OpenProjectPopup => opened(m, none),
        BindableAction::NewWorktree => worktree_asked(m, none),
        BindableAction::RemoveWorktree => quiet(removal_asked(m)),
        BindableAction::EditProject => quiet(edit_opened(m)),
        BindableAction::LaunchPicker => launched(m, none),
        BindableAction::UsagePopup => usage_opened(m),
        BindableAction::HelpPopup => quiet(AppModel { help_open: true, ..m }),
        BindableAction::CommandPalette => quiet(palette_opened(m)),
        BindableAction::Quit => quiet(AppModel { running: false, ..m }),
        BindableAction::LeaveTerminal => quiet(AppModel { mode: Mode::Normal, ..m }),
    }
}

fn enter_command_mode(state: &mut AppState)
    ensures
        final(state)@ == command_mode(old(state)@),
{
    state.mode = Mode::Command;
    state.command.clear();
    assert(state@.command =~= seq![]);
    state.command_status = None;
    state.help_open = false;
    refresh_command_completion(state);
}

/// Translate a `BindableAction` into existing helpers/commands. All the
/// behaviour lives in those helpers — this is just the name layer.
#[verifier::spinoff_prover]
pub fn dispatch_action(state: &mut AppState, action: BindableAction, cmds: &mut Commands)
    requires
        old(state)@.consistent(),
    ensures
        final(state)@ == dispatched(old(state)@, action).0,
        final(cmds)@ == old(cmds)@ + dispatched(old(state)@, action).1,
{
    proof {
        reveal(dispatched);
    }
    assert(cmds@ =~= old(cmds)@ + Seq::<CommandModel>::empty());
    let none: Vec<String> = Vec::new();
    assert(text::texts(none@) =~= Seq::<Seq<char>>::empty());
    match action {
        BindableAction::FocusSidebar => {
            state.ui_focus = UiFocus::Sidebar;
        },
        BindableAction::FocusTerminal => {
            state.ui_focus = UiFocus::Terminal;
        },
        BindableAction::SidebarUp => {
            if state.ui_focus == UiFocus::Sidebar {
                sidebar::move_sidebar_selection(state, false);
            }
        },
        BindableAction::SidebarDown => {
            if state.ui_focus == UiFocus::Sidebar {
                sidebar::move_sidebar_selection(state, true);
            }
        },
        BindableAction::ActivateSelection => {
            if state.ui_focus == UiFocus::Sidebar {
                sidebar::activate_sidebar_selection(state, cmds);
            }
        },
        BindableAction::OpenTab => tabs::open_new_tab_in_active(state, cmds),
        BindableAction::CloseTab => tabs::close_current_tab(state, cmds),
        BindableAction::EnterTerminalMode => {
            state.mode = Mode::Terminal;
        },
        BindableAction::EnterCommandMode => enter_command_mode(state),
        BindableAction::NextTab => tabs::switch_tab(state, true),
        BindableAction::PrevTab => tabs::switch_tab(state, false),
        BindableAction::SidebarGrow => tabs::apply_sidebar_resize(state, 2, cmds),
        BindableAction::SidebarShrink => tabs::apply_sidebar_resize(state, -2, cmds),
        BindableAction::SidebarReset => tabs::set_sidebar_width(
            state,
            DEFAULT_SIDEBAR_WIDTH,
            cmds,
        ),
        BindableAction::OpenProjectPopup => commands::cmd_open(state, &none, cmds),
        BindableAction::NewWorktree => commands::cmd_worktree(state, &none, cmds),
        BindableAction::RemoveWorktree => commands::cmd_worktree_remove(state),
        BindableAction::EditProject => commands::cmd_edit(state),
        BindableAction::LaunchPicker => commands::cmd_launch(state, &none, cmds),
        BindableAction::UsagePopup => commands::cmd_usage(state, cmds),
        BindableAction::HelpPopup => {
            state.help_open = true;
        },
        BindableAction::CommandPalette => commands::open_palette(state),
        BindableAction::Quit => {
            state.running = false;
        },
        BindableAction::LeaveTerminal => {
            state.mode = Mode::Normal;
        },
    }
}

// ---------------------------------------------------------------------------
// The command palette
// ---------------------------------------------------------------------------

/// A palette with another query: its entries are filtered anew and the best is
/// highlighted.
pub open spec fn queried(p: PaletteModel, query: Seq<char>) -> PaletteModel {
    PaletteModel { query, filtered: palette::matching(p.entries, query), cursor: 0, ..p }
}

/// The entry that is highlighted.
pub open spec fn chosen(p: PaletteModel) -> Option<ExecModel> {
    if p.cursor < p.filtered.len() && p.filtered[p.cursor as int] < p.entries.len() {
        Some(p.entries[p.filtered[p.cursor as int] as int].run)
    } else {
        None
    }
}

/// What running an entry does.
#[verifier::opaque]
pub open spec fn entry_run(m: AppModel, run: ExecModel) -> Step {
    match run {
        ExecModel::Action(a) => dispatched(m, a),
        ExecModel::Command(name) => match command_named(name) {
            Some(c) => command_run(m, c, seq![]),
            None => quiet(m),
        },
        ExecModel::Prefill(name) => quiet(
            completed(
                AppModel {
                    mode: Mode::Command,
                    command: name.push(' '),
                    command_status: None,
                    ..m
                },
            ),
        ),
    }
}

/// Whether a key moves the palette's highlight, and whether that is down: ↑/↓,
/// or Ctrl-P/Ctrl-N.
pub open spec fn palette_motion(k: KeyEvent) -> Option<bool> {
    let held = k.modifiers.control;
    if k.code == KeyCode::Down || (held && k.code == KeyCode::Char('n')) {
        Some(true)
    } else if k.code == KeyCode::Up || (held && k.code == KeyCode::Char('p')) {
        Some(false)
    } else {
        None
    }
}

/// A palette with the highlight moved.
pub open spec fn palette_moved(p: PaletteModel, down: bool) -> PaletteModel {
    PaletteModel {
        cursor: if down {
            cursor_down(p.cursor, last_of(p.filtered.len()))
        } else {
            cursor_up(p.cursor)
        },
        ..p
    }
}

/// A palette after a key that neither closes it nor runs an entry.
pub open spec fn palette_edited(p: PaletteModel, k: KeyEvent) -> PaletteModel {
    match palette_motion(k) {
        Some(down) => palette_moved(p, down),
        None => match k.code {
            KeyCode::Backspace => queried(p, shortened(p.query)),
            KeyCode::Char(c) => if k.modifiers.types_text() {
                queried(p, p.query.push(c))
            } else {
                p
            },
            _ => p,
        },
    }
}

/// What a key does in the palette: typing narrows the entries, ↑/↓ move, Enter
/// closes the palette and runs the highlighted entry, Esc closes it.
pub open spec fn palette_key(m: AppModel, k: KeyEvent) -> Step {
    match m.palette_popup {
        Some(p) => match k.code {
            KeyCode::Esc => quiet(AppModel { palette_popup: None, ..m }),
            KeyCode::Enter => {
                let m1 = AppModel { palette_popup: None, ..m };
                match chosen(p) {
                    Some(run) => entry_run(m1, run),
                    None => quiet(m1),
                }
            },
            _ => quiet(AppModel { palette_popup: Some(palette_edited(p, k)), ..m }),
        },
        None => quiet(m),
    }
}

fn requery(popup: &mut PalettePopup)
    ensures
        final(popup)@ == queried(old(popup)@, old(popup)@.query),
{
    popup.filtered = palette::filter(&popup.entries, popup.query.as_str());
    popup.cursor = 0;
}

fn move_palette(popup: &mut PalettePopup, down: bool)
    ensures
        final(popup)@ == palette_moved(old(popup)@, down),
{
    if down {
        let n: usize = popup.filtered.len();
        let last: u16 = if n > 0 {
            (n - 1) as u16
        } else {
            0
        };
        popup.cursor = if popup.cursor < last {
            popup.cursor + 1
        } else {
            last
        };
    } else if popup.cursor > 0 {
        popup.cursor = popup.cursor - 1;
    }
}

fn edit_palette(popup: &mut PalettePopup, k: KeyEvent)
    ensures
        final(popup)@ == palette_edited(old(popup)@, k),
{
    let held = k.modifiers.control;
    if k.code == KeyCode::Down || (held && k.code == KeyCode::Char('n')) {
        move_palette(popup, true);
        return;
    }
    if k.code == KeyCode::Up || (held && k.code == KeyCode::Char('p')) {
        move_palette(popup, false);
        return;
    }
    match k.code {
        KeyCode::Backspace => {
            let _ = popup.query.pop();
            requery(popup);
        },
        KeyCode::Char(c) => {
            if k.modifiers.is_plain_or_shift() {
                popup.query.push(c);
                requery(popup);
            }
        },
        _ => {},
    }
}

fn chosen_entry(popup: &PalettePopup) -> (r: Option<PaletteExec>)
    ensures
        match (r, chosen(popup@)) {
            (Some(a), Some(b)) => a@ == b,
            (None, None) => true,
            _ => false,
        },
{
    let at: usize = popup.cursor as usize;
    if at < popup.filtered.len() {
        let i: usize = popup.filtered[at];
        if i < popup.entries.len() {
            assert(popup@.entries[i as int] == popup.entries@[i as int]@);
            return Some(popup.entries[i].run);
        }
    }
    None
}

fn run_entry(state: &mut AppState, run: PaletteExec, cmds: &mut Commands)
    requires
        old(state)@.consistent(),
    ensures
        final(state)@ == entry_run(old(state)@, run@).0,
        final(cmds)@ == old(cmds)@ + entry_run(old(state)@, run@).1,
{
    proof {
        reveal(entry_run);
    }
    match run {
        PaletteExec::Action(a) => dispatch_action(state, a, cmds),
        PaletteExec::Command(name) => {
            let none: Vec<String> = Vec::new();
            assert(text::texts(none@) =~= Seq::<Seq<char>>::empty());
            match find_command(name) {
                Some(c) => commands::run_command(state, c, &none, cmds),
                None => {
                    assert(cmds@ =~= old(cmds)@ + Seq::<CommandModel>::empty());
                },
            }
        },
        PaletteExec::Prefill(name) => {
            let mut line = text::owned(name);
            line.push(' ');
            state.mode = Mode::Command;
            state.command = line;
            state.command_status = None;
            refresh_command_completion(state);
            assert(cmds@ =~= old(cmds)@ + Seq::<CommandModel>::empty());
        },
    }
}

/// What a key does while the palette is open.
pub fn handle_palette_key(state: &mut AppState, k: KeyEvent, cmds: &mut Commands)
    requires
        old(state)@.consistent(),
    ensures
        final(state)@ == palette_key(old(state)@, k).0,
        final(cmds)@ == old(cmds)@ + palette_key(old(state)@, k).1,
{
    assert(cmds@ =~= old(cmds)@ + Seq::<CommandModel>::empty());
    if state.palette_popup.is_none() {
        return;
    }
    if k.code == KeyCode::Esc {
        state.palette_popup = None;
        return;
    }
    if k.code == KeyCode::Enter {
        let taken = state.palette_popup.take();
        if let Some(popup) = taken {
            if let Some(run) = chosen_entry(&popup) {
                run_entry(state, run, cmds);
            }
        }
        return;
    }
    if let Some(popup) = &mut state.palette_popup {
        edit_palette(popup, k);
    }
}

// ---------------------------------------------------------------------------
// Normal and Terminal mode
// ---------------------------------------------------------------------------

/// What a key does in Normal mode: it goes on with a chord. A chord that is
/// complete fires its action; one that leads nowhere is dropped. Esc drops the
/// chord in progress.
pub open spec fn normal_key(m: AppModel, k: KeyEvent) -> Step {
    if k.code == KeyCode::Esc {
        quiet(AppModel { pending_chord: seq![], ..m })
    } else {
        let keys = m.pending_chord.push(canonical_of(k.modifiers, k.code));
        match meaning_in(m.keys_normal, keys) {
            Meaning::Exact(a) => dispatched(AppModel { pending_chord: seq![], ..m }, a),
            Meaning::Prefix => quiet(AppModel { pending_chord: keys, ..m }),
            Meaning::Nothing => quiet(AppModel { pending_chord: seq![], ..m }),
        }
    }
}

/// Normal-mode key handling. Builds up a multi-key chord against the live
/// keymap; on exact match, fires the action; on prefix match, waits for the
/// next key; otherwise discards.
#[verifier::spinoff_prover]
pub fn handle_normal_key(state: &mut AppState, k: KeyEvent, cmds: &mut Commands)
    requires
        old(state)@.consistent(),
    ensures
        final(state)@ == normal_key(old(state)@, k).0,
        final(cmds)@ == old(cmds)@ + normal_key(old(state)@, k).1,
{
    assert(cmds@ =~= old(cmds)@ + Seq::<CommandModel>::empty());
    if k.code == KeyCode::Esc {
        state.pending_chord.clear();
        return;
    }
    state.pending_chord.push(Chord::from_event(&k));
    let fired = match state.keymap.lookup(Scope::Normal, state.pending_chord.chords()) {
        MatchResult::Exact(a) => Some(a),
        MatchResult::Prefix(_) => return,
        MatchResult::NoMatch => None,
    };
    state.pending_chord.clear();
    if let Some(a) = fired {
        assert(state@ == (AppModel { pending_chord: seq![], ..old(state)@ }));
        dispatch_action(state, a, cmds);
    }
}

/// Ctrl-\, which some terminals report as Ctrl-4.
pub open spec fn ctrl_backslash(k: KeyEvent) -> bool {
    k.modifiers.control && (k.code == KeyCode::Char('\\') || k.code == KeyCode::Char('4'))
}

/// A key event with Ctrl-\ in its one canonical form.
pub open spec fn normalised(k: KeyEvent) -> KeyEvent {
    if ctrl_backslash(k) {
        KeyEvent {
            code: KeyCode::Char('\\'),
            modifiers: KeyModifiers { control: true, ..no_mods() },
            kind: KeyEventKind::Press,
        }
    } else {
        k
    }
}

fn normalise(k: KeyEvent) -> (r: KeyEvent)
    ensures
        r == normalised(k),
{
    if k.modifiers.control && (k.code == KeyCode::Char('\\') || k.code == KeyCode::Char('4')) {
        KeyEvent::new(KeyCode::Char('\\'), KeyModifiers::control())
    } else {
        k
    }
}

/// The keys written to a session, in order.
pub open spec fn writes(id: u64, keys: Seq<KeyEvent>) -> Seq<CommandModel> {
    Seq::new(keys.len(), |i: int| CommandModel::WriteKey(id, keys[i]))
}

/// What a key does in Terminal mode: keys that may be a chord are held back; a
/// chord that is complete fires its action and its keys are dropped; keys that
/// are no chord go to the session in the order they came.
pub open spec fn terminal_key(m: AppModel, k: KeyEvent) -> Step {
    let key = normalised(k);
    let chords = m.pending_chord.push(canonical_of(key.modifiers, key.code));
    let held = m.pending_terminal_keys.push(key);
    let idle = AppModel { pending_chord: seq![], pending_terminal_keys: seq![], ..m };
    match meaning_in(m.keys_terminal, chords) {
        Meaning::Exact(a) => dispatched(idle, a),
        Meaning::Prefix => quiet(
            AppModel { pending_chord: chords, pending_terminal_keys: held, ..m },
        ),
        Meaning::Nothing => match m.focused_session() {
            Some(id) => (idle, writes(id, held)),
            None => quiet(idle),
        },
    }
}

fn replay(state: &AppState, id: u64, cmds: &mut Commands)
    ensures
        final(cmds)@ == old(cmds)@ + writes(id, state@.pending_terminal_keys),
{
    let keys = state.pending_terminal_keys.keys();
    let ghost want = writes(id, keys@);
    let mut i: usize = 0;
    assert(cmds@ =~= old(cmds)@ + want.take(0));
    while i < keys.len()
        invariant
            i <= keys.len(),
            want == writes(id, keys@),
            cmds@ == old(cmds)@ + want.take(i as int),
        decreases keys.len() - i,
    {
        cmds.push(Command::WriteKey(id, keys[i]));
        assert(old(cmds)@ + want.take(i + 1) =~= (old(cmds)@ + want.take(i as int)).push(
            want[i as int],
        ));
        i += 1;
    }
    assert(want.take(want.len() as int) =~= want);
}

/// What a key does in Terminal mode.
#[verifier::spinoff_prover]
pub fn handle_terminal_key(state: &mut AppState, k: KeyEvent, cmds: &mut Commands)
    requires
        old(state)@.consistent(),
    ensures
        final(state)@ == terminal_key(old(state)@, k).0,
        final(cmds)@ == old(cmds)@ + terminal_key(old(state)@, k).1,
{
    assert(cmds@ =~= old(cmds)@ + Seq::<CommandModel>::empty());
    let key = normalise(k);
    state.pending_chord.push(Chord::from_event(&key));
    state.pending_terminal_keys.push(key);
    let fired = match state.keymap.lookup(Scope::Terminal, state.pending_chord.chords()) {
        MatchResult::Exact(a) => Some(a),
        MatchResult::Prefix(_) => return,
        MatchResult::NoMatch => None,
    };
    if fired.is_none() {
        let focused = state.focused_session_id();
        assert(focused == old(state)@.focused_session());
        if let Some(id) = focused {
            replay(state, id, cmds);
        }
    }
    state.pending_chord.clear();
    state.pending_terminal_keys.clear();
    if let Some(a) = fired {
        assert(state@ == (AppModel {
            pending_chord: seq![],
            pending_terminal_keys: seq![],
            ..old(state)@
        }));
        dispatch_action(state, a, cmds);
    }
}

/// Keys that are no chord reach the session once each and in order: nothing is
/// lost and nothing is held back.
pub proof fn law_rejected_chords_are_replayed(m: AppModel, k: KeyEvent, id: u64)
    requires
        meaning_in(
            m.keys_terminal,
            m.pending_chord.push(canonical_of(normalised(k).modifiers, normalised(k).code)),
        ) is Nothing,
        m.focused_session() == Some(id),
    ensures
        terminal_key(m, k).1 == writes(id, m.pending_terminal_keys.push(normalised(k))),
        terminal_key(m, k).0.pending_terminal_keys.len() == 0,
        terminal_key(m, k).0.pending_chord.len() == 0,
        terminal_key(m, k).0.mode == m.mode,
{
}

// ---------------------------------------------------------------------------
// Help, and who takes a key
// ---------------------------------------------------------------------------

/// The help page scrolled by `delta` rows, as far as it goes.
pub open spec fn help_scrolled(m: AppModel, delta: int) -> AppModel {
    let next = m.help_scroll + delta;
    AppModel {
        help_scroll: if next < 0 {
            0
        } else if next > m.help_max_scroll {
            m.help_max_scroll
        } else {
            next as u16
        },
        ..m
    }
}

/// Clamp the help popup's scroll offset against the last `max_scroll` the
/// renderer reported.
pub fn bump_help_scroll(state: &mut AppState, delta: i32)
    requires
        old(state)@.help_scroll + delta <= i32::MAX,
    ensures
        final(state)@ == help_scrolled(old(state)@, delta as int),
{
    let next: i32 = state.help_scroll as i32 + delta;
    let max: i32 = state.help_max_scroll as i32;
    state.help_scroll = if next < 0 {
        0
    } else if next > max {
        state.help_max_scroll
    } else {
        next as u16
    };
}

/// The state with the help page closed.
pub open spec fn help_closed(m: AppModel) -> AppModel {
    AppModel { help_open: false, help_scroll: 0, ..m }
}

/// The help page after a key, where it keeps the key for itself; `:` and `i`
/// close it and go on to what they do without it.
pub open spec fn help_key(m: AppModel, code: KeyCode) -> Option<AppModel> {
    if code == KeyCode::Char(':') || code == KeyCode::Char('i') {
        None
    } else if code == KeyCode::Esc || code == KeyCode::Char('q') {
        Some(help_closed(m))
    } else if code == KeyCode::Char('j') || code == KeyCode::Down {
        Some(help_scrolled(m, 1))
    } else if code == KeyCode::Char('k') || code == KeyCode::Up {
        Some(help_scrolled(m, -1))
    } else if code == KeyCode::PageDown {
        Some(help_scrolled(m, 10))
    } else if code == KeyCode::PageUp {
        Some(help_scrolled(m, -10))
    } else if code == KeyCode::Home {
        Some(AppModel { help_scroll: 0, ..m })
    } else if code == KeyCode::End {
        Some(AppModel { help_scroll: m.help_max_scroll, ..m })
    } else {
        Some(m)
    }
}

fn handle_help_key(state: &mut AppState, code: KeyCode) -> (kept: bool)
    ensures
        kept <==> help_key(old(state)@, code) is Some,
        final(state)@ == (match help_key(old(state)@, code) {
            Some(m) => m,
            None => help_closed(old(state)@),
        }),
{
    match code {
        KeyCode::Esc | KeyCode::Char('q') => {
            state.help_open = false;
            state.help_scroll = 0;
        },
        KeyCode::Char('j') | KeyCode::Down => bump_help_scroll(state, 1),
        KeyCode::Char('k') | KeyCode::Up => bump_help_scroll(state, -1),
        KeyCode::PageDown => bump_help_scroll(state, 10),
        KeyCode::PageUp => bump_help_scroll(state, -10),
        KeyCode::Home => {
            state.help_scroll = 0;
        },
        KeyCode::End => {
            state.help_scroll = state.help_max_scroll;
        },
        KeyCode::Char(':') | KeyCode::Char('i') => {
            state.help_open = false;
            state.help_scroll = 0;
            return false;
        },
        _ => {},
    }
    true
}

/// What a key does that no large popup takes: an input takes it, then a
/// confirmation in Normal mode, then the mode.
pub open spec fn plain_key(m: AppModel, k: KeyEvent) -> Step {
    if m.popup is Some {
        input_key(m, k)
    } else if m.pending_confirm is Some && m.mode is Normal {
        confirm_key(m, k)
    } else {
        match m.mode {
            Mode::Normal => normal_key(m, k),
            Mode::Terminal => terminal_key(m, k),
            Mode::Command => command_key(m, k),
        }
    }
}

/// What a key does: the first popup that is open takes it, in this order.
pub open spec fn key_step(m: AppModel, k: KeyEvent, typed: BoxModel) -> Step {
    if m.usage_popup is Some {
        usage_key(m, k)
    } else if m.edit_popup is Some {
        edit_key(m, k, typed)
    } else if m.open_project_popup is Some {
        open_key(m, k, typed)
    } else if m.launch_popup is Some {
        launch_key(m, k)
    } else if m.palette_popup is Some {
        palette_key(m, k)
    } else if m.help_open {
        match help_key(m, k.code) {
            Some(m1) => quiet(m1),
            None => plain_key(help_closed(m), k),
        }
    } else {
        plain_key(m, k)
    }
}

/// What an edit box may hold after the key, where the key goes to one.
pub open spec fn key_types(m: AppModel, k: KeyEvent, typed: BoxModel) -> bool {
    if m.usage_popup is Some {
        true
    } else if m.edit_popup is Some {
        edit_types(m, k, typed)
    } else {
        open_types(m, k, typed)
    }
}

fn handle_plain_key(state: &mut AppState, k: KeyEvent, cmds: &mut Commands)
    requires
        old(state)@.consistent(),
    ensures
        final(state)@ == plain_key(old(state)@, k).0,
        final(cmds)@ == old(cmds)@ + plain_key(old(state)@, k).1,
{
    if state.popup.is_some() {
        popups::handle_popup_key(state, k, cmds);
        return;
    }
    if state.pending_confirm.is_some() && state.mode == Mode::Normal {
        popups::handle_pending_confirm_key(state, k, cmds);
        return;
    }
    match state.mode {
        Mode::Normal => handle_normal_key(state, k, cmds),
        Mode::Terminal => handle_terminal_key(state, k, cmds),
        Mode::Command => handle_command_key(state, k, cmds),
    }
}

/// What a key does.
#[verifier::spinoff_prover]
pub fn handle_key(state: &mut AppState, k: KeyEvent, cmds: &mut Commands)
    requires
        old(state)@.consistent(),
    ensures
        exists|typed: BoxModel| #[trigger]
            key_types(old(state)@, k, typed) && final(state)@ == key_step(
                old(state)@,
                k,
                typed,
            ).0 && final(cmds)@ == old(cmds)@ + key_step(old(state)@, k, typed).1,
{
    let ghost any = crate::editbox::fresh_box(seq![]);
    let ghost m = state@;
    if state.usage_popup.is_some() {
        handle_usage_popup_key(state, k, cmds);
        assert(key_types(m, k, any));
        return;
    }
    if state.edit_popup.is_some() {
        popups::handle_edit_popup_key(state, k, cmds);
        proof {
            let typed = choose|typed: BoxModel| #[trigger]
                edit_types(m, k, typed) && state@ == edit_key(m, k, typed).0 && cmds@ == old(
                    cmds,
                )@ + edit_key(m, k, typed).1;
            assert(key_types(m, k, typed));
        }
        return;
    }
    if state.open_project_popup.is_some() {
        popups::handle_open_project_popup_key(state, k, cmds);
        proof {
            let typed = choose|typed: BoxModel| #[trigger]
                open_types(m, k, typed) && state@ == open_key(m, k, typed).0 && cmds@ == old(
                    cmds,
                )@ + open_key(m, k, typed).1;
            assert(key_types(m, k, typed));
        }
        return;
    }
    assert(key_types(m, k, any));
    if state.launch_popup.is_some() {
        popups::handle_launch_popup_key(state, k, cmds);
        return;
    }
    if state.palette_popup.is_some() {
        handle_palette_key(state, k, cmds);
        return;
    }
    if state.help_open {
        if handle_help_key(state, k.code) {
            assert(cmds@ =~= old(cmds)@ + Seq::<CommandModel>::empty());
            return;
        }
    }
    handle_plain_key(state, k, cmds);
}

} // verus!
