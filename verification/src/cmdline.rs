//! The `:` command line: editing, completion, running.

use crate::app::{
    str_pairs, AppModel, AppState, CommandCompletion, CommandModel, Commands, CompletionModel, Mode,
};
use crate::cmdtable::COMMANDS;
use crate::commands::{execute_command, line_run};
use crate::event::{KeyCode, KeyEvent};
use crate::popups::shortened;
use crate::sidebar::{quiet, Step};
use crate::text;
use vstd::prelude::*;

verus! {

/// The names and descriptions of those of the first `n` commands whose name
/// starts with `prefix`.
pub open spec fn completions(prefix: Seq<char>, n: nat) -> Seq<(Seq<char>, Seq<char>)>
    decreases n,
{
    if n == 0 {
        seq![]
    } else {
        let front = completions(prefix, (n - 1) as nat);
        let c = COMMANDS[n - 1];
        if text::has_prefix(c.name_text(), prefix) {
            front.push((c.name_text(), c.description_text()))
        } else {
            front
        }
    }
}

/// The suggestions for a command line: the commands whose name starts with it,
/// none of them highlighted; no suggestions once it holds white space, or where
/// no command matches.
pub open spec fn suggested(line: Seq<char>) -> Option<CompletionModel> {
    let found = completions(line, COMMANDS.len() as nat);
    if text::has_white(line) || found.len() == 0 {
        None
    } else {
        Some(CompletionModel { matches: found, selected: None })
    }
}

/// The state with the suggestions for its command line.
pub open spec fn completed(m: AppModel) -> AppModel {
    AppModel { command_completion: suggested(m.command), ..m }
}

fn matching_commands(prefix: &str) -> (r: Vec<(&'static str, &'static str)>)
    ensures
        str_pairs(r@) == completions(prefix@, COMMANDS.len() as nat),
{
    let mut out: Vec<(&'static str, &'static str)> = Vec::new();
    let mut i: usize = 0;
    assert(str_pairs(out@) =~= completions(prefix@, 0));
    while i < COMMANDS.len()
        invariant
            i <= COMMANDS.len(),
            str_pairs(out@) == completions(prefix@, i as nat),
        decreases COMMANDS.len() - i,
    {
        let ghost before = out@;
        let c = COMMANDS[i];
        if text::starts_with(c.name(), prefix) {
            out.push((c.name(), c.description()));
            assert(str_pairs(out@) =~= str_pairs(before).push(
                (c.name_text(), c.description_text()),
            ));
        }
        i += 1;
    }
    out
}

/// Recompute the suggestion list based on the current `state.command` buffer.
/// Suggestions are shown only while editing the first whitespace-separated
/// token (the command name); once the user types a space they're in
/// argument-land and the popover hides.
pub fn refresh_command_completion(state: &mut AppState)
    ensures
        final(state)@ == completed(old(state)@),
{
    if text::contains_white(state.command.as_str()) {
        state.command_completion = None;
        return;
    }
    let matches = matching_commands(state.command.as_str());
    assert(str_pairs(matches@).len() == matches@.len());
    if matches.len() == 0 {
        state.command_completion = None;
    } else {
        state.command_completion = Some(CommandCompletion { matches, selected: None });
    }
}

/// The suggestion highlighted next, going round at the ends: the first (or the
/// last) where none is.
pub open spec fn highlighted(c: CompletionModel, forward: bool) -> CompletionModel {
    let n = c.matches.len() as int;
    if n == 0 {
        c
    } else {
        CompletionModel {
            selected: Some(
                (match c.selected {
                    Some(i) => crate::tabs::neighbour(i as int, forward, n),
                    None => if forward {
                        0
                    } else {
                        n - 1
                    },
                }) as usize,
            ),
            ..c
        }
    }
}

/// The state with the next (or the previous) suggestion highlighted.
pub open spec fn completion_cycled(m: AppModel, forward: bool) -> AppModel {
    match m.command_completion {
        Some(c) => AppModel { command_completion: Some(highlighted(c, forward)), ..m },
        None => m,
    }
}

fn cycle(comp: &mut CommandCompletion, forward: bool)
    ensures
        final(comp)@ == highlighted(old(comp)@, forward),
{
    let n: usize = comp.matches.len();
    if n == 0 {
        return;
    }
    let next: usize = match comp.selected {
        None => if forward {
            0
        } else {
            n - 1
        },
        Some(i) => {
            let c: usize = i % n;
            if forward {
                if c < n - 1 {
                    c + 1
                } else {
                    0
                }
            } else if c > 0 {
                c - 1
            } else {
                n - 1
            }
        },
    };
    comp.selected = Some(next);
}

/// Highlights the next (or the previous) suggestion.
pub fn cycle_command_completion(state: &mut AppState, forward: bool)
    ensures
        final(state)@ == completion_cycled(old(state)@, forward),
{
    if let Some(comp) = &mut state.command_completion {
        cycle(comp, forward);
    }
}

/// The name that Enter takes over: that of the suggestion that is highlighted.
pub open spec fn accepted(m: AppModel) -> Option<Seq<char>> {
    match m.command_completion {
        Some(c) => match c.selected {
            Some(i) => if i < c.matches.len() {
                Some(c.matches[i as int].0)
            } else {
                None
            },
            None => None,
        },
        None => None,
    }
}

/// What Enter does: it takes over the highlighted suggestion, or runs the line.
pub open spec fn line_entered(m: AppModel) -> Step {
    match accepted(m) {
        Some(name) => quiet(completed(AppModel { command: name, ..m })),
        None => line_run(
            AppModel {
                command: seq![],
                command_completion: None,
                mode: Mode::Normal,
                ..m
            },
            text::trimmed(m.command),
        ),
    }
}

fn highlighted_name(state: &AppState) -> (r: Option<&'static str>)
    ensures
        match (r, accepted(state@)) {
            (Some(a), Some(b)) => a@ == b,
            (None, None) => true,
            _ => false,
        },
{
    match &state.command_completion {
        Some(comp) => match comp.selected {
            Some(i) => if i < comp.matches.len() {
                assert(comp@.matches[i as int].0 == comp.matches@[i as int].0@);
                Some(comp.matches[i].0)
            } else {
                None
            },
            None => None,
        },
        None => None,
    }
}

fn enter_line(state: &mut AppState, cmds: &mut Commands)
    requires
        old(state)@.consistent(),
    ensures
        final(state)@ == line_entered(old(state)@).0,
        final(cmds)@ == old(cmds)@ + line_entered(old(state)@).1,
{
    if let Some(name) = highlighted_name(state) {
        state.command = text::owned(name);
        state.command_completion = None;
        refresh_command_completion(state);
        assert(cmds@ =~= old(cmds)@ + Seq::<CommandModel>::empty());
        return;
    }
    let line = text::trim(state.command.as_str());
    state.command.clear();
    assert(state@.command =~= seq![]);
    state.command_completion = None;
    state.mode = Mode::Normal;
    execute_command(state, line.as_str(), cmds);
}

/// What a key does in Command mode. The first Esc dismisses the suggestions, a
/// second one leaves the mode.
pub open spec fn command_key(m: AppModel, k: KeyEvent) -> Step {
    match k.code {
        KeyCode::Char(c) => if k.modifiers.types_text() {
            quiet(completed(AppModel { command: m.command.push(c), ..m }))
        } else {
            quiet(m)
        },
        KeyCode::Backspace => quiet(completed(AppModel { command: shortened(m.command), ..m })),
        KeyCode::Tab | KeyCode::Down => quiet(completion_cycled(m, true)),
        KeyCode::BackTab | KeyCode::Up => quiet(completion_cycled(m, false)),
        KeyCode::Enter => line_entered(m),
        KeyCode::Esc => if m.command_completion is Some {
            quiet(AppModel { command_completion: None, ..m })
        } else {
            quiet(AppModel { command: seq![], mode: Mode::Normal, ..m })
        },
        _ => quiet(m),
    }
}

/// What a key does in Command mode.
pub fn handle_command_key(state: &mut AppState, k: KeyEvent, cmds: &mut Commands)
    requires
        old(state)@.consistent(),
    ensures
        final(state)@ == command_key(old(state)@, k).0,
        final(cmds)@ == old(cmds)@ + command_key(old(state)@, k).1,
{
    assert(cmds@ =~= old(cmds)@ + Seq::<CommandModel>::empty());
    match k.code {
        KeyCode::Char(c) => {
            if k.modifiers.is_plain_or_shift() {
                state.command.push(c);
                refresh_command_completion(state);
            }
        },
        KeyCode::Backspace => {
            let _ = state.command.pop();
            refresh_command_completion(state);
        },
        KeyCode::Tab | KeyCode::Down => cycle_command_completion(state, true),
        KeyCode::BackTab | KeyCode::Up => cycle_command_completion(state, false),
        KeyCode::Enter => enter_line(state, cmds),
        KeyCode::Esc => {
            if state.command_completion.is_some() {
                state.command_completion = None;
            } else {
                state.command.clear();
                assert(state@.command =~= seq![]);
                state.mode = Mode::Normal;
            }
        },
        _ => {},
    }
}

/// The first `n` characters of `s` that are no control characters.
pub open spec fn printable(s: Seq<char>, n: nat) -> Seq<char>
    decreases n,
{
    if n == 0 {
        seq![]
    } else {
        let front = printable(s, (n - 1) as nat);
        if text::is_control(s[n - 1]) {
            front
        } else {
            front.push(s[n - 1])
        }
    }
}

/// The state after a paste into the command line: control characters, newlines
/// among them, are left out, so that a paste cannot submit the line.
pub open spec fn line_pasted(m: AppModel, s: Seq<char>) -> AppModel {
    completed(AppModel { command: m.command + printable(s, s.len()), ..m })
}

/// Pastes into the command line.
pub fn paste_into_line(state: &mut AppState, pasted: &str)
    ensures
        final(state)@ == line_pasted(old(state)@, pasted@),
{
    let v = text::chars_of(pasted);
    let ghost start = state.command@;
    let mut i: usize = 0;
    assert(state@ == (AppModel { command: start + printable(pasted@, 0), ..old(state)@ })) by {
        assert(start + printable(pasted@, 0) =~= start);
    }
    while i < v.len()
        invariant
            i <= v.len(),
            v@ == pasted@,
            state@ == (AppModel { command: start + printable(pasted@, i as nat), ..old(state)@ }),
        decreases v.len() - i,
    {
        if !text::control(v[i]) {
            state.command.push(v[i]);
        }
        assert(state.command@ =~= start + printable(pasted@, (i + 1) as nat));
        i += 1;
    }
    refresh_command_completion(state);
}

/// A paste puts no control character into the command line.
pub proof fn law_pastes_hold_no_control_characters(s: Seq<char>, n: nat, i: int)
    requires
        n <= s.len(),
        0 <= i < printable(s, n).len(),
    ensures
        !text::is_control(printable(s, n)[i]),
    decreases n,
{
    if n > 0 {
        let front = printable(s, (n - 1) as nat);
        if i < front.len() {
            law_pastes_hold_no_control_characters(s, (n - 1) as nat, i);
        }
    }
}

} // verus!
