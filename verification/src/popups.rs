//! The keys of the modal popups and of the inline confirmation.

use crate::app::{
    opt_view, AppModel, AppState, BrowserModel, Command, CommandModel, Commands,
    ConfirmModel, EditModel, InputModel, InputPopup, LaunchModel, OpenModel, OpenProjectFocus,
    OpenProjectPopup, PendingConfirm, PopupAction, ProjectModel,
};
use crate::commands::told;
use crate::editbox::{took_key, BoxModel};
use crate::event::{KeyCode, KeyEvent};
use crate::mutate;
use crate::paths;
use crate::session::{without, SessionId};
use crate::sidebar::{quiet, Step};
use crate::tabs::{self, emptied, spawn_in};
use crate::text;
use vstd::prelude::*;

verus! {

/// Ctrl-S, which saves or submits.
pub open spec fn is_save(k: KeyEvent) -> bool {
    k.modifiers.control && (k.code == KeyCode::Char('s') || k.code == KeyCode::Char('S'))
}

fn save_key(k: KeyEvent) -> (r: bool)
    ensures
        r == is_save(k),
{
    k.modifiers.control && (k.code == KeyCode::Char('s') || k.code == KeyCode::Char('S'))
}

// ---------------------------------------------------------------------------
// The setup-script editor
// ---------------------------------------------------------------------------

/// A text that is there unless it is empty.
pub open spec fn unless_empty(s: Seq<char>) -> Option<Seq<char>> {
    if s.len() == 0 {
        None
    } else {
        Some(s)
    }
}

fn keep_unless_empty(s: String) -> (r: Option<String>)
    ensures
        opt_view(r) == unless_empty(s@),
        text::opt_text(r) == unless_empty(s@),
{
    if s.as_str().is_empty() {
        None
    } else {
        Some(s)
    }
}

/// What saving the edited script does: the lines become the project's setup
/// script, without newlines at the end; nothing left means no script.
pub open spec fn script_saved(m: AppModel, popup: EditModel) -> Step {
    let m1 = AppModel { edit_popup: None, ..m };
    let script = text::strip_newlines(text::join(popup.textarea.lines, "\n"@));
    let p = popup.project_idx;
    if p < m.projects.len() {
        let project = m.projects[p as int];
        (
            told(
                m1.with_project(
                    p,
                    ProjectModel { setup_script: unless_empty(script), ..project },
                ),
                "saved setup script for '"@ + project.name + "'"@,
            ),
            seq![CommandModel::SaveProjectConfig(p)],
        )
    } else {
        quiet(m1)
    }
}

/// What a key does in the editor: Esc cancels, Ctrl-S saves, any other key goes
/// to the text, which then is `typed`.
pub open spec fn edit_key(m: AppModel, k: KeyEvent, typed: BoxModel) -> Step {
    match m.edit_popup {
        Some(popup) => if k.code == KeyCode::Esc {
            quiet(AppModel { edit_popup: None, ..m })
        } else if is_save(k) {
            script_saved(m, popup)
        } else {
            quiet(AppModel { edit_popup: Some(EditModel { textarea: typed, ..popup }), ..m })
        },
        None => quiet(m),
    }
}

/// What the text may be after the key.
pub open spec fn edit_types(m: AppModel, k: KeyEvent, typed: BoxModel) -> bool {
    m.edit_popup matches Some(popup) ==> k.code != KeyCode::Esc && !is_save(k) ==> took_key(
        popup.textarea,
        k,
        typed,
    )
}

/// What a key does while the editor is open.
pub fn handle_edit_popup_key(state: &mut AppState, k: KeyEvent, cmds: &mut Commands)
    ensures
        exists|typed: BoxModel| #[trigger]
            edit_types(old(state)@, k, typed) && final(state)@ == edit_key(
                old(state)@,
                k,
                typed,
            ).0 && final(cmds)@ == old(cmds)@ + edit_key(old(state)@, k, typed).1,
{
    assert(cmds@ =~= old(cmds)@ + Seq::<CommandModel>::empty());
    if state.edit_popup.is_none() || k.code == KeyCode::Esc || save_key(k) {
        let ghost any = crate::editbox::fresh_box(seq![]);
        assert(edit_types(old(state)@, k, any));
        if k.code == KeyCode::Esc {
            state.edit_popup = None;
            return;
        }
        let taken = state.edit_popup.take();
        if let Some(popup) = taken {
            let script = text::without_final_newlines(popup.textarea.text().as_str());
            let p: usize = popup.project_idx;
            if p < state.projects.len() {
                let msg = text::concat3(
                    "saved setup script for '",
                    state.projects[p].name.as_str(),
                    "'",
                );
                mutate::set_script(state, p, keep_unless_empty(script));
                state.command_status = Some(msg);
                cmds.push(Command::SaveProjectConfig(p));
                assert(cmds@ =~= old(cmds)@ + seq![CommandModel::SaveProjectConfig(p)]);
            }
        }
        return;
    }
    if let Some(popup) = &mut state.edit_popup {
        popup.textarea.input(k);
    }
    assert(edit_types(old(state)@, k, state@.edit_popup->Some_0.textarea));
}

// ---------------------------------------------------------------------------
// The labelled input
// ---------------------------------------------------------------------------

/// What submitting an input does: a branch that is not blank is asked for.
pub open spec fn input_submitted(m: AppModel, popup: InputModel) -> Step {
    let arg = text::trimmed(popup.buffer);
    match popup.action {
        PopupAction::NewWorktree { project_idx } => if arg.len() > 0 && project_idx
            < m.projects.len() {
            (
                AppModel { pending_op: Some("Creating worktree '"@ + arg + "'…"@), ..m },
                seq![
                    CommandModel::AddWorktree {
                        project_idx,
                        repo_path: m.projects[project_idx as int].repo_path,
                        branch: arg,
                    },
                ],
            )
        } else {
            quiet(m)
        },
    }
}

/// What a key does in a labelled input.
pub open spec fn input_key(m: AppModel, k: KeyEvent) -> Step {
    match m.popup {
        Some(popup) => match k.code {
            KeyCode::Char(c) => if k.modifiers.types_text() {
                quiet(
                    AppModel {
                        popup: Some(InputModel { buffer: popup.buffer.push(c), ..popup }),
                        ..m
                    },
                )
            } else {
                quiet(m)
            },
            KeyCode::Backspace => quiet(
                AppModel {
                    popup: Some(InputModel { buffer: shortened(popup.buffer), ..popup }),
                    ..m
                },
            ),
            KeyCode::Esc => quiet(AppModel { popup: None, ..m }),
            KeyCode::Enter => input_submitted(AppModel { popup: None, ..m }, popup),
            _ => quiet(m),
        },
        None => quiet(m),
    }
}

/// A text without its last character.
pub open spec fn shortened(s: Seq<char>) -> Seq<char> {
    if s.len() > 0 {
        s.drop_last()
    } else {
        s
    }
}

fn dispatch_popup(state: &mut AppState, popup: InputPopup, cmds: &mut Commands)
    ensures
        final(state)@ == input_submitted(old(state)@, popup@).0,
        final(cmds)@ == old(cmds)@ + input_submitted(old(state)@, popup@).1,
{
    assert(cmds@ =~= old(cmds)@ + Seq::<CommandModel>::empty());
    let arg = text::trim(popup.buffer.as_str());
    match popup.action {
        PopupAction::NewWorktree { project_idx } => {
            if !arg.as_str().is_empty() && project_idx < state.projects.len() {
                let repo_path = state.projects[project_idx].repo_path.clone();
                state.pending_op = Some(text::concat3("Creating worktree '", arg.as_str(), "'…"));
                cmds.push(Command::AddWorktree { project_idx, repo_path, branch: arg });
                assert(cmds@ =~= old(cmds)@ + input_submitted(old(state)@, popup@).1);
            }
        },
    }
}

/// What a key does while a labelled input is open.
pub fn handle_popup_key(state: &mut AppState, k: KeyEvent, cmds: &mut Commands)
    ensures
        final(state)@ == input_key(old(state)@, k).0,
        final(cmds)@ == old(cmds)@ + input_key(old(state)@, k).1,
{
    assert(cmds@ =~= old(cmds)@ + Seq::<CommandModel>::empty());
    if state.popup.is_none() {
        return;
    }
    match k.code {
        KeyCode::Char(c) => {
            if k.modifiers.is_plain_or_shift() {
                if let Some(popup) = &mut state.popup {
                    popup.buffer.push(c);
                }
            }
        },
        KeyCode::Backspace => {
            if let Some(popup) = &mut state.popup {
                let _ = popup.buffer.pop();
            }
        },
        KeyCode::Esc => {
            state.popup = None;
        },
        KeyCode::Enter => {
            let taken = state.popup.take();
            if let Some(popup) = taken {
                dispatch_popup(state, popup, cmds);
            }
        },
        _ => {},
    }
}

// ---------------------------------------------------------------------------
// The confirmation
// ---------------------------------------------------------------------------

/// `s` without any of `ids`.
pub open spec fn without_all(s: Seq<SessionId>, ids: Seq<SessionId>) -> Seq<SessionId>
    decreases ids.len(),
{
    if ids.len() == 0 {
        s
    } else {
        without(without_all(s, ids.drop_last()), ids.last())
    }
}

/// One kill for each session.
pub open spec fn kills(ids: Seq<SessionId>) -> Seq<CommandModel> {
    Seq::new(ids.len(), |i: int| CommandModel::KillSession(ids[i]))
}

/// What a confirmed removal does: the worktree's sessions are killed before the
/// removal is asked for.
pub open spec fn removal_confirmed(m: AppModel, c: ConfirmModel) -> Step {
    match c {
        ConfirmModel::RemoveWorktree {
            project_idx,
            worktree_idx,
            name,
            repo_path,
            dest_path,
            branch,
        } => {
            let ids = match m.worktree(project_idx, worktree_idx) {
                Some(wt) => wt.sessions,
                None => seq![],
            };
            let m1 = match m.worktree(project_idx, worktree_idx) {
                Some(wt) => m.with_worktree(project_idx, worktree_idx, emptied(wt)),
                None => m,
            };
            (
                AppModel {
                    sessions: without_all(m.sessions, ids),
                    pending_op: Some("Removing worktree '"@ + name + "'…"@),
                    ..m1
                },
                kills(ids).push(
                    CommandModel::RemoveWorktree {
                        project_idx,
                        worktree_idx,
                        repo_path,
                        dest_path,
                        branch,
                    },
                ),
            )
        },
    }
}

/// What a key does while a confirmation is asked for: `y` confirms, `n` and Esc
/// cancel, any other key is ignored.
pub open spec fn confirm_key(m: AppModel, k: KeyEvent) -> Step {
    match m.pending_confirm {
        Some(c) => if k.code == KeyCode::Char('y') || k.code == KeyCode::Char('Y') {
            removal_confirmed(AppModel { pending_confirm: None, ..m }, c)
        } else if k.code == KeyCode::Char('n') || k.code == KeyCode::Char('N') || k.code
            == KeyCode::Esc {
            quiet(told(AppModel { pending_confirm: None, ..m }, "cancelled"@))
        } else {
            quiet(m)
        },
        None => quiet(m),
    }
}

/// Kills the sessions of a worktree and takes its tabs away.
fn kill_worktree(state: &mut AppState, p: usize, w: usize, cmds: &mut Commands)
    requires
        old(state)@.worktree(p, w) is Some,
    ensures
        ({
            let wt = old(state)@.worktree(p, w)->Some_0;
            &&& final(state)@ == (AppModel {
                sessions: without_all(old(state)@.sessions, wt.sessions),
                ..old(state)@.with_worktree(p, w, emptied(wt))
            })
            &&& final(cmds)@ == old(cmds)@ + kills(wt.sessions)
        }),
{
    let ghost m = state@;
    let ghost wt = m.worktree(p, w)->Some_0;
    let ghost ids = wt.sessions;
    let n: usize = state.projects[p].worktrees[w].sessions.len();
    let mut i: usize = 0;
    assert(cmds@ =~= old(cmds)@ + kills(ids).take(0));
    assert(ids.take(0).len() == 0);
    while i < n
        invariant
            i <= n == ids.len(),
            m.worktree(p, w) == Some(wt),
            ids == wt.sessions,
            state@ == (AppModel { sessions: without_all(m.sessions, ids.take(i as int)), ..m }),
            cmds@ == old(cmds)@ + kills(ids).take(i as int),
        decreases n - i,
    {
        assert(state@.worktree(p, w) == Some(wt));
        assert(state.projects@[p as int]@.worktrees[w as int] == wt);
        let id: u64 = state.projects[p].worktrees[w].sessions[i];
        state.sessions.remove(&id);
        cmds.push(Command::KillSession(id));
        proof {
            assert(id == ids[i as int]);
            assert(ids.take(i + 1).drop_last() =~= ids.take(i as int));
            assert(ids.take(i + 1).last() == id);
            assert(old(cmds)@ + kills(ids).take(i + 1) =~= (old(cmds)@ + kills(ids).take(
                i as int,
            )).push(CommandModel::KillSession(id)));
        }
        i += 1;
    }
    assert(ids.take(n as int) =~= ids);
    assert(kills(ids).take(n as int) =~= kills(ids));
    mutate::clear_worktree(state, p, w);
}

fn confirm_removal(state: &mut AppState, c: PendingConfirm, cmds: &mut Commands)
    ensures
        final(state)@ == removal_confirmed(old(state)@, c@).0,
        final(cmds)@ == old(cmds)@ + removal_confirmed(old(state)@, c@).1,
{
    match c {
        PendingConfirm::RemoveWorktree {
            project_idx,
            worktree_idx,
            name,
            repo_path,
            dest_path,
            branch,
        } => {
            let ghost m = state@;
            let ghost ids = match m.worktree(project_idx, worktree_idx) {
                Some(wt) => wt.sessions,
                None => seq![],
            };
            if mutate::has_worktree(state, project_idx, worktree_idx) {
                kill_worktree(state, project_idx, worktree_idx, cmds);
            } else {
                assert(cmds@ =~= old(cmds)@ + kills(ids));
            }
            assert(cmds@ == old(cmds)@ + kills(ids));
            state.pending_op = Some(text::concat3("Removing worktree '", name.as_str(), "'…"));
            let last = Command::RemoveWorktree {
                project_idx,
                worktree_idx,
                repo_path,
                dest_path,
                branch,
            };
            let ghost model = last@;
            cmds.push(last);
            assert(cmds@ =~= old(cmds)@ + kills(ids).push(model));
        },
    }
}

/// What a key does while a confirmation is asked for.
pub fn handle_pending_confirm_key(state: &mut AppState, k: KeyEvent, cmds: &mut Commands)
    ensures
        final(state)@ == confirm_key(old(state)@, k).0,
        final(cmds)@ == old(cmds)@ + confirm_key(old(state)@, k).1,
{
    assert(cmds@ =~= old(cmds)@ + Seq::<CommandModel>::empty());
    if state.pending_confirm.is_none() {
        return;
    }
    match k.code {
        KeyCode::Char('y') | KeyCode::Char('Y') => {
            let taken = state.pending_confirm.take();
            if let Some(c) = taken {
                confirm_removal(state, c, cmds);
            }
        },
        KeyCode::Char('n') | KeyCode::Char('N') | KeyCode::Esc => {
            state.pending_confirm = None;
            state.command_status = Some(text::owned("cancelled"));
        },
        _ => {},
    }
}

// ---------------------------------------------------------------------------
// The launcher picker
// ---------------------------------------------------------------------------

/// The last row of a list of `n`, as far as a cursor can say.
pub open spec fn last_of(n: nat) -> u16 {
    if n > 0 {
        ((n - 1) as usize) as u16
    } else {
        0
    }
}

/// The cursor one row further down, but not below `last`.
pub open spec fn cursor_down(cursor: u16, last: u16) -> u16 {
    if cursor < last {
        (cursor + 1) as u16
    } else {
        last
    }
}

/// The cursor one row further up.
pub open spec fn cursor_up(cursor: u16) -> u16 {
    if cursor > 0 {
        (cursor - 1) as u16
    } else {
        0
    }
}

/// Where a key moves the picker's cursor.
pub open spec fn launch_moved(popup: LaunchModel, code: KeyCode) -> LaunchModel {
    let last = last_of(popup.entries.len());
    LaunchModel {
        cursor: if code == KeyCode::Char('j') || code == KeyCode::Down {
            cursor_down(popup.cursor, last)
        } else if code == KeyCode::Char('k') || code == KeyCode::Up {
            cursor_up(popup.cursor)
        } else if code == KeyCode::Home || code == KeyCode::Char('g') {
            0
        } else if code == KeyCode::End || code == KeyCode::Char('G') {
            last
        } else {
            popup.cursor
        },
        ..popup
    }
}

/// What a key does in the launcher picker: Enter launches the row under the
/// cursor in the worktree that was active when the picker opened.
pub open spec fn launch_key(m: AppModel, k: KeyEvent) -> Step {
    match m.launch_popup {
        Some(popup) => if k.code == KeyCode::Esc {
            quiet(AppModel { launch_popup: None, ..m })
        } else if k.code == KeyCode::Enter {
            let m1 = AppModel { launch_popup: None, ..m };
            if popup.cursor < popup.entries.len() {
                (
                    m1,
                    spawn_in(
                        m1,
                        popup.project_idx,
                        popup.worktree_idx,
                        popup.entries[popup.cursor as int].command,
                    ),
                )
            } else {
                quiet(m1)
            }
        } else {
            quiet(AppModel { launch_popup: Some(launch_moved(popup, k.code)), ..m })
        },
        None => quiet(m),
    }
}

/// What a key does while the launcher picker is open.
pub fn handle_launch_popup_key(state: &mut AppState, k: KeyEvent, cmds: &mut Commands)
    ensures
        final(state)@ == launch_key(old(state)@, k).0,
        final(cmds)@ == old(cmds)@ + launch_key(old(state)@, k).1,
{
    assert(cmds@ =~= old(cmds)@ + Seq::<CommandModel>::empty());
    if state.launch_popup.is_none() {
        return;
    }
    if k.code == KeyCode::Esc {
        state.launch_popup = None;
        return;
    }
    if k.code == KeyCode::Enter {
        let taken = state.launch_popup.take();
        if let Some(popup) = taken {
            let at: usize = popup.cursor as usize;
            if at < popup.entries.len() {
                let command = text::clone_opt(&popup.entries[at].command);
                assert(popup@.entries[at as int].command == opt_view(command));
                tabs::launch_in_worktree(
                    state,
                    popup.project_idx,
                    popup.worktree_idx,
                    command,
                    cmds,
                );
            }
        }
        return;
    }
    if let Some(popup) = &mut state.launch_popup {
        let n: usize = popup.entries.len();
        let last: u16 = if n > 0 {
            (n - 1) as u16
        } else {
            0
        };
        match k.code {
            KeyCode::Char('j') | KeyCode::Down => {
                popup.cursor = if popup.cursor < last {
                    popup.cursor + 1
                } else {
                    last
                };
            },
            KeyCode::Char('k') | KeyCode::Up => {
                if popup.cursor > 0 {
                    popup.cursor = popup.cursor - 1;
                }
            },
            KeyCode::Home | KeyCode::Char('g') => {
                popup.cursor = 0;
            },
            KeyCode::End | KeyCode::Char('G') => {
                popup.cursor = last;
            },
            _ => {},
        }
    }
}

// ---------------------------------------------------------------------------
// The open-project popup
// ---------------------------------------------------------------------------

/// What submitting the popup does: the path given, else the directory that is
/// listed, else the path that was typed, is opened on the popup's supervisor. A
/// blank path is refused.
pub open spec fn open_submitted(m: AppModel, explicit: Option<Seq<char>>) -> Step {
    match m.open_project_popup {
        Some(popup) => {
            let path = match explicit {
                Some(p) => p,
                None => match popup.browser {
                    Some(b) => b.dir,
                    None => text::trimmed(popup.path),
                },
            };
            let script = text::trimmed(
                text::strip_newlines(text::join(popup.script.lines, "\n"@)),
            );
            if path.len() == 0 {
                quiet(told(m, "path required"@))
            } else {
                (
                    AppModel {
                        open_project_popup: None,
                        pending_op: Some("Opening "@ + path + "…"@),
                        ..m
                    },
                    seq![
                        CommandModel::OpenProject {
                            supervisor: popup.supervisor,
                            path,
                            setup_script: unless_empty(script),
                            import_existing: popup.import_existing,
                        },
                    ],
                )
            }
        },
        None => quiet(m),
    }
}

/// Build + dispatch the `OpenProject` command. `explicit` overrides the path
/// (e.g. a highlighted repo dir); otherwise the browser's current dir is used.
fn submit_open_project(state: &mut AppState, cmds: &mut Commands, explicit: Option<String>)
    ensures
        final(state)@ == open_submitted(old(state)@, opt_view(explicit)).0,
        final(cmds)@ == old(cmds)@ + open_submitted(old(state)@, opt_view(explicit)).1,
{
    assert(cmds@ =~= old(cmds)@ + Seq::<CommandModel>::empty());
    let taken = state.open_project_popup.take();
    let popup = match taken {
        Some(p) => p,
        None => return,
    };
    let path = match explicit {
        Some(p) => p,
        None => match &popup.browser {
            Some(b) => b.dir.clone(),
            None => text::trim(popup.path.as_str()),
        },
    };
    if path.as_str().is_empty() {
        state.command_status = Some(text::owned("path required"));
        state.open_project_popup = Some(popup);
        return;
    }
    let stripped = text::without_final_newlines(popup.script.text().as_str());
    let script = text::trim(stripped.as_str());
    state.pending_op = Some(text::concat3("Opening ", path.as_str(), "…"));
    cmds.push(
        Command::OpenProject {
            supervisor: popup.supervisor,
            path,
            setup_script: keep_unless_empty(script),
            import_existing: popup.import_existing,
        },
    );
    assert(cmds@ =~= old(cmds)@ + open_submitted(old(state)@, opt_view(explicit)).1);
}

/// The field that Tab goes to.
pub open spec fn next_field(f: OpenProjectFocus) -> OpenProjectFocus {
    match f {
        OpenProjectFocus::Path => OpenProjectFocus::Script,
        OpenProjectFocus::Script => OpenProjectFocus::Import,
        OpenProjectFocus::Import => OpenProjectFocus::Supervisor,
        OpenProjectFocus::Supervisor => OpenProjectFocus::Path,
    }
}

/// The state with that popup open.
pub open spec fn with_open(m: AppModel, popup: OpenModel) -> AppModel {
    AppModel { open_project_popup: Some(popup), ..m }
}

/// What a key does in the path field while nothing is listed: it edits the path.
pub open spec fn path_key(m: AppModel, popup: OpenModel, k: KeyEvent) -> Step {
    match k.code {
        KeyCode::Char(c) => if k.modifiers.types_text() {
            quiet(with_open(m, OpenModel { path: popup.path.push(c), ..popup }))
        } else {
            quiet(m)
        },
        KeyCode::Backspace => quiet(
            with_open(m, OpenModel { path: shortened(popup.path), ..popup }),
        ),
        KeyCode::Enter => open_submitted(m, None),
        _ => quiet(m),
    }
}

/// What a key does in the directory browser: it moves among the entries, goes up
/// to the parent, descends into a directory, or opens a repository.
pub open spec fn browser_key(m: AppModel, popup: OpenModel, b: BrowserModel, k: KeyEvent) -> Step {
    let n = b.entries.len() as u16;
    let code = k.code;
    if code == KeyCode::Up || code == KeyCode::Char('k') {
        quiet(
            with_open(
                m,
                OpenModel {
                    browser: Some(BrowserModel { cursor: cursor_up(b.cursor), ..b }),
                    ..popup
                },
            ),
        )
    } else if code == KeyCode::Down || code == KeyCode::Char('j') {
        if n > 0 {
            quiet(
                with_open(
                    m,
                    OpenModel {
                        browser: Some(
                            BrowserModel { cursor: cursor_down(b.cursor, (n - 1) as u16), ..b },
                        ),
                        ..popup
                    },
                ),
            )
        } else {
            quiet(m)
        }
    } else if code == KeyCode::Left || code == KeyCode::Char('h') || code == KeyCode::Backspace {
        match b.parent {
            Some(parent) => (
                m,
                seq![
                    CommandModel::ListDir { supervisor: popup.supervisor, path: Some(parent) },
                ],
            ),
            None => quiet(m),
        }
    } else if code == KeyCode::Enter || code == KeyCode::Right || code == KeyCode::Char('l') {
        if b.cursor < b.entries.len() {
            let (name, is_repo) = b.entries[b.cursor as int];
            let path = paths::joined(b.dir, name);
            if is_repo {
                open_submitted(m, Some(path))
            } else {
                (
                    m,
                    seq![
                        CommandModel::ListDir { supervisor: popup.supervisor, path: Some(path) },
                    ],
                )
            }
        } else {
            quiet(m)
        }
    } else {
        quiet(m)
    }
}

/// Whether a key turns the supervisor row to the next supervisor.
pub open spec fn turns(code: KeyCode) -> bool {
    code == KeyCode::Left || code == KeyCode::Right || code == KeyCode::Char(' ') || code
        == KeyCode::Char('h') || code == KeyCode::Char('l') || code == KeyCode::Enter
}

/// What a key does in the open-project popup; in the script field the script
/// then is `typed`.
pub open spec fn open_key(m: AppModel, k: KeyEvent, typed: BoxModel) -> Step {
    match m.open_project_popup {
        Some(popup) => if k.code == KeyCode::Esc {
            quiet(AppModel { open_project_popup: None, ..m })
        } else if is_save(k) {
            open_submitted(m, None)
        } else if k.code == KeyCode::Tab {
            quiet(with_open(m, OpenModel { focus: next_field(popup.focus), ..popup }))
        } else {
            match popup.focus {
                OpenProjectFocus::Path => match popup.browser {
                    Some(b) => browser_key(m, popup, b, k),
                    None => path_key(m, popup, k),
                },
                OpenProjectFocus::Supervisor => if turns(k.code) {
                    let next = m.supervisors.next_after(popup.supervisor);
                    (
                        with_open(m, OpenModel { supervisor: next, browser: None, ..popup }),
                        seq![CommandModel::ListDir { supervisor: next, path: None }],
                    )
                } else {
                    quiet(m)
                },
                OpenProjectFocus::Script => quiet(
                    with_open(m, OpenModel { script: typed, ..popup }),
                ),
                OpenProjectFocus::Import => if k.code == KeyCode::Char(' ') || k.code
                    == KeyCode::Enter {
                    quiet(
                        with_open(
                            m,
                            OpenModel { import_existing: !popup.import_existing, ..popup },
                        ),
                    )
                } else {
                    quiet(m)
                },
            }
        },
        None => quiet(m),
    }
}

/// What the script may be after the key.
pub open spec fn open_types(m: AppModel, k: KeyEvent, typed: BoxModel) -> bool {
    feeds_script(m, k) ==> took_key(m.open_project_popup->Some_0.script, k, typed)
}

fn handle_path_key(state: &mut AppState, k: KeyEvent, cmds: &mut Commands)
    requires
        old(state)@.open_project_popup is Some,
        old(state)@.open_project_popup->Some_0.browser is None,
    ensures
        final(state)@ == path_key(old(state)@, old(state)@.open_project_popup->Some_0, k).0,
        final(cmds)@ == old(cmds)@ + path_key(
            old(state)@,
            old(state)@.open_project_popup->Some_0,
            k,
        ).1,
{
    assert(cmds@ =~= old(cmds)@ + Seq::<CommandModel>::empty());
    match k.code {
        KeyCode::Char(c) => {
            if k.modifiers.is_plain_or_shift() {
                if let Some(popup) = &mut state.open_project_popup {
                    popup.path.push(c);
                }
            }
        },
        KeyCode::Backspace => {
            if let Some(popup) = &mut state.open_project_popup {
                let _ = popup.path.pop();
            }
        },
        KeyCode::Enter => submit_open_project(state, cmds, None),
        _ => {},
    }
}

fn move_browser(popup: &mut OpenProjectPopup, down: bool)
    requires
        old(popup).browser is Some,
        down ==> (old(popup)@.browser->Some_0.entries.len() as u16) > 0,
    ensures
        ({
            let b = old(popup)@.browser->Some_0;
            let n = b.entries.len() as u16;
            final(popup)@ == (OpenModel {
                browser: Some(
                    BrowserModel {
                        cursor: if down {
                            cursor_down(b.cursor, (n - 1) as u16)
                        } else {
                            cursor_up(b.cursor)
                        },
                        ..b
                    },
                ),
                ..old(popup)@
            })
        }),
{
    if let Some(b) = &mut popup.browser {
        let n: u16 = b.entries.len() as u16;
        if down {
            let last: u16 = n - 1;
            b.cursor = if b.cursor < last {
                b.cursor + 1
            } else {
                last
            };
        } else if b.cursor > 0 {
            b.cursor = b.cursor - 1;
        }
    }
}

/// Key handling for the directory browser (Path focus).
fn handle_browser_key(state: &mut AppState, k: KeyEvent, cmds: &mut Commands)
    requires
        old(state)@.open_project_popup is Some,
        old(state)@.open_project_popup->Some_0.browser is Some,
    ensures
        ({
            let popup = old(state)@.open_project_popup->Some_0;
            let step = browser_key(old(state)@, popup, popup.browser->Some_0, k);
            final(state)@ == step.0 && final(cmds)@ == old(cmds)@ + step.1
        }),
{
    assert(cmds@ =~= old(cmds)@ + Seq::<CommandModel>::empty());
    let ghost popup0 = state@.open_project_popup->Some_0;
    let ghost b0 = popup0.browser->Some_0;
    let mut submit: Option<String> = None;
    match k.code {
        KeyCode::Up | KeyCode::Char('k') => {
            if let Some(popup) = &mut state.open_project_popup {
                move_browser(popup, false);
            }
        },
        KeyCode::Down | KeyCode::Char('j') => {
            if let Some(popup) = &mut state.open_project_popup {
                let n: u16 = match &popup.browser {
                    Some(b) => b.entries.len() as u16,
                    None => 0,
                };
                if n > 0 {
                    move_browser(popup, true);
                }
            }
        },
        KeyCode::Left | KeyCode::Char('h') | KeyCode::Backspace => {
            if let Some(popup) = &state.open_project_popup {
                if let Some(b) = &popup.browser {
                    if let Some(parent) = &b.parent {
                        cmds.push(
                            Command::ListDir {
                                supervisor: popup.supervisor,
                                path: Some(parent.clone()),
                            },
                        );
                    }
                }
            }
            assert(cmds@ =~= old(cmds)@ + browser_key(old(state)@, popup0, b0, k).1);
        },
        KeyCode::Enter | KeyCode::Right | KeyCode::Char('l') => {
            if let Some(popup) = &state.open_project_popup {
                if let Some(b) = &popup.browser {
                    let at: usize = b.cursor as usize;
                    if at < b.entries.len() {
                        assert(b0.entries[at as int] == (
                            b.entries[at as int].name@,
                            b.entries[at as int].is_repo,
                        ));
                        let path = paths::join(b.dir.as_str(), b.entries[at].name.as_str());
                        if b.entries[at].is_repo {
                            submit = Some(path);
                        } else {
                            cmds.push(
                                Command::ListDir {
                                    supervisor: popup.supervisor,
                                    path: Some(path),
                                },
                            );
                        }
                    }
                }
            }
            if submit.is_some() {
                submit_open_project(state, cmds, submit);
            }
            assert(cmds@ =~= old(cmds)@ + browser_key(old(state)@, popup0, b0, k).1);
        },
        _ => {},
    }
}

fn turn_supervisor(state: &mut AppState, cmds: &mut Commands)
    requires
        old(state)@.open_project_popup is Some,
    ensures
        ({
            let popup = old(state)@.open_project_popup->Some_0;
            let next = old(state)@.supervisors.next_after(popup.supervisor);
            &&& final(state)@ == with_open(
                old(state)@,
                OpenModel { supervisor: next, browser: None, ..popup },
            )
            &&& final(cmds)@ == old(cmds)@ + seq![
                CommandModel::ListDir { supervisor: next, path: None },
            ]
        }),
{
    let sup = match &state.open_project_popup {
        Some(popup) => popup.supervisor,
        None => crate::app::local(),
    };
    let next = state.supervisors.next_after(sup);
    if let Some(popup) = &mut state.open_project_popup {
        popup.supervisor = next;
        popup.browser = None;
    }
    cmds.push(Command::ListDir { supervisor: next, path: None });
    assert(cmds@ =~= old(cmds)@ + seq![CommandModel::ListDir { supervisor: next, path: None }]);
}

/// Whether a key goes to the script.
pub open spec fn feeds_script(m: AppModel, k: KeyEvent) -> bool {
    m.open_project_popup matches Some(popup) && k.code != KeyCode::Esc && !is_save(k) && k.code
        != KeyCode::Tab && popup.focus is Script
}

fn handle_open_field_key(
    state: &mut AppState,
    focus: OpenProjectFocus,
    k: KeyEvent,
    cmds: &mut Commands,
)
    requires
        old(state)@.open_project_popup matches Some(popup) && popup.focus == focus,
        !(focus is Script),
        k.code != KeyCode::Esc,
        !is_save(k),
        k.code != KeyCode::Tab,
    ensures
        final(state)@ == open_key(old(state)@, k, crate::editbox::fresh_box(seq![])).0,
        final(cmds)@ == old(cmds)@ + open_key(
            old(state)@,
            k,
            crate::editbox::fresh_box(seq![]),
        ).1,
{
    assert(cmds@ =~= old(cmds)@ + Seq::<CommandModel>::empty());
    match focus {
        OpenProjectFocus::Path => {
            let listed = match &state.open_project_popup {
                Some(popup) => popup.browser.is_some(),
                None => false,
            };
            if listed {
                handle_browser_key(state, k, cmds);
            } else {
                handle_path_key(state, k, cmds);
            }
        },
        OpenProjectFocus::Supervisor => {
            let turn = match k.code {
                KeyCode::Left
                | KeyCode::Right
                | KeyCode::Char(' ')
                | KeyCode::Char('h')
                | KeyCode::Char('l')
                | KeyCode::Enter => true,
                _ => false,
            };
            if turn {
                turn_supervisor(state, cmds);
            }
        },
        OpenProjectFocus::Import => {
            if k.code == KeyCode::Char(' ') || k.code == KeyCode::Enter {
                if let Some(popup) = &mut state.open_project_popup {
                    popup.import_existing = !popup.import_existing;
                }
            }
        },
        OpenProjectFocus::Script => {},
    }
}

fn handle_open_frame_key(
    state: &mut AppState,
    focus: OpenProjectFocus,
    k: KeyEvent,
    cmds: &mut Commands,
)
    requires
        old(state)@.open_project_popup matches Some(popup) && popup.focus == focus,
        k.code == KeyCode::Esc || is_save(k) || k.code == KeyCode::Tab,
    ensures
        final(state)@ == open_key(old(state)@, k, crate::editbox::fresh_box(seq![])).0,
        final(cmds)@ == old(cmds)@ + open_key(
            old(state)@,
            k,
            crate::editbox::fresh_box(seq![]),
        ).1,
{
    assert(cmds@ =~= old(cmds)@ + Seq::<CommandModel>::empty());
    if k.code == KeyCode::Esc {
        state.open_project_popup = None;
    } else if save_key(k) {
        submit_open_project(state, cmds, None);
    } else if let Some(popup) = &mut state.open_project_popup {
        popup.focus = match focus {
            OpenProjectFocus::Path => OpenProjectFocus::Script,
            OpenProjectFocus::Script => OpenProjectFocus::Import,
            OpenProjectFocus::Import => OpenProjectFocus::Supervisor,
            OpenProjectFocus::Supervisor => OpenProjectFocus::Path,
        };
    }
}

/// What a key does while the open-project popup is open.
pub fn handle_open_project_popup_key(state: &mut AppState, k: KeyEvent, cmds: &mut Commands)
    ensures
        exists|typed: BoxModel| #[trigger]
            open_types(old(state)@, k, typed) && final(state)@ == open_key(
                old(state)@,
                k,
                typed,
            ).0 && final(cmds)@ == old(cmds)@ + open_key(old(state)@, k, typed).1,
{
    assert(cmds@ =~= old(cmds)@ + Seq::<CommandModel>::empty());
    let ghost any = crate::editbox::fresh_box(seq![]);
    let focus = match &state.open_project_popup {
        Some(popup) => popup.focus,
        None => {
            assert(open_types(old(state)@, k, any));
            return;
        },
    };
    if k.code == KeyCode::Esc || save_key(k) || k.code == KeyCode::Tab {
        handle_open_frame_key(state, focus, k, cmds);
        assert(open_types(old(state)@, k, any));
    } else if focus == OpenProjectFocus::Script {
        if let Some(popup) = &mut state.open_project_popup {
            popup.script.input(k);
        }
        assert(open_types(old(state)@, k, state@.open_project_popup->Some_0.script));
    } else {
        handle_open_field_key(state, focus, k, cmds);
        assert(open_types(old(state)@, k, any));
    }
}

/// Esc cancels: whatever popup it closes, nothing is asked for.
pub proof fn law_escape_asks_for_nothing(m: AppModel, k: KeyEvent, typed: BoxModel)
    requires
        k.code == KeyCode::Esc,
    ensures
        edit_key(m, k, typed).1.len() == 0,
        open_key(m, k, typed).1.len() == 0,
        input_key(m, k).1.len() == 0,
        launch_key(m, k).1.len() == 0,
        confirm_key(m, k).1.len() == 0,
        edit_key(m, k, typed).0.projects == m.projects,
        confirm_key(m, k).0.projects == m.projects,
{
}

} // verus!
