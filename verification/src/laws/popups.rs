//! What the popups do with the keys they get.

use crate::app::{
    Action, AppModel, BrowserModel, CommandModel, ConfirmModel, EditModel, InputModel,
    LaunchModel, OpenModel, OpenProjectFocus, PopupAction, ProjectModel,
};
use crate::editbox::BoxModel;
use crate::event::{KeyCode, KeyEvent};
use crate::paths;
use crate::popups::{edit_key, input_key, launch_key, next_field, without_all};
use crate::reducer::step;
use crate::sidebar::regions_of;
use crate::text;
use vstd::prelude::*;

verus! {

/// Whether the open-project popup gets the keys.
pub open spec fn opening(m: AppModel) -> bool {
    m.usage_popup is None && m.edit_popup is None && m.open_project_popup is Some
}

/// Whether a key is Ctrl-S.
pub open spec fn ctrl_s(k: KeyEvent) -> bool {
    k.modifiers.control && (k.code == KeyCode::Char('s') || k.code == KeyCode::Char('S'))
}

/// Whether a key goes into what the browser's cursor is on.
pub open spec fn goes_in(k: KeyEvent) -> bool {
    k.code == KeyCode::Enter || k.code == KeyCode::Right || k.code == KeyCode::Char('l')
}

/// Whether the popup's directory browser gets the keys, with its cursor on an entry.
pub open spec fn browsing(m: AppModel) -> bool {
    opening(m) && {
        let popup = m.open_project_popup->Some_0;
        popup.focus is Path && (popup.browser matches Some(b) && b.cursor < b.entries.len())
    }
}

/// The listed directory of a browser, the entry under its cursor, and whether that
/// is a repository.
pub open spec fn highlighted(m: AppModel) -> (Seq<char>, Seq<char>, bool) {
    let b = m.open_project_popup->Some_0.browser->Some_0;
    (b.dir, b.entries[b.cursor as int].0, b.entries[b.cursor as int].1)
}

/// The script in a popup, as it is handed on: without white space around it, and
/// none where nothing is left.
pub open spec fn script_of(popup: OpenModel) -> Option<Seq<char>> {
    let s = text::trimmed(text::strip_newlines(text::join(popup.script.lines, "\n"@)));
    if s.len() > 0 {
        Some(s)
    } else {
        None
    }
}

/// A directory and a name in it make a path: one slash between them, unless the
/// directory ends in one; a name that starts with a slash stands for itself.
pub proof fn law_a_name_lies_in_its_directory(dir: Seq<char>, name: Seq<char>)
    ensures
        dir.len() > 0 && dir.last() != '/' && !(name.len() > 0 && name[0] == '/') ==> paths::joined(
            dir,
            name,
        ) == dir + seq!['/'] + name,
        dir.len() > 0 && dir.last() == '/' && !(name.len() > 0 && name[0] == '/') ==> paths::joined(
            dir,
            name,
        ) == dir + name,
        name.len() > 0 && name[0] == '/' ==> paths::joined(dir, name) == name,
        name.len() > 0 ==> paths::joined(dir, name).len() > 0,
{
}

/// Where the browser's cursor is on a repository, Enter and right open that
/// repository, on the popup's supervisor, with its script and its choice whether to
/// import: exactly that is asked for, and the popup closes.
pub proof fn law_the_highlighted_repository_is_opened(m: AppModel, k: KeyEvent, typed: BoxModel)
    requires
        browsing(m),
        highlighted(m).2,
        highlighted(m).1.len() > 0,
        goes_in(k),
    ensures
        ({
            let popup = m.open_project_popup->Some_0;
            let (dir, name, _) = highlighted(m);
            let (after, cmds) = step(m, Action::Key(k), typed);
            &&& cmds == seq![
                CommandModel::OpenProject {
                    supervisor: popup.supervisor,
                    path: paths::joined(dir, name),
                    setup_script: script_of(popup),
                    import_existing: popup.import_existing,
                },
            ]
            &&& after == (AppModel {
                open_project_popup: None,
                pending_op: after.pending_op,
                ..m
            })
        }),
{
    let (dir, name, _) = highlighted(m);
    law_a_name_lies_in_its_directory(dir, name);
}

/// Where the browser's cursor is on another directory, Enter and right list that
/// one; left and Backspace list the parent, if there is one.
pub proof fn law_the_browser_goes_down_and_up(m: AppModel, k: KeyEvent, typed: BoxModel)
    requires
        browsing(m),
    ensures
        ({
            let popup = m.open_project_popup->Some_0;
            let (dir, name, repo) = highlighted(m);
            let (after, cmds) = step(m, Action::Key(k), typed);
            &&& goes_in(k) && !repo ==> after == m && cmds == seq![
                CommandModel::ListDir {
                    supervisor: popup.supervisor,
                    path: Some(paths::joined(dir, name)),
                },
            ]
            &&& (k.code == KeyCode::Left || k.code == KeyCode::Char('h') || k.code
                == KeyCode::Backspace) ==> after == m && cmds == (
            match popup.browser->Some_0.parent {
                Some(up) => seq![
                    CommandModel::ListDir { supervisor: popup.supervisor, path: Some(up) },
                ],
                None => seq![],
            })
        }),
{
}

/// Down and up move the browser's cursor by one entry and stop at the ends; nothing
/// else changes and nothing is asked for.
pub proof fn law_the_browser_moves_by_one(m: AppModel, k: KeyEvent, typed: BoxModel)
    requires
        browsing(m),
        m.open_project_popup->Some_0.browser->Some_0.entries.len() <= u16::MAX,
        k.code == KeyCode::Down || k.code == KeyCode::Char('j') || k.code == KeyCode::Up || k.code
            == KeyCode::Char('k'),
    ensures
        ({
            let popup = m.open_project_popup->Some_0;
            let b = popup.browser->Some_0;
            let (after, cmds) = step(m, Action::Key(k), typed);
            let down = k.code == KeyCode::Down || k.code == KeyCode::Char('j');
            &&& cmds.len() == 0
            &&& after.open_project_popup matches Some(p) && {
                &&& p.browser matches Some(now) && {
                    &&& now == (BrowserModel { cursor: now.cursor, ..b })
                    &&& now.cursor == (if down {
                        if b.cursor + 1 < b.entries.len() {
                            b.cursor + 1
                        } else {
                            b.cursor as int
                        }
                    } else {
                        if b.cursor > 0 {
                            b.cursor - 1
                        } else {
                            0
                        }
                    })
                    &&& p == (OpenModel { browser: Some(now), ..popup })
                }
                &&& after == (AppModel { open_project_popup: Some(p), ..m })
            }
        }),
{
}

/// Ctrl-S opens the directory that is listed, or else the path that was typed,
/// whatever field has the focus; a blank path is not opened.
pub proof fn law_ctrl_s_opens_the_listed_directory(m: AppModel, k: KeyEvent, typed: BoxModel)
    requires
        opening(m),
        ctrl_s(k),
    ensures
        ({
            let popup = m.open_project_popup->Some_0;
            let path = match popup.browser {
                Some(b) => b.dir,
                None => text::trimmed(popup.path),
            };
            let (after, cmds) = step(m, Action::Key(k), typed);
            if path.len() > 0 {
                &&& cmds == seq![
                    CommandModel::OpenProject {
                        supervisor: popup.supervisor,
                        path,
                        setup_script: script_of(popup),
                        import_existing: popup.import_existing,
                    },
                ]
                &&& after == (AppModel {
                    open_project_popup: None,
                    pending_op: Some("Opening "@ + path + "…"@),
                    ..m
                })
            } else {
                &&& cmds.len() == 0
                &&& after.open_project_popup == Some(popup)
                &&& after.projects == m.projects && after.pending_op == m.pending_op
            }
        }),
{
}

/// Without a listing, Enter in the path field opens the path that was typed, less the
/// white space round it; a blank path is not opened.
pub proof fn law_enter_opens_the_typed_path(m: AppModel, k: KeyEvent, typed: BoxModel)
    requires
        opening(m),
        m.open_project_popup->Some_0.focus is Path,
        m.open_project_popup->Some_0.browser is None,
        k.code == KeyCode::Enter,
    ensures
        ({
            let popup = m.open_project_popup->Some_0;
            let path = text::trimmed(popup.path);
            let (after, cmds) = step(m, Action::Key(k), typed);
            if path.len() > 0 {
                &&& cmds == seq![
                    CommandModel::OpenProject {
                        supervisor: popup.supervisor,
                        path,
                        setup_script: script_of(popup),
                        import_existing: popup.import_existing,
                    },
                ]
                &&& after == (AppModel {
                    open_project_popup: None,
                    pending_op: Some("Opening "@ + path + "…"@),
                    ..m
                })
            } else {
                &&& cmds.len() == 0
                &&& after.open_project_popup == Some(popup)
            }
        }),
{
}

/// In the browser a letter that neither moves the cursor nor goes in or out changes
/// nothing.
pub proof fn law_other_letters_do_nothing_in_the_browser(
    m: AppModel,
    k: KeyEvent,
    c: char,
    typed: BoxModel,
)
    requires
        browsing(m),
        k.code == KeyCode::Char(c),
        k.modifiers == crate::event::no_mods(),
        c != 'j' && c != 'k' && c != 'h' && c != 'l',
    ensures
        step(m, Action::Key(k), typed) == (m, Seq::<CommandModel>::empty()),
{
    assert(step(m, Action::Key(k), typed).1 =~= Seq::<CommandModel>::empty());
}

/// Without a listing, the path field takes characters in at its end and Backspace
/// takes the last one out.
pub proof fn law_the_path_is_typed(m: AppModel, k: KeyEvent, c: char, typed: BoxModel)
    requires
        opening(m),
        m.open_project_popup->Some_0.focus is Path,
        m.open_project_popup->Some_0.browser is None,
        k.modifiers == crate::event::no_mods(),
    ensures
        ({
            let popup = m.open_project_popup->Some_0;
            let (after, cmds) = step(m, Action::Key(k), typed);
            &&& k.code == KeyCode::Char(c) ==> cmds.len() == 0 && after == (AppModel {
                open_project_popup: Some(OpenModel { path: popup.path.push(c), ..popup }),
                ..m
            })
            &&& k.code == KeyCode::Backspace && popup.path.len() > 0 ==> cmds.len() == 0 && after
                == (AppModel {
                open_project_popup: Some(
                    OpenModel { path: popup.path.take(popup.path.len() - 1), ..popup },
                ),
                ..m
            })
        }),
{
    let popup = m.open_project_popup->Some_0;
    if popup.path.len() > 0 {
        assert(popup.path.drop_last() =~= popup.path.take(popup.path.len() - 1));
    }
}

/// The field that has the focus after so many presses of Tab.
pub open spec fn field_after(f: OpenProjectFocus, tabs: nat) -> OpenProjectFocus
    decreases tabs,
{
    if tabs == 0 {
        f
    } else {
        next_field(field_after(f, (tabs - 1) as nat))
    }
}

/// Tab goes through the fields and comes back to the first after all four; it only
/// moves the focus.
pub proof fn law_tab_goes_through_the_fields(m: AppModel, k: KeyEvent, typed: BoxModel)
    requires
        opening(m),
        k.code == KeyCode::Tab,
    ensures
        ({
            let popup = m.open_project_popup->Some_0;
            let (after, cmds) = step(m, Action::Key(k), typed);
            &&& cmds.len() == 0
            &&& after == (AppModel {
                open_project_popup: Some(
                    OpenModel { focus: field_after(popup.focus, 1), ..popup },
                ),
                ..m
            })
        }),
        field_after(OpenProjectFocus::Path, 1) is Script,
        field_after(OpenProjectFocus::Path, 2) is Import,
        field_after(OpenProjectFocus::Path, 3) is Supervisor,
        field_after(OpenProjectFocus::Path, 4) is Path,
{
    reveal_with_fuel(field_after, 5);
}

/// In the supervisor row a turning key picks the supervisor listed next, round at
/// the end, and its home directory is listed anew; in the import field Space and
/// Enter switch the choice.
pub proof fn law_the_other_fields_turn_and_switch(m: AppModel, k: KeyEvent, typed: BoxModel, i: int)
    requires
        opening(m),
        !ctrl_s(k),
        0 <= i < m.supervisors.entries.len(),
        m.open_project_popup->Some_0.supervisor == m.supervisors.entries[i].0,
        forall|j: int|
            0 <= j < i ==> (#[trigger] m.supervisors.entries[j]).0 != m.supervisors.entries[i].0,
    ensures
        ({
            let popup = m.open_project_popup->Some_0;
            let n = m.supervisors.entries.len() as int;
            let next = m.supervisors.entries[(i + 1) % n].0;
            let (after, cmds) = step(m, Action::Key(k), typed);
            &&& popup.focus is Supervisor && (k.code == KeyCode::Right || k.code == KeyCode::Left)
                ==> cmds == seq![CommandModel::ListDir { supervisor: next, path: None }] && after
                == (AppModel {
                open_project_popup: Some(
                    OpenModel { supervisor: next, browser: None, ..popup },
                ),
                ..m
            })
            &&& popup.focus is Import && (k.code == KeyCode::Char(' ') || k.code == KeyCode::Enter)
                ==> cmds.len() == 0 && after == (AppModel {
                open_project_popup: Some(
                    OpenModel { import_existing: !popup.import_existing, ..popup },
                ),
                ..m
            })
        }),
{
    let n = m.supervisors.entries.len() as int;
    lemma_place(m, i, 0);
    assert((i + 1) % n == (if i + 1 < n {
        i + 1
    } else {
        0
    })) by (nonlinear_arith)
        requires
            0 <= i < n,
    ;
}

proof fn lemma_place(m: AppModel, i: int, from: int)
    requires
        0 <= from <= i < m.supervisors.entries.len(),
        forall|j: int|
            0 <= j < i ==> (#[trigger] m.supervisors.entries[j]).0 != m.supervisors.entries[i].0,
    ensures
        m.supervisors.place(m.supervisors.entries[i].0, from) == Some(i),
    decreases i - from,
{
    if from < i {
        lemma_place(m, i, from + 1);
    }
}

/// A listing that arrives is shown in the popup with its cursor at the top; without
/// the popup it changes nothing.
pub proof fn law_listings_are_shown(
    m: AppModel,
    dir: Seq<char>,
    parent: Option<Seq<char>>,
    entries: Seq<(Seq<char>, bool)>,
)
    ensures
        ({
            let after = crate::reducer::dir_listed(m, dir, parent, entries);
            match m.open_project_popup {
                Some(popup) => after.open_project_popup matches Some(p) && {
                    &&& p.browser == Some(BrowserModel { dir, parent, entries, cursor: 0 })
                    &&& p.supervisor == popup.supervisor && p.script == popup.script
                        && p.import_existing == popup.import_existing && p.focus == popup.focus
                    &&& after == (AppModel { open_project_popup: Some(p), ..m })
                },
                None => after == m,
            }
        }),
{
}

// ---------------------------------------------------------------------------
// Launchers
// ---------------------------------------------------------------------------

/// Enter launches the row under the picker's cursor: a tab opens in the worktree
/// that was active when the picker opened, on its project's supervisor, in its
/// directory, and runs that row's command.
pub proof fn law_the_highlighted_launcher_is_run(m: AppModel, k: KeyEvent, p: int, w: int)
    requires
        m.launch_popup matches Some(popup) && popup.cursor < popup.entries.len()
            && popup.project_idx == p && popup.worktree_idx == w,
        0 <= p < m.projects.len(),
        0 <= w < m.projects[p].worktrees.len(),
        k.code == KeyCode::Enter,
    ensures
        ({
            let popup = m.launch_popup->Some_0;
            let (after, cmds) = launch_key(m, k);
            &&& cmds == seq![
                CommandModel::SpawnInWorktree {
                    supervisor: m.projects[p].supervisor,
                    rows: regions_of(m).terminal.height,
                    cols: regions_of(m).terminal.width,
                    cwd: m.projects[p].worktrees[w].path,
                    dest: (p as usize, w as usize),
                    initial_command: popup.entries[popup.cursor as int].command,
                    project_slug: m.projects[p].slug,
                    worktree_name: m.projects[p].worktrees[w].name,
                },
            ]
            &&& after == (AppModel { launch_popup: None, ..m })
        }),
{
}

/// In the picker down and up move by one row, Home and End to the first and the
/// last; nothing is launched.
pub proof fn law_the_picker_moves_by_one(m: AppModel, k: KeyEvent)
    requires
        m.launch_popup matches Some(popup) && popup.cursor < popup.entries.len() <= u16::MAX,
        k.code != KeyCode::Enter && k.code != KeyCode::Esc,
    ensures
        ({
            let popup = m.launch_popup->Some_0;
            let (after, cmds) = launch_key(m, k);
            let c = k.code;
            let n = popup.entries.len();
            &&& cmds.len() == 0
            &&& after.launch_popup matches Some(now) && {
                &&& now == (LaunchModel { cursor: now.cursor, ..popup })
                &&& after == (AppModel { launch_popup: Some(now), ..m })
                &&& now.cursor < n
                &&& (c == KeyCode::Char('j') || c == KeyCode::Down) && popup.cursor + 1 < n
                    ==> now.cursor == popup.cursor + 1
                &&& (c == KeyCode::Char('k') || c == KeyCode::Up) && popup.cursor > 0
                    ==> now.cursor == popup.cursor - 1
                &&& (c == KeyCode::Home || c == KeyCode::Char('g')) ==> now.cursor == 0
                &&& (c == KeyCode::End || c == KeyCode::Char('G')) ==> now.cursor == n - 1
            }
        }),
{
}

// ---------------------------------------------------------------------------
// The other popups
// ---------------------------------------------------------------------------

/// The branch that was typed, without white space around it, is what the new
/// worktree is asked for, in the repository of the project that the input was opened
/// for; a blank one asks for nothing. Either way the input closes.
pub proof fn law_the_typed_branch_is_asked_for(m: AppModel, k: KeyEvent, p: int)
    requires
        m.popup matches Some(popup) && popup.action == (PopupAction::NewWorktree {
            project_idx: p as usize,
        }),
        0 <= p < m.projects.len() <= usize::MAX,
        k.code == KeyCode::Enter,
    ensures
        ({
            let branch = text::trimmed(m.popup->Some_0.buffer);
            let (after, cmds) = input_key(m, k);
            &&& after.popup is None
            &&& after.projects == m.projects
            &&& cmds == (if branch.len() > 0 {
                seq![
                    CommandModel::AddWorktree {
                        project_idx: p as usize,
                        repo_path: m.projects[p].repo_path,
                        branch,
                    },
                ]
            } else {
                seq![]
            })
        }),
{
}

/// An input takes characters in at its end, and Backspace takes the last one out.
pub proof fn law_inputs_are_typed_into(m: AppModel, k: KeyEvent, c: char)
    requires
        m.popup is Some,
    ensures
        ({
            let popup = m.popup->Some_0;
            let (after, cmds) = input_key(m, k);
            &&& k.code == KeyCode::Char(c) && !k.modifiers.control && !k.modifiers.alt
                && !k.modifiers.super_key && !k.modifiers.hyper && !k.modifiers.meta ==> after == (
            AppModel { popup: Some(InputModel { buffer: popup.buffer.push(c), ..popup }), ..m })
                && cmds.len() == 0
            &&& k.code == KeyCode::Backspace && popup.buffer.len() > 0 ==> cmds.len() == 0
                && after.popup == Some(
                InputModel { buffer: popup.buffer.take(popup.buffer.len() - 1), ..popup },
            )
        }),
{
    let popup = m.popup->Some_0;
    if popup.buffer.len() > 0 {
        assert(popup.buffer.drop_last() =~= popup.buffer.take(popup.buffer.len() - 1));
    }
}

/// Removing a worktree asks first: only `y` does it. Then every session of the
/// worktree is killed, and behind that the removal of the worktree and its branch is
/// asked for; its tabs are gone. `n` and Esc ask for nothing.
pub proof fn law_removal_is_confirmed_first(
    m: AppModel,
    k: KeyEvent,
    p: int,
    w: int,
    name: Seq<char>,
    repo_path: Seq<char>,
    dest_path: Seq<char>,
    branch: Option<Seq<char>>,
)
    requires
        m.pending_confirm == Some(
            ConfirmModel::RemoveWorktree {
                project_idx: p as usize,
                worktree_idx: w as usize,
                name,
                repo_path,
                dest_path,
                branch,
            },
        ),
        0 <= p < m.projects.len() <= usize::MAX,
        0 <= w < m.projects[p].worktrees.len() <= usize::MAX,
    ensures
        ({
            let ids = m.projects[p].worktrees[w].sessions;
            let (after, cmds) = crate::popups::confirm_key(m, k);
            let yes = k.code == KeyCode::Char('y') || k.code == KeyCode::Char('Y');
            &&& !yes ==> cmds.len() == 0 && after.projects == m.projects && after.sessions
                == m.sessions
            &&& (k.code == KeyCode::Char('n') || k.code == KeyCode::Char('N') || k.code
                == KeyCode::Esc) ==> after.pending_confirm is None
            &&& yes ==> {
                &&& after.pending_confirm is None
                &&& cmds.len() == ids.len() + 1
                &&& forall|i: int|
                    0 <= i < ids.len() ==> #[trigger] cmds[i] == CommandModel::KillSession(ids[i])
                &&& cmds[ids.len() as int] == (CommandModel::RemoveWorktree {
                    project_idx: p as usize,
                    worktree_idx: w as usize,
                    repo_path,
                    dest_path,
                    branch,
                })
                &&& after.projects[p].worktrees[w].sessions.len() == 0
                &&& after.projects[p].worktrees[w].active_tab is None
                &&& forall|id: u64| #[trigger]
                    after.sessions.contains(id) ==> m.sessions.contains(id) && !ids.contains(id)
            }
        }),
{
    let ids = m.projects[p].worktrees[w].sessions;
    lemma_without_all(m.sessions, ids);
}

proof fn lemma_without_all(s: Seq<u64>, ids: Seq<u64>)
    ensures
        forall|id: u64| #[trigger]
            without_all(s, ids).contains(id) ==> s.contains(id) && !ids.contains(id),
    decreases ids.len(),
{
    if ids.len() > 0 {
        let front = ids.drop_last();
        lemma_without_all(s, front);
        let before = without_all(s, front);
        lemma_without(before, ids.last());
        assert forall|id: u64| #[trigger] without_all(s, ids).contains(id) implies s.contains(id)
            && !ids.contains(id) by {
            assert(before.contains(id));
            if ids.contains(id) {
                let k = choose|k: int| 0 <= k < ids.len() && ids[k] == id;
                if k < front.len() {
                    assert(front[k] == id);
                }
            }
        }
    }
}

proof fn lemma_without(s: Seq<u64>, id: u64)
    ensures
        forall|x: u64| #[trigger]
            crate::session::without(s, id).contains(x) ==> s.contains(x) && x != id,
    decreases s.len(),
{
    if s.len() > 0 {
        let front = s.drop_last();
        lemma_without(front, id);
        let w = crate::session::without(s, id);
        let wf = crate::session::without(front, id);
        assert forall|x: u64| #[trigger] w.contains(x) implies s.contains(x) && x != id by {
            let k = choose|k: int| 0 <= k < w.len() && w[k] == x;
            if k < wf.len() {
                assert(wf[k] == x);
                assert(wf.contains(x));
                let j = choose|j: int| 0 <= j < front.len() && front[j] == x;
                assert(s[j] == x);
            } else {
                assert(s[s.len() - 1] == x);
            }
        }
    }
}

/// Ctrl-S in the editor saves the lines as the setup script of the project that was
/// edited, without newlines at the end, and has that project written; nothing left
/// means no script. No other project changes. Esc saves nothing.
pub proof fn law_the_edited_script_is_saved(m: AppModel, k: KeyEvent, typed: BoxModel, p: int)
    requires
        m.edit_popup matches Some(popup) && popup.project_idx == p,
        0 <= p < m.projects.len(),
    ensures
        ({
            let popup = m.edit_popup->Some_0;
            let script = text::strip_newlines(text::join(popup.textarea.lines, "\n"@));
            let (after, cmds) = edit_key(m, k, typed);
            &&& k.code == KeyCode::Esc ==> cmds.len() == 0 && after.edit_popup is None
                && after.projects == m.projects
            &&& ctrl_s(k) ==> {
                &&& cmds == seq![CommandModel::SaveProjectConfig(p as usize)]
                &&& after.edit_popup is None
                &&& after.projects.len() == m.projects.len()
                &&& after.projects[p] == (ProjectModel {
                    setup_script: if script.len() > 0 {
                        Some(script)
                    } else {
                        None
                    },
                    ..m.projects[p]
                })
                &&& forall|i: int|
                    0 <= i < m.projects.len() && i != p ==> #[trigger] after.projects[i]
                        == m.projects[i]
            }
            &&& !ctrl_s(k) && k.code != KeyCode::Esc ==> cmds.len() == 0 && after == (AppModel {
                edit_popup: Some(EditModel { textarea: typed, ..popup }),
                ..m
            })
        }),
{
}

} // verus!
