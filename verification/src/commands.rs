//! What the ex-style commands (`:q`, `:open`, `:set key=value`, …) do.

use crate::app::{
    launch_models, local, local_id, opt_view, AppModel, AppState, Command, CommandModel, Commands,
    ConfirmModel, EditModel, EditPopup, InputModel, InputPopup, LaunchEntry, LaunchEntryModel,
    LaunchModel, LaunchPopup, LaunchSource, Launcher, LauncherModel, OpenModel, OpenProjectFocus,
    OpenProjectPopup, PaletteModel, PalettePopup, PendingConfirm, PopupAction, ProjectModel,
    UpdateStatus, UsagePopup,
};
pub use crate::cmdtable::{CmdSpec, COMMANDS};
use crate::cmdtable::{command_named, find_command};
use crate::editbox::{empty_box, fresh_box, EditBox};
use crate::keybinds::Scope;
use crate::mutate;
use crate::palette::{self, build_entries, palette_entries};
use crate::paths;
use crate::sidebar::{quiet, Step};
use crate::tabs::{
    self, all_swept, launched_in_active, paths_of, tab_closed, tab_opened, width_set, Sweep,
};
use crate::text;
use crate::theme::{Theme, ThemeKind};
use vstd::prelude::*;

verus! {

/// The state with that feedback.
pub open spec fn told(m: AppModel, msg: Seq<char>) -> AppModel {
    AppModel { command_status: Some(msg), ..m }
}

fn tell(state: &mut AppState, msg: &str)
    ensures
        final(state)@ == told(old(state)@, msg@),
{
    state.command_status = Some(text::owned(msg));
}

// ---------------------------------------------------------------------------
// Which project is meant
// ---------------------------------------------------------------------------

/// The project the sidebar is "on": that of the cursor, else that of the active
/// worktree.
pub open spec fn selected_project(m: AppModel) -> Option<usize> {
    match m.sidebar_selection {
        Some((p, _)) => if p < m.projects.len() {
            Some(p)
        } else {
            match m.active_worktree {
                Some((a, _)) => Some(a),
                None => None,
            }
        },
        None => match m.active_worktree {
            Some((a, _)) => Some(a),
            None => None,
        },
    }
}

/// Resolve the project the sidebar is "on". Prefers an explicit selection;
/// falls back to the active worktree's project.
pub fn selected_project_idx(state: &AppState) -> (r: Option<usize>)
    ensures
        r == selected_project(state@),
        state@.consistent() ==> (r matches Some(p) ==> p < state@.projects.len()),
{
    if let Some((p, _)) = state.sidebar_selection {
        if p < state.projects.len() {
            return Some(p);
        }
    }
    match state.active_worktree {
        Some((p, _)) => Some(p),
        None => None,
    }
}

/// What a command says that needs a project where none is selected.
pub open spec fn no_project(m: AppModel) -> Step {
    quiet(told(m, "select a project in the sidebar first"@))
}

// ---------------------------------------------------------------------------
// Supervisors and usage
// ---------------------------------------------------------------------------

/// `:usage`.
pub open spec fn usage_opened(m: AppModel) -> Step {
    (
        AppModel { usage_popup: Some(crate::app::fresh_usage(m.supervisors)), ..m },
        seq![CommandModel::SubscribeUsage],
    )
}

pub fn cmd_usage(state: &mut AppState, cmds: &mut Commands)
    ensures
        final(state)@ == usage_opened(old(state)@).0,
        final(cmds)@ == old(cmds)@ + usage_opened(old(state)@).1,
{
    let dir = state.supervisors.copy();
    state.usage_popup = Some(UsagePopup::new(dir));
    cmds.push(Command::SubscribeUsage);
    assert(cmds@ =~= old(cmds)@ + seq![CommandModel::SubscribeUsage]);
}

/// `:reconnect`.
pub open spec fn reconnected(m: AppModel) -> Step {
    match m.sidebar_selection {
        Some((p, _)) => if p < m.projects.len() {
            let sup = m.projects[p as int].supervisor;
            let name = m.supervisors.name_of(sup);
            if sup == local_id() {
                quiet(told(m, "local supervisor is always connected"@))
            } else if m.supervisors.connected.contains(sup) {
                quiet(told(m, "supervisor '"@ + name + "' already connected"@))
            } else {
                (
                    told(m, "reconnecting to '"@ + name + "'…"@),
                    seq![CommandModel::ReconnectSupervisor(sup)],
                )
            }
        } else {
            quiet(m)
        },
        None => quiet(told(m, "select a project first"@)),
    }
}

pub fn cmd_reconnect(state: &mut AppState, cmds: &mut Commands)
    ensures
        final(state)@ == reconnected(old(state)@).0,
        final(cmds)@ == old(cmds)@ + reconnected(old(state)@).1,
{
    assert(cmds@ =~= old(cmds)@ + Seq::<CommandModel>::empty());
    let p: usize = match state.sidebar_selection {
        Some((p, _)) => p,
        None => {
            tell(state, "select a project first");
            return;
        },
    };
    if p >= state.projects.len() {
        return;
    }
    let sup = state.projects[p].supervisor;
    if sup == local() {
        tell(state, "local supervisor is always connected");
        return;
    }
    let name = state.supervisors.name_of(sup);
    if state.supervisors.is_connected(sup) {
        let msg = text::concat3("supervisor '", name.as_str(), "' already connected");
        tell(state, msg.as_str());
        return;
    }
    let msg = text::concat3("reconnecting to '", name.as_str(), "'…");
    tell(state, msg.as_str());
    cmds.push(Command::ReconnectSupervisor(sup));
    assert(cmds@ =~= old(cmds)@ + seq![CommandModel::ReconnectSupervisor(sup)]);
}

/// `:restart-supervisor`: every session is gone, and the program ends.
pub open spec fn restarted(m: AppModel) -> Step {
    let m1 = told(m, "restarting supervisor — all sessions killed"@);
    let m2 = all_swept(AppModel { sessions: seq![], ..m1 }, Sweep::All);
    (AppModel { running: false, ..m2 }, seq![CommandModel::RestartSupervisor])
}

pub fn cmd_restart_supervisor(state: &mut AppState, cmds: &mut Commands)
    ensures
        final(state)@ == restarted(old(state)@).0,
        final(cmds)@ == old(cmds)@ + restarted(old(state)@).1,
{
    tell(state, "restarting supervisor — all sessions killed");
    state.sessions.clear();
    assert(state@.sessions =~= seq![]);
    tabs::sweep(state, Sweep::All);
    cmds.push(Command::RestartSupervisor);
    assert(cmds@ =~= old(cmds)@ + seq![CommandModel::RestartSupervisor]);
    state.running = false;
}

// ---------------------------------------------------------------------------
// Opening projects
// ---------------------------------------------------------------------------

/// `path` with a leading `~` replaced by the home directory, where there is one.
pub open spec fn expanded_path(path: Seq<char>, home: Option<Seq<char>>) -> Seq<char> {
    match home {
        Some(h) => if path == seq!['~'] {
            h
        } else if path.len() >= 2 && path[0] == '~' && path[1] == '/' {
            paths::joined(h, path.skip(2))
        } else {
            path
        },
        None => path,
    }
}

/// Resolves `~` and `~/…`; any other path stays as it is.
pub fn expand_user_path(path: &str, home: Option<&str>) -> (r: String)
    ensures
        r@ == expanded_path(
            path@,
            match home {
                Some(h) => Some(h@),
                None => None,
            },
        ),
{
    let h = match home {
        Some(h) => h,
        None => return text::owned(path),
    };
    let v = text::chars_of(path);
    if v.len() == 1 && v[0] == '~' {
        assert(path@ =~= seq!['~']);
        return text::owned(h);
    }
    assert(path@ == seq!['~'] ==> path@.len() == 1 && path@[0] == '~');
    if v.len() >= 2 && v[0] == '~' && v[1] == '/' {
        let rest = text::string_of(&v, 2, v.len());
        assert(rest@ =~= path@.skip(2));
        return paths::join(h, rest.as_str());
    }
    text::owned(path)
}

/// What the script field of the open-project popup shows while it is empty.
pub const SCRIPT_PLACEHOLDER: &'static str =
    "optional: bash run in each new worktree on creation (Tab to focus, Ctrl-S to save)";

/// An open-project popup that has just opened.
pub open spec fn fresh_open() -> OpenModel {
    OpenModel {
        path: seq![],
        script: empty_box(SCRIPT_PLACEHOLDER@),
        focus: OpenProjectFocus::Path,
        import_existing: false,
        supervisor: local_id(),
        browser: None,
    }
}

/// `:open [path]`. A path is opened on the local supervisor; without one a popup
/// asks for it.
pub open spec fn opened(m: AppModel, args: Seq<Seq<char>>) -> Step {
    if args.len() > 0 {
        (
            AppModel { pending_op: Some("Opening "@ + args[0] + "…"@), ..m },
            seq![
                CommandModel::OpenProject {
                    supervisor: local_id(),
                    path: args[0],
                    setup_script: None,
                    import_existing: false,
                },
            ],
        )
    } else {
        quiet(AppModel { open_project_popup: Some(fresh_open()), ..m })
    }
}

pub fn cmd_open(state: &mut AppState, args: &Vec<String>, cmds: &mut Commands)
    ensures
        final(state)@ == opened(old(state)@, text::texts(args@)).0,
        final(cmds)@ == old(cmds)@ + opened(old(state)@, text::texts(args@)).1,
{
    if args.len() > 0 {
        let path = args[0].clone();
        state.pending_op = Some(text::concat3("Opening ", path.as_str(), "…"));
        let ghost shown = path@;
        cmds.push(
            Command::OpenProject {
                supervisor: local(),
                path,
                setup_script: None,
                import_existing: false,
            },
        );
        assert(cmds@ =~= old(cmds)@ + opened(old(state)@, text::texts(args@)).1);
    } else {
        let path = String::new();
        assert(path@ =~= seq![]);
        state.open_project_popup = Some(
            OpenProjectPopup {
                path,
                script: EditBox::with_placeholder(SCRIPT_PLACEHOLDER),
                focus: OpenProjectFocus::Path,
                import_existing: false,
                supervisor: local(),
                browser: None,
            },
        );
        assert(cmds@ =~= old(cmds)@ + Seq::<CommandModel>::empty());
    }
}

/// The listing that a popup which was not open before needs first: the home
/// directory of its supervisor's host.
pub fn initial_listing(was_open: bool, state: &AppState) -> (r: Option<Command>)
    ensures
        match r {
            Some(c) => {
                &&& !was_open
                &&& state@.open_project_popup matches Some(popup)
                &&& popup.browser is None
                &&& c@ == (CommandModel::ListDir { supervisor: popup.supervisor, path: None })
            },
            None => was_open || state@.open_project_popup is None
                || state@.open_project_popup->Some_0.browser is Some,
        },
{
    if was_open {
        return None;
    }
    match &state.open_project_popup {
        Some(popup) => {
            if popup.browser.is_none() {
                Some(Command::ListDir { supervisor: popup.supervisor, path: None })
            } else {
                None
            }
        },
        None => None,
    }
}

// ---------------------------------------------------------------------------
// Worktrees
// ---------------------------------------------------------------------------

/// `:worktree [branch]`.
pub open spec fn worktree_asked(m: AppModel, args: Seq<Seq<char>>) -> Step {
    match selected_project(m) {
        Some(p) => {
            let project = m.projects[p as int];
            if args.len() > 0 {
                (
                    AppModel {
                        pending_op: Some("Creating worktree '"@ + args[0] + "'…"@),
                        ..m
                    },
                    seq![
                        CommandModel::AddWorktree {
                            project_idx: p,
                            repo_path: project.repo_path,
                            branch: args[0],
                        },
                    ],
                )
            } else {
                quiet(
                    AppModel {
                        popup: Some(
                            InputModel {
                                title: "New worktree (project: "@ + project.name + ")"@,
                                prompt: "branch"@,
                                buffer: seq![],
                                action: PopupAction::NewWorktree { project_idx: p },
                            },
                        ),
                        ..m
                    },
                )
            }
        },
        None => no_project(m),
    }
}

pub fn cmd_worktree(state: &mut AppState, args: &Vec<String>, cmds: &mut Commands)
    requires
        old(state)@.consistent(),
    ensures
        final(state)@ == worktree_asked(old(state)@, text::texts(args@)).0,
        final(cmds)@ == old(cmds)@ + worktree_asked(old(state)@, text::texts(args@)).1,
{
    assert(cmds@ =~= old(cmds)@ + Seq::<CommandModel>::empty());
    let p: usize = match selected_project_idx(state) {
        Some(p) => p,
        None => {
            tell(state, "select a project in the sidebar first");
            return;
        },
    };
    if args.len() > 0 {
        let repo_path = state.projects[p].repo_path.clone();
        let branch = args[0].clone();
        state.pending_op = Some(text::concat3("Creating worktree '", branch.as_str(), "'…"));
        cmds.push(Command::AddWorktree { project_idx: p, repo_path, branch });
        assert(cmds@ =~= old(cmds)@ + worktree_asked(old(state)@, text::texts(args@)).1);
    } else {
        let title = text::concat3("New worktree (project: ", state.projects[p].name.as_str(), ")");
        let buffer = String::new();
        assert(buffer@ =~= seq![]);
        state.popup = Some(
            InputPopup {
                title,
                prompt: text::owned("branch"),
                buffer,
                action: PopupAction::NewWorktree { project_idx: p },
            },
        );
    }
}

/// `:import`.
pub open spec fn import_asked(m: AppModel) -> Step {
    match selected_project(m) {
        Some(p) => (
            AppModel { pending_op: Some("Importing existing worktrees…"@), ..m },
            seq![
                CommandModel::ImportWorktrees {
                    project_idx: p,
                    repo_path: m.projects[p as int].repo_path,
                },
            ],
        ),
        None => no_project(m),
    }
}

pub fn cmd_import(state: &mut AppState, cmds: &mut Commands)
    requires
        old(state)@.consistent(),
    ensures
        final(state)@ == import_asked(old(state)@).0,
        final(cmds)@ == old(cmds)@ + import_asked(old(state)@).1,
{
    assert(cmds@ =~= old(cmds)@ + Seq::<CommandModel>::empty());
    let p: usize = match selected_project_idx(state) {
        Some(p) => p,
        None => {
            tell(state, "select a project in the sidebar first");
            return;
        },
    };
    let repo_path = state.projects[p].repo_path.clone();
    state.pending_op = Some(text::owned("Importing existing worktrees…"));
    cmds.push(Command::ImportWorktrees { project_idx: p, repo_path });
    assert(cmds@ =~= old(cmds)@ + import_asked(old(state)@).1);
}

/// `:worktree-remove`: asks for a confirmation. A project's main worktree, at
/// the repository's own path, is not removed.
pub open spec fn removal_asked(m: AppModel) -> AppModel {
    match m.sidebar_selection {
        Some((p, Some(w))) => match m.worktree(p, w) {
            Some(wt) => {
                let project = m.projects[p as int];
                if paths::same_way(wt.path, project.repo_path) {
                    told(m, "can't remove the main worktree"@)
                } else {
                    AppModel {
                        pending_confirm: Some(
                            ConfirmModel::RemoveWorktree {
                                project_idx: p,
                                worktree_idx: w,
                                name: wt.name,
                                repo_path: project.repo_path,
                                dest_path: wt.path,
                                branch: wt.branch,
                            },
                        ),
                        ..m
                    }
                }
            },
            None => m,
        },
        _ => told(m, "select a worktree in the sidebar first"@),
    }
}

pub fn cmd_worktree_remove(state: &mut AppState)
    ensures
        final(state)@ == removal_asked(old(state)@),
{
    let (p, w) = match state.sidebar_selection {
        Some((p, Some(w))) => (p, w),
        _ => {
            tell(state, "select a worktree in the sidebar first");
            return;
        },
    };
    if !mutate::has_worktree(state, p, w) {
        return;
    }
    let project = &state.projects[p];
    let wt = &project.worktrees[w];
    if paths::same_path(wt.path.as_str(), project.repo_path.as_str()) {
        tell(state, "can't remove the main worktree");
        return;
    }
    let confirm = PendingConfirm::RemoveWorktree {
        project_idx: p,
        worktree_idx: w,
        name: wt.name.clone(),
        repo_path: project.repo_path.clone(),
        dest_path: wt.path.clone(),
        branch: text::clone_opt(&wt.branch),
    };
    state.pending_confirm = Some(confirm);
}

/// `:edit`: a popup with the project's setup script.
pub open spec fn edit_opened(m: AppModel) -> AppModel {
    match selected_project(m) {
        Some(p) => {
            let project = m.projects[p as int];
            let script = match project.setup_script {
                Some(s) => s,
                None => seq![],
            };
            AppModel {
                edit_popup: Some(
                    EditModel {
                        project_idx: p,
                        title: "Setup script — "@ + project.name
                            + " (Ctrl-S save · Esc cancel)"@,
                        textarea: fresh_box(text::split(script, '\n')),
                    },
                ),
                ..m
            }
        },
        None => no_project(m).0,
    }
}

pub fn cmd_edit(state: &mut AppState)
    requires
        old(state)@.consistent(),
    ensures
        final(state)@ == edit_opened(old(state)@),
{
    let p: usize = match selected_project_idx(state) {
        Some(p) => p,
        None => {
            tell(state, "select a project in the sidebar first");
            return;
        },
    };
    let project = &state.projects[p];
    let lines = match &project.setup_script {
        Some(s) => text::split_on(s.as_str(), '\n'),
        None => {
            let none = String::new();
            assert(none@ =~= seq![]);
            text::split_on(none.as_str(), '\n')
        },
    };
    let title = text::concat3(
        "Setup script — ",
        project.name.as_str(),
        " (Ctrl-S save · Esc cancel)",
    );
    proof {
        let script = match project@.setup_script {
            Some(s) => s,
            None => seq![],
        };
        text::lemma_split_pieces(script, '\n');
        assert(text::texts(lines@) == text::split(script, '\n'));
        assert forall|i: int| 0 <= i < lines@.len() implies !(#[trigger] lines@[i])@.contains('\n') by {
            assert(text::texts(lines@)[i] == lines@[i]@);
        }
    }
    state.edit_popup = Some(EditPopup { project_idx: p, title, textarea: EditBox::holding(lines) });
}

// ---------------------------------------------------------------------------
// Settings
// ---------------------------------------------------------------------------

/// The key and value that `:set` was given: `key=value` or `key value`.
pub open spec fn setting(args: Seq<Seq<char>>) -> Option<(Seq<char>, Seq<char>)> {
    if args.len() == 1 {
        let n = text::find_char(args[0], '=') as int;
        if n < args[0].len() {
            Some((text::trimmed(args[0].take(n)), text::trimmed(args[0].skip(n + 1))))
        } else {
            None
        }
    } else if args.len() == 2 {
        Some((args[0], args[1]))
    } else {
        None
    }
}

fn read_setting(args: &Vec<String>) -> (r: Option<(String, String)>)
    ensures
        match (r, setting(text::texts(args@))) {
            (Some((k, v)), Some(s)) => k@ == s.0 && v@ == s.1,
            (None, None) => true,
            _ => false,
        },
{
    if args.len() == 1 {
        let v = text::chars_of(args[0].as_str());
        assert(v@ == text::texts(args@)[0]);
        assert(v@.skip(0) =~= v@);
        let n: usize = text::position_from(&v, 0, '=');
        if n >= v.len() {
            return None;
        }
        let key = text::string_of(&v, 0, n);
        let value = text::string_of(&v, n + 1, v.len());
        assert(key@ =~= v@.take(n as int));
        assert(value@ =~= v@.skip(n + 1));
        return Some((text::trim(key.as_str()), text::trim(value.as_str())));
    }
    if args.len() == 2 {
        return Some((args[0].clone(), args[1].clone()));
    }
    None
}

/// `:set`.
pub open spec fn option_set(m: AppModel, args: Seq<Seq<char>>) -> Step {
    match setting(args) {
        Some((key, value)) => if key == "sidebar.width"@ {
            match text::parsed(value, 65535) {
                Some(w) => width_set(m, w as u16),
                None => quiet(told(m, "invalid width: "@ + value)),
            }
        } else if key == "theme"@ {
            match ThemeKind::named(value) {
                Some(kind) => (
                    AppModel { theme: crate::theme::palette(kind), ..m },
                    seq![CommandModel::SaveGlobalConfig],
                ),
                None => quiet(
                    told(m, "invalid theme: "@ + value + " (expected dark|light)"@),
                ),
            }
        } else {
            quiet(told(m, "unknown setting: "@ + key))
        },
        None => quiet(told(m, "usage: :set key=value"@)),
    }
}

/// Accepts `:set key=value` or `:set key value`.
pub fn handle_set(state: &mut AppState, args: &Vec<String>, cmds: &mut Commands)
    ensures
        final(state)@ == option_set(old(state)@, text::texts(args@)).0,
        final(cmds)@ == old(cmds)@ + option_set(old(state)@, text::texts(args@)).1,
{
    assert(cmds@ =~= old(cmds)@ + Seq::<CommandModel>::empty());
    let (key, value) = match read_setting(args) {
        Some(kv) => kv,
        None => {
            tell(state, "usage: :set key=value");
            return;
        },
    };
    if text::same(key.as_str(), "sidebar.width") {
        match text::parse_number(value.as_str(), 65535) {
            Some(w) => tabs::set_sidebar_width(state, w as u16, cmds),
            None => {
                let msg = text::concat2("invalid width: ", value.as_str());
                tell(state, msg.as_str());
            },
        }
    } else if text::same(key.as_str(), "theme") {
        match ThemeKind::parse(value.as_str()) {
            Some(kind) => {
                state.theme = Theme::for_kind(kind);
                cmds.push(Command::SaveGlobalConfig);
                assert(cmds@ =~= old(cmds)@ + seq![CommandModel::SaveGlobalConfig]);
            },
            None => {
                let msg = text::concat3(
                    "invalid theme: ",
                    value.as_str(),
                    " (expected dark|light)",
                );
                tell(state, msg.as_str());
            },
        }
    } else {
        let msg = text::concat2("unknown setting: ", key.as_str());
        tell(state, msg.as_str());
    }
}

// ---------------------------------------------------------------------------
// Launchers
// ---------------------------------------------------------------------------

/// Whether a launcher answers to `name`, whatever its case.
pub open spec fn answers(l: LauncherModel, name: Seq<char>) -> bool {
    text::lower_ascii(l.name) == text::lower_ascii(name)
}

/// The command of the first launcher from `from` on that answers to `name`.
pub open spec fn launcher_from(ls: Seq<LauncherModel>, name: Seq<char>, from: int) -> Option<
    Seq<char>,
>
    decreases ls.len() - from,
{
    if from < 0 || from >= ls.len() {
        None
    } else if answers(ls[from], name) {
        Some(ls[from].command)
    } else {
        launcher_from(ls, name, from + 1)
    }
}

fn find_launcher(ls: &Vec<Launcher>, name: &str) -> (r: Option<String>)
    ensures
        opt_view(r) == launcher_from(crate::app::launcher_models(ls@), name@, 0),
{
    let ghost all = crate::app::launcher_models(ls@);
    let mut i: usize = 0;
    while i < ls.len()
        invariant
            i <= ls.len(),
            all == crate::app::launcher_models(ls@),
            launcher_from(all, name@, 0) == launcher_from(all, name@, i as int),
        decreases ls.len() - i,
    {
        if text::same_ignore_case(ls[i].name.as_str(), name) {
            return Some(ls[i].command.clone());
        }
        i += 1;
    }
    None
}

/// The launchers of project `p`.
pub open spec fn project_launchers(m: AppModel, p: usize) -> Seq<LauncherModel> {
    if p < m.projects.len() {
        m.projects[p as int].launchers
    } else {
        seq![]
    }
}

/// The command that `name` stands for: none for the plain shell; else that of
/// the project's launcher, else that of the global one. The outer option is
/// empty where there is no such launcher.
pub open spec fn launch_command(m: AppModel, p: usize, name: Seq<char>) -> Option<Option<Seq<char>>> {
    if text::lower_ascii(name) == text::lower_ascii("terminal"@) || name == "t"@ {
        Some(None)
    } else {
        match launcher_from(project_launchers(m, p), name, 0) {
            Some(c) => Some(Some(c)),
            None => match launcher_from(m.global_launchers, name, 0) {
                Some(c) => Some(Some(c)),
                None => None,
            },
        }
    }
}

fn resolve_launch(state: &AppState, p: usize, name: &str) -> (r: Option<Option<String>>)
    ensures
        match (r, launch_command(state@, p, name@)) {
            (Some(a), Some(b)) => opt_view(a) == b,
            (None, None) => true,
            _ => false,
        },
{
    if text::same_ignore_case(name, "terminal") || text::same(name, "t") {
        return Some(None);
    }
    if p < state.projects.len() {
        let found = find_launcher(&state.projects[p].launchers, name);
        if found.is_some() {
            return Some(found);
        }
    }
    let found = find_launcher(&state.global_launchers, name);
    if found.is_some() {
        return Some(found);
    }
    None
}

/// The row of the plain shell.
pub open spec fn terminal_row() -> LaunchEntryModel {
    LaunchEntryModel { label: "Terminal"@, command: None, source: LaunchSource::Builtin }
}

/// The row of a launcher.
pub open spec fn launcher_row(l: LauncherModel, source: LaunchSource) -> LaunchEntryModel {
    LaunchEntryModel { label: l.name, command: Some(l.command), source }
}

/// Whether a launcher's name is taken by one in `ls`.
pub open spec fn shadowed(ls: Seq<LauncherModel>, l: LauncherModel) -> bool {
    exists|i: int| 0 <= i < ls.len() && answers(#[trigger] ls[i], l.name)
}

/// The rows of the first `n` global launchers that no launcher of the project
/// shadows.
pub open spec fn global_rows(globals: Seq<LauncherModel>, ls: Seq<LauncherModel>, n: nat) -> Seq<
    LaunchEntryModel,
>
    decreases n,
{
    if n == 0 {
        seq![]
    } else {
        let front = global_rows(globals, ls, (n - 1) as nat);
        if shadowed(ls, globals[n - 1]) {
            front
        } else {
            front.push(launcher_row(globals[n - 1], LaunchSource::Global))
        }
    }
}

/// The rows of the picker: the plain shell first, then the project's launchers,
/// then the global ones that are not shadowed.
pub open spec fn picker_rows(ls: Seq<LauncherModel>, globals: Seq<LauncherModel>) -> Seq<
    LaunchEntryModel,
> {
    seq![terminal_row()] + Seq::new(
        ls.len(),
        |i: int| launcher_row(ls[i], LaunchSource::Project),
    ) + global_rows(globals, ls, globals.len())
}

fn is_shadowed(ls: &Vec<Launcher>, l: &Launcher) -> (r: bool)
    ensures
        r == shadowed(crate::app::launcher_models(ls@), l@),
{
    let ghost all = crate::app::launcher_models(ls@);
    let mut i: usize = 0;
    while i < ls.len()
        invariant
            i <= ls.len(),
            all == crate::app::launcher_models(ls@),
            forall|j: int| 0 <= j < i ==> !answers(#[trigger] all[j], l@.name),
        decreases ls.len() - i,
    {
        if text::same_ignore_case(ls[i].name.as_str(), l.name.as_str()) {
            assert(answers(all[i as int], l@.name));
            return true;
        }
        i += 1;
    }
    false
}

fn picker_entries(ls: &Vec<Launcher>, globals: &Vec<Launcher>) -> (r: Vec<LaunchEntry>)
    ensures
        launch_models(r@) == picker_rows(
            crate::app::launcher_models(ls@),
            crate::app::launcher_models(globals@),
        ),
{
    let ghost a = crate::app::launcher_models(ls@);
    let ghost b = crate::app::launcher_models(globals@);
    let ghost own = Seq::new(a.len(), |i: int| launcher_row(a[i], LaunchSource::Project));
    let mut out: Vec<LaunchEntry> = Vec::new();
    out.push(
        LaunchEntry {
            label: text::owned("Terminal"),
            command: None,
            source: LaunchSource::Builtin,
        },
    );
    assert(launch_models(out@) =~= seq![terminal_row()] + own.take(0));
    let mut i: usize = 0;
    while i < ls.len()
        invariant
            i <= ls.len(),
            a == crate::app::launcher_models(ls@),
            own == Seq::new(a.len(), |i: int| launcher_row(a[i], LaunchSource::Project)),
            launch_models(out@) == seq![terminal_row()] + own.take(i as int),
        decreases ls.len() - i,
    {
        let ghost before = out@;
        out.push(
            LaunchEntry {
                label: ls[i].name.clone(),
                command: Some(ls[i].command.clone()),
                source: LaunchSource::Project,
            },
        );
        assert(launch_models(out@) =~= launch_models(before).push(own[i as int]));
        assert(seq![terminal_row()] + own.take(i + 1) =~= (seq![terminal_row()] + own.take(
            i as int,
        )).push(own[i as int]));
        i += 1;
    }
    let ghost head = seq![terminal_row()] + own;
    assert(own.take(a.len() as int) =~= own);
    let mut j: usize = 0;
    assert(launch_models(out@) =~= head + global_rows(b, a, 0));
    while j < globals.len()
        invariant
            j <= globals.len(),
            a == crate::app::launcher_models(ls@),
            b == crate::app::launcher_models(globals@),
            launch_models(out@) == head + global_rows(b, a, j as nat),
        decreases globals.len() - j,
    {
        let ghost before = out@;
        assert(b[j as int] == globals[j as int]@);
        if !is_shadowed(ls, &globals[j]) {
            out.push(
                LaunchEntry {
                    label: globals[j].name.clone(),
                    command: Some(globals[j].command.clone()),
                    source: LaunchSource::Global,
                },
            );
            assert(launch_models(out@) =~= launch_models(before).push(
                launcher_row(b[j as int], LaunchSource::Global),
            ));
        }
        assert(launch_models(out@) =~= head + global_rows(b, a, (j + 1) as nat));
        j += 1;
    }
    out
}

/// `:launch [name]`.
pub open spec fn launched(m: AppModel, args: Seq<Seq<char>>) -> Step {
    match m.active_worktree {
        Some((p, w)) => if args.len() > 0 {
            match launch_command(m, p, args[0]) {
                Some(command) => launched_in_active(m, command),
                None => quiet(told(m, "no launcher named '"@ + args[0] + "'"@)),
            }
        } else {
            quiet(
                AppModel {
                    launch_popup: Some(
                        LaunchModel {
                            project_idx: p,
                            worktree_idx: w,
                            entries: picker_rows(project_launchers(m, p), m.global_launchers),
                            cursor: 0,
                        },
                    ),
                    ..m
                },
            )
        },
        None => quiet(told(m, "no active worktree — pick one first"@)),
    }
}

pub fn cmd_launch(state: &mut AppState, args: &Vec<String>, cmds: &mut Commands)
    ensures
        final(state)@ == launched(old(state)@, text::texts(args@)).0,
        final(cmds)@ == old(cmds)@ + launched(old(state)@, text::texts(args@)).1,
{
    assert(cmds@ =~= old(cmds)@ + Seq::<CommandModel>::empty());
    let (p, w) = match state.active_worktree {
        Some(at) => at,
        None => {
            tell(state, "no active worktree — pick one first");
            return;
        },
    };
    if args.len() > 0 {
        match resolve_launch(state, p, args[0].as_str()) {
            Some(command) => tabs::launch_in_active_worktree(state, command, cmds),
            None => {
                let msg = text::concat3("no launcher named '", args[0].as_str(), "'");
                tell(state, msg.as_str());
            },
        }
        return;
    }
    let none: Vec<Launcher> = Vec::new();
    assert(crate::app::launcher_models(none@) =~= seq![]);
    let entries = if p < state.projects.len() {
        picker_entries(&state.projects[p].launchers, &state.global_launchers)
    } else {
        picker_entries(&none, &state.global_launchers)
    };
    state.launch_popup = Some(LaunchPopup { project_idx: p, worktree_idx: w, entries, cursor: 0 });
}

/// A project's launcher wins over a global one of the same name.
pub proof fn law_project_launchers_shadow_global_ones(m: AppModel, p: usize, name: Seq<char>)
    requires
        launcher_from(project_launchers(m, p), name, 0) is Some,
        text::lower_ascii(name) != text::lower_ascii("terminal"@),
        name != "t"@,
    ensures
        launch_command(m, p, name) == Some(launcher_from(project_launchers(m, p), name, 0)),
{
}

proof fn lemma_global_rows(globals: Seq<LauncherModel>, ls: Seq<LauncherModel>, n: nat, k: int)
    requires
        n <= globals.len(),
        0 <= k < global_rows(globals, ls, n).len(),
    ensures
        exists|i: int|
            0 <= i < n && !shadowed(ls, #[trigger] globals[i]) && global_rows(globals, ls, n)[k]
                == launcher_row(globals[i], LaunchSource::Global),
    decreases n,
{
    if n > 0 {
        let front = global_rows(globals, ls, (n - 1) as nat);
        if k < front.len() {
            lemma_global_rows(globals, ls, (n - 1) as nat, k);
            let i = choose|i: int|
                0 <= i < n - 1 && !shadowed(ls, #[trigger] globals[i]) && front[k] == launcher_row(
                    globals[i],
                    LaunchSource::Global,
                );
            assert(!shadowed(ls, globals[i]));
        } else {
            assert(!shadowed(ls, globals[n - 1]));
        }
    }
}

/// In the picker no global launcher has the name of one of the project's.
pub proof fn law_picker_shows_no_shadowed_launcher(
    ls: Seq<LauncherModel>,
    globals: Seq<LauncherModel>,
    k: int,
    j: int,
)
    requires
        0 <= k < picker_rows(ls, globals).len(),
        picker_rows(ls, globals)[k].source is Global,
        0 <= j < ls.len(),
    ensures
        text::lower_ascii(picker_rows(ls, globals)[k].label) != text::lower_ascii(ls[j].name),
{
    let rest = global_rows(globals, ls, globals.len());
    let at = k - 1 - ls.len();
    if at < 0 {
        if k > 0 {
            assert(picker_rows(ls, globals)[k] == launcher_row(ls[k - 1], LaunchSource::Project));
        } else {
            assert(picker_rows(ls, globals)[0] == terminal_row());
        }
    } else {
        assert(picker_rows(ls, globals)[k] == rest[at]);
        lemma_global_rows(globals, ls, globals.len(), at);
        let i = choose|i: int|
            0 <= i < globals.len() && !shadowed(ls, #[trigger] globals[i]) && rest[at]
                == launcher_row(globals[i], LaunchSource::Global);
        assert(!answers(ls[j], globals[i].name));
    }
}

// ---------------------------------------------------------------------------
// GitHub
// ---------------------------------------------------------------------------

/// The request for the PR statuses of all worktrees of project `p`.
pub open spec fn pr_fetch(m: AppModel, p: usize) -> CommandModel {
    CommandModel::FetchPrStatuses {
        project_idx: p,
        repo_path: m.projects[p as int].repo_path,
        worktrees: paths_of(m.projects[p as int]),
    }
}

/// Asks for the PR statuses of all worktrees of project `p`.
pub fn push_pr_fetch(state: &AppState, p: usize, cmds: &mut Commands)
    requires
        p < state@.projects.len(),
    ensures
        final(cmds)@ == old(cmds)@.push(pr_fetch(state@, p)),
{
    let project = &state.projects[p];
    let worktrees = tabs::worktree_paths(project);
    cmds.push(
        Command::FetchPrStatuses {
            project_idx: p,
            repo_path: project.repo_path.clone(),
            worktrees,
        },
    );
}

/// `:gh-enable`.
pub open spec fn gh_enabled(m: AppModel) -> Step {
    if !m.gh_available {
        quiet(told(m, "`gh` not found in PATH — install GitHub CLI first"@))
    } else {
        match selected_project(m) {
            Some(p) => {
                let m1 = m.with_project(
                    p,
                    ProjectModel { github_enabled: true, ..m.projects[p as int] },
                );
                (
                    told(m1, "GitHub PR status enabled"@),
                    seq![CommandModel::SaveProjectConfig(p), pr_fetch(m1, p)],
                )
            },
            None => no_project(m),
        }
    }
}

pub fn cmd_gh_enable(state: &mut AppState, cmds: &mut Commands)
    requires
        old(state)@.consistent(),
    ensures
        final(state)@ == gh_enabled(old(state)@).0,
        final(cmds)@ == old(cmds)@ + gh_enabled(old(state)@).1,
{
    assert(cmds@ =~= old(cmds)@ + Seq::<CommandModel>::empty());
    if !state.gh_available {
        tell(state, "`gh` not found in PATH — install GitHub CLI first");
        return;
    }
    let p: usize = match selected_project_idx(state) {
        Some(p) => p,
        None => {
            tell(state, "select a project in the sidebar first");
            return;
        },
    };
    mutate::set_github(state, p, true);
    let ghost m1 = state@;
    tell(state, "GitHub PR status enabled");
    cmds.push(Command::SaveProjectConfig(p));
    push_pr_fetch(state, p, cmds);
    assert(pr_fetch(state@, p) == pr_fetch(m1, p));
    assert(cmds@ =~= old(cmds)@ + gh_enabled(old(state)@).1);
}

/// `:gh-disable`: the project's statuses are forgotten.
pub open spec fn gh_disabled(m: AppModel) -> Step {
    match selected_project(m) {
        Some(p) => {
            let m1 = m.with_project(
                p,
                ProjectModel { github_enabled: false, ..m.projects[p as int] },
            );
            (
                told(
                    AppModel {
                        pr_statuses: crate::app::without_project(m.pr_statuses, p),
                        ..m1
                    },
                    "GitHub PR status disabled"@,
                ),
                seq![CommandModel::SaveProjectConfig(p)],
            )
        },
        None => no_project(m),
    }
}

pub fn cmd_gh_disable(state: &mut AppState, cmds: &mut Commands)
    requires
        old(state)@.consistent(),
    ensures
        final(state)@ == gh_disabled(old(state)@).0,
        final(cmds)@ == old(cmds)@ + gh_disabled(old(state)@).1,
{
    assert(cmds@ =~= old(cmds)@ + Seq::<CommandModel>::empty());
    let p: usize = match selected_project_idx(state) {
        Some(p) => p,
        None => {
            tell(state, "select a project in the sidebar first");
            return;
        },
    };
    mutate::set_github(state, p, false);
    state.pr_statuses.remove_project(p);
    tell(state, "GitHub PR status disabled");
    cmds.push(Command::SaveProjectConfig(p));
    assert(cmds@ =~= old(cmds)@ + gh_disabled(old(state)@).1);
}

/// `:gh-refresh`.
pub open spec fn gh_refreshed(m: AppModel) -> Step {
    match selected_project(m) {
        Some(p) => if !m.projects[p as int].github_enabled {
            quiet(told(m, "GitHub integration disabled — run :gh-enable first"@))
        } else if !m.gh_available {
            quiet(told(m, "`gh` not found in PATH"@))
        } else {
            (
                AppModel {
                    pr_refresh_in_flight: true,
                    ..told(m, "refreshing PR status…"@)
                },
                seq![pr_fetch(m, p)],
            )
        },
        None => no_project(m),
    }
}

pub fn cmd_gh_refresh(state: &mut AppState, cmds: &mut Commands)
    requires
        old(state)@.consistent(),
    ensures
        final(state)@ == gh_refreshed(old(state)@).0,
        final(cmds)@ == old(cmds)@ + gh_refreshed(old(state)@).1,
{
    assert(cmds@ =~= old(cmds)@ + Seq::<CommandModel>::empty());
    let p: usize = match selected_project_idx(state) {
        Some(p) => p,
        None => {
            tell(state, "select a project in the sidebar first");
            return;
        },
    };
    if !state.projects[p].github_enabled {
        tell(state, "GitHub integration disabled — run :gh-enable first");
        return;
    }
    if !state.gh_available {
        tell(state, "`gh` not found in PATH");
        return;
    }
    push_pr_fetch(state, p, cmds);
    assert(cmds@ =~= old(cmds)@ + seq![pr_fetch(old(state)@, p)]);
    tell(state, "refreshing PR status…");
    state.pr_refresh_in_flight = true;
}

// ---------------------------------------------------------------------------
// Updates, the palette, the log
// ---------------------------------------------------------------------------

/// `:update [check]`. With `check` it only looks; else it installs the release
/// that is known, or looks for one to install.
pub open spec fn update_asked(m: AppModel, args: Seq<Seq<char>>) -> Step {
    if m.update_status is Installing {
        quiet(told(m, "update already in progress"@))
    } else if args.len() > 0 && text::lower_ascii(args[0]) == text::lower_ascii("check"@) {
        (
            AppModel {
                auto_install_after_check: false,
                update_status: UpdateStatus::Checking,
                ..told(m, "checking for updates…"@)
            },
            seq![CommandModel::CheckForUpdate],
        )
    } else {
        match m.available_update {
            Some(info) => (
                AppModel {
                    update_status: UpdateStatus::Installing,
                    ..told(m, "installing "@ + info.latest_tag@ + "…"@)
                },
                seq![CommandModel::InstallUpdate { tag: info.latest_tag@ }],
            ),
            None => (
                AppModel {
                    auto_install_after_check: true,
                    update_status: UpdateStatus::Checking,
                    ..told(m, "checking for updates…"@)
                },
                seq![CommandModel::CheckForUpdate],
            ),
        }
    }
}

pub fn cmd_update(state: &mut AppState, args: &Vec<String>, cmds: &mut Commands)
    ensures
        final(state)@ == update_asked(old(state)@, text::texts(args@)).0,
        final(cmds)@ == old(cmds)@ + update_asked(old(state)@, text::texts(args@)).1,
{
    assert(cmds@ =~= old(cmds)@ + Seq::<CommandModel>::empty());
    if state.update_status == UpdateStatus::Installing {
        tell(state, "update already in progress");
        return;
    }
    if args.len() > 0 && text::same_ignore_case(args[0].as_str(), "check") {
        state.auto_install_after_check = false;
        state.update_status = UpdateStatus::Checking;
        tell(state, "checking for updates…");
        cmds.push(Command::CheckForUpdate);
        assert(cmds@ =~= old(cmds)@ + seq![CommandModel::CheckForUpdate]);
        return;
    }
    let known = match &state.available_update {
        Some(info) => Some(info.latest_tag.clone()),
        None => None,
    };
    match known {
        Some(tag) => {
            state.update_status = UpdateStatus::Installing;
            let msg = text::concat3("installing ", tag.as_str(), "…");
            tell(state, msg.as_str());
            let ghost t = tag@;
            cmds.push(Command::InstallUpdate { tag });
            assert(cmds@ =~= old(cmds)@ + seq![CommandModel::InstallUpdate { tag: t }]);
        },
        None => {
            state.auto_install_after_check = true;
            state.update_status = UpdateStatus::Checking;
            tell(state, "checking for updates…");
            cmds.push(Command::CheckForUpdate);
            assert(cmds@ =~= old(cmds)@ + seq![CommandModel::CheckForUpdate]);
        },
    }
}

/// `:palette`: every entry shows, the first is highlighted.
pub open spec fn palette_opened(m: AppModel) -> AppModel {
    let entries = palette_entries(m.keys_normal);
    AppModel {
        palette_popup: Some(
            PaletteModel {
                query: seq![],
                entries,
                filtered: palette::matching(entries, seq![]),
                cursor: 0,
            },
        ),
        ..m
    }
}

/// Opens the command palette.
pub fn open_palette(state: &mut AppState)
    ensures
        final(state)@ == palette_opened(old(state)@),
{
    let entries = build_entries(&state.keymap);
    let query = String::new();
    assert(query@ =~= seq![]);
    let filtered = palette::filter(&entries, query.as_str());
    assert(state@.keys_normal == state.keymap.table(Scope::Normal));
    state.palette_popup = Some(PalettePopup { query, entries, filtered, cursor: 0 });
}

/// The client's log: `imbuia/imbuia.log` under `$XDG_CACHE_HOME`, else under
/// `.cache` in the home directory, else under the current one.
pub open spec fn client_log(cache: Option<Seq<char>>, home: Option<Seq<char>>) -> Seq<char> {
    let base = match cache {
        Some(c) => c,
        None => match home {
            Some(h) => paths::joined(h, ".cache"@),
            None => "."@,
        },
    };
    paths::joined(paths::joined(base, "imbuia"@), "imbuia.log"@)
}

/// Where the client's log lies, from the values of the two variables.
pub fn client_log_path(cache: Option<String>, home: Option<String>) -> (r: String)
    ensures
        r@ == client_log(text::opt_text(cache), text::opt_text(home)),
{
    let base = match cache {
        Some(c) => c,
        None => match home {
            Some(h) => paths::join(h.as_str(), ".cache"),
            None => text::owned("."),
        },
    };
    let dir = paths::join(base.as_str(), "imbuia");
    paths::join(dir.as_str(), "imbuia.log")
}

/// `:log-path`.
pub fn cmd_log_path(state: &mut AppState)
    ensures
        final(state)@ == told(old(state)@, "log: "@ + old(state)@.log_path),
{
    let msg = text::concat2("log: ", state.log_path.as_str());
    tell(state, msg.as_str());
}

// ---------------------------------------------------------------------------
// Running a command line
// ---------------------------------------------------------------------------

/// What a command does with its arguments.
pub open spec fn command_run(m: AppModel, c: CmdSpec, args: Seq<Seq<char>>) -> Step {
    match c {
        CmdSpec::Quit => quiet(AppModel { running: false, ..m }),
        CmdSpec::TabNew => (m, tab_opened(m)),
        CmdSpec::TabClose => tab_closed(m),
        CmdSpec::SetOption => option_set(m, args),
        CmdSpec::Help => quiet(AppModel { help_open: true, ..m }),
        CmdSpec::Open => opened(m, args),
        CmdSpec::Worktree => worktree_asked(m, args),
        CmdSpec::Edit => quiet(edit_opened(m)),
        CmdSpec::WorktreeRemove => quiet(removal_asked(m)),
        CmdSpec::Import => import_asked(m),
        CmdSpec::RestartSupervisor => restarted(m),
        CmdSpec::Usage => usage_opened(m),
        CmdSpec::Reconnect => reconnected(m),
        CmdSpec::Launch => launched(m, args),
        CmdSpec::Update => update_asked(m, args),
        CmdSpec::GhEnable => gh_enabled(m),
        CmdSpec::GhDisable => gh_disabled(m),
        CmdSpec::GhRefresh => gh_refreshed(m),
        CmdSpec::Palette => quiet(palette_opened(m)),
        CmdSpec::LogPath => quiet(told(m, "log: "@ + m.log_path)),
    }
}

/// Runs one command with its arguments.
pub fn run_command(state: &mut AppState, c: CmdSpec, args: &Vec<String>, cmds: &mut Commands)
    requires
        old(state)@.consistent(),
    ensures
        final(state)@ == command_run(old(state)@, c, text::texts(args@)).0,
        final(cmds)@ == old(cmds)@ + command_run(old(state)@, c, text::texts(args@)).1,
{
    assert(cmds@ =~= old(cmds)@ + Seq::<CommandModel>::empty());
    match c {
        CmdSpec::Quit => {
            state.running = false;
        },
        CmdSpec::TabNew => tabs::open_new_tab_in_active(state, cmds),
        CmdSpec::TabClose => tabs::close_current_tab(state, cmds),
        CmdSpec::SetOption => handle_set(state, args, cmds),
        CmdSpec::Help => {
            state.help_open = true;
        },
        CmdSpec::Open => cmd_open(state, args, cmds),
        CmdSpec::Worktree => cmd_worktree(state, args, cmds),
        CmdSpec::Edit => cmd_edit(state),
        CmdSpec::WorktreeRemove => cmd_worktree_remove(state),
        CmdSpec::Import => cmd_import(state, cmds),
        CmdSpec::RestartSupervisor => cmd_restart_supervisor(state, cmds),
        CmdSpec::Usage => cmd_usage(state, cmds),
        CmdSpec::Reconnect => cmd_reconnect(state, cmds),
        CmdSpec::Launch => cmd_launch(state, args, cmds),
        CmdSpec::Update => cmd_update(state, args, cmds),
        CmdSpec::GhEnable => cmd_gh_enable(state, cmds),
        CmdSpec::GhDisable => cmd_gh_disable(state, cmds),
        CmdSpec::GhRefresh => cmd_gh_refresh(state, cmds),
        CmdSpec::Palette => open_palette(state),
        CmdSpec::LogPath => cmd_log_path(state),
    }
}

/// What a command line does: its first word names the command, the others are
/// its arguments. A line without a word does nothing.
pub open spec fn line_run(m: AppModel, line: Seq<char>) -> Step {
    let w = text::words(line);
    if w.len() == 0 {
        quiet(m)
    } else {
        match command_named(w[0]) {
            Some(c) => command_run(m, c, w.skip(1)),
            None => quiet(told(m, "not a command: :"@ + line)),
        }
    }
}

/// Runs a command line.
pub fn execute_command(state: &mut AppState, line: &str, cmds: &mut Commands)
    requires
        old(state)@.consistent(),
    ensures
        final(state)@ == line_run(old(state)@, line@).0,
        final(cmds)@ == old(cmds)@ + line_run(old(state)@, line@).1,
{
    let parts = text::split_whitespace(line);
    let ghost w = text::words(line@);
    if parts.len() == 0 {
        assert(w.len() == 0);
        assert(cmds@ =~= old(cmds)@ + Seq::<CommandModel>::empty());
        return;
    }
    assert(w[0] == parts[0]@);
    match find_command(parts[0].as_str()) {
        Some(c) => {
            let mut args: Vec<String> = Vec::new();
            let mut i: usize = 1;
            while i < parts.len()
                invariant
                    1 <= i <= parts.len(),
                    args@ == parts@.subrange(1, i as int),
                decreases parts.len() - i,
            {
                args.push(parts[i].clone());
                i += 1;
            }
            assert(text::texts(args@) =~= w.skip(1));
            run_command(state, c, &args, cmds);
        },
        None => {
            let msg = text::concat2("not a command: :", line);
            tell(state, msg.as_str());
            assert(cmds@ =~= old(cmds)@ + Seq::<CommandModel>::empty());
        },
    }
}

} // verus!
