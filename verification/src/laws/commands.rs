//! What the command line and its commands do.

use crate::app::{
    AppModel, CommandModel, ConfirmModel, LauncherModel, Mode, PopupAction, ProjectModel,
};
use crate::cmdline::{command_key, completions, highlighted, line_pasted, suggested};
use crate::cmdtable::{command_from, command_named, CmdSpec, COMMANDS};
use crate::commands::{
    command_run, launcher_from, line_run, picker_rows, project_launchers, selected_project,
    setting,
};
use crate::event::{KeyCode, KeyEvent};
use crate::keybinds::BindableAction;
use crate::keys::{dispatched, entry_run};
use crate::palette::ExecModel;
use crate::paths;
use crate::sidebar::regions_of;
use crate::text;
use vstd::prelude::*;

verus! {

// ---------------------------------------------------------------------------
// Names
// ---------------------------------------------------------------------------

/// How the names of the commands differ.
proof fn lemma_names()
    ensures
        "q"@.len() == 1 && "q"@[0] == 'q',
        "tabnew"@.len() == 6 && "tabnew"@[0] == 't',
        "tabclose"@.len() == 8 && "tabclose"@[0] == 't',
        "set"@.len() == 3,
        "help"@.len() == 4 && "help"@[0] == 'h',
        "open"@.len() == 4 && "open"@[0] == 'o',
        "worktree"@.len() == 8 && "worktree"@[0] == 'w',
        "edit"@.len() == 4 && "edit"@[0] == 'e',
        "worktree-remove"@.len() == 15,
        "import"@.len() == 6 && "import"@[0] == 'i',
        "restart-supervisor"@.len() == 18,
        "usage"@.len() == 5,
        "reconnect"@.len() == 9 && "reconnect"@[0] == 'r',
        "launch"@.len() == 6 && "launch"@[0] == 'l',
        "update"@.len() == 6 && "update"@[0] == 'u',
        "gh-enable"@.len() == 9 && "gh-enable"@[0] == 'g',
        "gh-disable"@.len() == 10 && "gh-disable"@[3] == 'd',
        "gh-refresh"@.len() == 10 && "gh-refresh"@[3] == 'r',
        "palette"@.len() == 7,
        "log-path"@.len() == 8 && "log-path"@[0] == 'l',
        "quit"@.len() == 4 && "quit"@[0] == 'q',
        "h"@.len() == 1 && "h"@[0] == 'h',
        "wt"@.len() == 2 && "wt"@[0] == 'w' && "wt"@[1] == 't',
        "e"@.len() == 1 && "e"@[0] == 'e',
        "wr"@.len() == 2 && "wr"@[0] == 'w' && "wr"@[1] == 'r',
        "rs"@.len() == 2 && "rs"@[0] == 'r' && "rs"@[1] == 's',
        "u"@.len() == 1 && "u"@[0] == 'u',
        "rc"@.len() == 2 && "rc"@[0] == 'r' && "rc"@[1] == 'c',
        "l"@.len() == 1 && "l"@[0] == 'l',
{
    reveal_strlit("q");
    reveal_strlit("tabnew");
    reveal_strlit("tabclose");
    reveal_strlit("set");
    reveal_strlit("help");
    reveal_strlit("open");
    reveal_strlit("worktree");
    reveal_strlit("edit");
    reveal_strlit("worktree-remove");
    reveal_strlit("import");
    reveal_strlit("restart-supervisor");
    reveal_strlit("usage");
    reveal_strlit("reconnect");
    reveal_strlit("launch");
    reveal_strlit("update");
    reveal_strlit("gh-enable");
    reveal_strlit("gh-disable");
    reveal_strlit("gh-refresh");
    reveal_strlit("palette");
    reveal_strlit("log-path");
    reveal_strlit("quit");
    reveal_strlit("h");
    reveal_strlit("wt");
    reveal_strlit("e");
    reveal_strlit("wr");
    reveal_strlit("rs");
    reveal_strlit("u");
    reveal_strlit("rc");
    reveal_strlit("l");
}

/// Each command is run under the name that the help page gives it, and under its
/// short or long form where it has one.
#[verifier::spinoff_prover]
#[verifier::rlimit(60)]
pub proof fn law_commands_go_by_their_names()
    ensures
        command_named("q"@) == Some(CmdSpec::Quit),
        command_named("tabnew"@) == Some(CmdSpec::TabNew),
        command_named("tabclose"@) == Some(CmdSpec::TabClose),
        command_named("set"@) == Some(CmdSpec::SetOption),
        command_named("help"@) == Some(CmdSpec::Help),
        command_named("open"@) == Some(CmdSpec::Open),
        command_named("worktree"@) == Some(CmdSpec::Worktree),
        command_named("edit"@) == Some(CmdSpec::Edit),
        command_named("worktree-remove"@) == Some(CmdSpec::WorktreeRemove),
        command_named("import"@) == Some(CmdSpec::Import),
        command_named("restart-supervisor"@) == Some(CmdSpec::RestartSupervisor),
        command_named("usage"@) == Some(CmdSpec::Usage),
        command_named("reconnect"@) == Some(CmdSpec::Reconnect),
        command_named("launch"@) == Some(CmdSpec::Launch),
        command_named("update"@) == Some(CmdSpec::Update),
        command_named("gh-enable"@) == Some(CmdSpec::GhEnable),
        command_named("gh-disable"@) == Some(CmdSpec::GhDisable),
        command_named("gh-refresh"@) == Some(CmdSpec::GhRefresh),
        command_named("palette"@) == Some(CmdSpec::Palette),
        command_named("log-path"@) == Some(CmdSpec::LogPath),
        command_named("quit"@) == Some(CmdSpec::Quit),
        command_named("h"@) == Some(CmdSpec::Help),
        command_named("wt"@) == Some(CmdSpec::Worktree),
        command_named("e"@) == Some(CmdSpec::Edit),
        command_named("wr"@) == Some(CmdSpec::WorktreeRemove),
        command_named("rs"@) == Some(CmdSpec::RestartSupervisor),
        command_named("u"@) == Some(CmdSpec::Usage),
        command_named("rc"@) == Some(CmdSpec::Reconnect),
        command_named("l"@) == Some(CmdSpec::Launch),
{
    lemma_names();
    reveal_with_fuel(command_from, 21);
}

/// A name means a command that answers to it, and each name that a command answers
/// to means some command that does.
pub proof fn law_names_mean_commands_that_answer_to_them(word: Seq<char>)
    ensures
        match command_named(word) {
            Some(c) => c.name_text() == word || c.alias_text() == Some(word),
            None => forall|i: int|
                0 <= i < COMMANDS.len() ==> (#[trigger] COMMANDS[i]).name_text() != word
                    && COMMANDS[i].alias_text() != Some(word),
        },
{
    lemma_from(0, word);
}

proof fn lemma_from(i: int, word: Seq<char>)
    requires
        0 <= i <= COMMANDS.len(),
    ensures
        match command_from(i, word) {
            Some(c) => c.name_text() == word || c.alias_text() == Some(word),
            None => forall|k: int|
                i <= k < COMMANDS.len() ==> (#[trigger] COMMANDS[k]).name_text() != word
                    && COMMANDS[k].alias_text() != Some(word),
        },
    decreases COMMANDS.len() - i,
{
    if i < COMMANDS.len() && !COMMANDS[i].answers_to(word) {
        lemma_from(i + 1, word);
    }
}

// ---------------------------------------------------------------------------
// The line
// ---------------------------------------------------------------------------

/// In Command mode characters go to the end of the line and Backspace takes the last
/// one out; nothing is run.
pub proof fn law_the_line_is_typed(m: AppModel, k: KeyEvent, c: char)
    ensures
        k.code == KeyCode::Char(c) && !k.modifiers.control && !k.modifiers.alt
            && !k.modifiers.super_key && !k.modifiers.hyper && !k.modifiers.meta ==> command_key(
            m,
            k,
        ).0.command == m.command.push(c) && command_key(m, k).1.len() == 0 && command_key(
            m,
            k,
        ).0.mode == m.mode,
        k.code == KeyCode::Backspace && m.command.len() > 0 ==> command_key(m, k).0.command
            == m.command.take(m.command.len() - 1) && command_key(m, k).1.len() == 0,
{
    if m.command.len() > 0 {
        assert(m.command.drop_last() =~= m.command.take(m.command.len() - 1));
    }
}

/// Enter runs the line, unless a suggestion is highlighted: that one is then taken
/// over as the line, and nothing is run. Running leaves Command mode with an empty
/// line.
pub proof fn law_enter_runs_the_line(m: AppModel, k: KeyEvent)
    requires
        k.code == KeyCode::Enter,
    ensures
        (m.command_completion matches Some(c) ==> c.selected is None) ==> command_key(m, k)
            == line_run(
            AppModel {
                command: Seq::<char>::empty(),
                command_completion: None,
                mode: Mode::Normal,
                ..m
            },
            text::trimmed(m.command),
        ),
        (m.command_completion matches Some(c) && c.selected matches Some(i) && i < c.matches.len())
            ==> command_key(m, k).1.len() == 0 && command_key(m, k).0.command
            == m.command_completion->Some_0.matches[m.command_completion->Some_0.selected->Some_0 as int].0
            && command_key(m, k).0.mode == m.mode,
{
}

/// The first Esc puts the suggestions away and keeps the line; where there are none,
/// Esc leaves Command mode.
pub proof fn law_escape_leaves_the_line(m: AppModel, k: KeyEvent)
    requires
        k.code == KeyCode::Esc,
    ensures
        command_key(m, k).1.len() == 0,
        m.command_completion is Some ==> command_key(m, k).0 == (AppModel {
            command_completion: None,
            ..m
        }),
        m.command_completion is None ==> command_key(m, k).0 == (AppModel {
            command: Seq::<char>::empty(),
            mode: Mode::Normal,
            ..m
        }),
{
}

/// The first word of a line names the command and the others are its arguments; a
/// line without words does nothing, and a name that no command answers to is
/// reported.
pub proof fn law_the_first_word_names_the_command(m: AppModel, line: Seq<char>)
    ensures
        text::words(line).len() == 0 ==> line_run(m, line) == (m, Seq::<CommandModel>::empty()),
        text::words(line).len() > 0 ==> match command_named(text::words(line)[0]) {
            Some(c) => line_run(m, line) == command_run(m, c, text::words(line).skip(1)),
            None => line_run(m, line).1.len() == 0 && line_run(m, line).0 == (AppModel {
                command_status: Some("not a command: :"@ + line),
                ..m
            }),
        },
{
}

proof fn lemma_completions(prefix: Seq<char>, n: nat)
    requires
        n <= COMMANDS.len(),
    ensures
        forall|i: int|
            0 <= i < n && text::has_prefix((#[trigger] COMMANDS[i]).name_text(), prefix)
                ==> completions(prefix, n).contains(
                (COMMANDS[i].name_text(), COMMANDS[i].description_text()),
            ),
        forall|k: int|
            0 <= k < completions(prefix, n).len() ==> text::has_prefix(
                (#[trigger] completions(prefix, n)[k]).0,
                prefix,
            ),
    decreases n,
{
    if n > 0 {
        lemma_completions(prefix, (n - 1) as nat);
        let front = completions(prefix, (n - 1) as nat);
        let all = completions(prefix, n);
        let last = (COMMANDS[n - 1].name_text(), COMMANDS[n - 1].description_text());
        assert forall|i: int|
            0 <= i < n && text::has_prefix(
                (#[trigger] COMMANDS[i]).name_text(),
                prefix,
            ) implies all.contains((COMMANDS[i].name_text(), COMMANDS[i].description_text())) by {
            let e = (COMMANDS[i].name_text(), COMMANDS[i].description_text());
            if i < n - 1 {
                assert(front.contains(e));
                let k = choose|k: int| 0 <= k < front.len() && front[k] == e;
                assert(all[k] == e);
            } else {
                assert(all[front.len() as int] == last);
            }
        }
        assert forall|k: int| 0 <= k < all.len() implies text::has_prefix(
            (#[trigger] all[k]).0,
            prefix,
        ) by {
            if k < front.len() {
                assert(all[k] == front[k]);
            }
        }
    }
}

/// While the first word is typed, exactly the commands whose name starts with it are
/// suggested; once the line holds white space nothing is.
pub proof fn law_suggestions_start_with_the_line(line: Seq<char>, i: int)
    ensures
        (exists|k: int| 0 <= k < line.len() && text::is_white(#[trigger] line[k])) ==> suggested(line)
            is None,
        suggested(line) matches Some(c) ==> {
            &&& c.selected is None
            &&& forall|k: int|
                0 <= k < c.matches.len() ==> line.len() <= (#[trigger] c.matches[k]).0.len()
                    && c.matches[k].0.take(line.len() as int) == line
            &&& 0 <= i < COMMANDS.len() && line.len() <= COMMANDS[i].name_text().len()
                && COMMANDS[i].name_text().take(line.len() as int) == line ==> c.matches.contains(
                (COMMANDS[i].name_text(), COMMANDS[i].description_text()),
            )
        },
{
    lemma_completions(line, COMMANDS.len() as nat);
    if suggested(line) is Some {
        let found = completions(line, COMMANDS.len() as nat);
        assert forall|k: int| 0 <= k < found.len() implies line.len() <= (
        #[trigger] found[k]).0.len() && found[k].0.take(line.len() as int) == line by {
            assert(text::has_prefix(found[k].0, line));
        }
        if 0 <= i < COMMANDS.len() && line.len() <= COMMANDS[i].name_text().len()
            && COMMANDS[i].name_text().take(line.len() as int) == line {
            assert(text::has_prefix(COMMANDS[i].name_text(), line));
        }
    }
}

/// Tab highlights the first suggestion, then the one below, round at the end.
pub proof fn law_tab_goes_round_the_suggestions(
    m: AppModel,
    k: KeyEvent,
)
    requires
        k.code == KeyCode::Tab,
        m.command_completion matches Some(c) && 0 < c.matches.len() <= usize::MAX && (
        c.selected matches Some(i) ==> i < c.matches.len()),
    ensures
        ({
            let c = m.command_completion->Some_0;
            let n = c.matches.len();
            let (after, cmds) = command_key(m, k);
            &&& cmds.len() == 0 && after.command == m.command
            &&& after.command_completion matches Some(now) && now.matches == c.matches
                && now.selected == (match c.selected {
                None => Some(0usize),
                Some(i) => if i + 1 < n {
                    Some((i + 1) as usize)
                } else {
                    Some(0usize)
                },
            })
        }),
{
    let c = m.command_completion->Some_0;
    let n = c.matches.len() as int;
    if let Some(i) = c.selected {
        assert(i as int % n == i) by (nonlinear_arith)
            requires
                0 <= i < n,
        ;
    }
}

// ---------------------------------------------------------------------------
// Commands
// ---------------------------------------------------------------------------

/// A project is meant by the sidebar's cursor, or else by the active worktree.
pub proof fn law_the_cursor_selects_the_project(m: AppModel, p: int)
    requires
        0 <= p < m.projects.len() <= usize::MAX,
    ensures
        (m.sidebar_selection matches Some((i, _)) && i == p) ==> selected_project(m) == Some(
            p as usize,
        ),
        m.sidebar_selection is None && (m.active_worktree matches Some((i, _)) && i == p)
            ==> selected_project(m) == Some(p as usize),
        m.sidebar_selection is None && m.active_worktree is None ==> selected_project(m) is None,
{
}

/// `:open` with a path opens it on the local supervisor; `:worktree` with a branch
/// asks for that branch in the repository of the selected project, and without one
/// opens an input for it; without a project nothing is asked for.
pub proof fn law_opening_and_adding_ask_for_what_was_named(
    m: AppModel,
    arg: Seq<char>,
    rest: Seq<Seq<char>>,
    p: int,
)
    requires
        0 <= p < m.projects.len() <= usize::MAX,
    ensures
        ({
            let args = seq![arg] + rest;
            let open = command_run(m, CmdSpec::Open, args);
            let add = command_run(m, CmdSpec::Worktree, args);
            let bare = command_run(m, CmdSpec::Worktree, seq![]);
            &&& open.1 == seq![
                CommandModel::OpenProject {
                    supervisor: crate::app::local_id(),
                    path: arg,
                    setup_script: None,
                    import_existing: false,
                },
            ]
            &&& selected_project(m) == Some(p as usize) ==> {
                &&& add.1 == seq![
                    CommandModel::AddWorktree {
                        project_idx: p as usize,
                        repo_path: m.projects[p].repo_path,
                        branch: arg,
                    },
                ]
                &&& bare.1.len() == 0
                &&& bare.0.popup matches Some(popup) && popup.buffer.len() == 0 && popup.action
                    == (PopupAction::NewWorktree { project_idx: p as usize })
            }
            &&& selected_project(m) is None ==> add.1.len() == 0 && add.0.popup == m.popup
        }),
{
    let args = seq![arg] + rest;
    assert(args[0] == arg);
}

/// `:worktree-remove` asks for a confirmation that names the worktree under the
/// cursor, its path and its branch; the main worktree is not removed, and nothing is
/// asked of git yet.
pub proof fn law_removal_names_the_worktree_under_the_cursor(m: AppModel, p: int, w: int)
    requires
        0 <= p < m.projects.len() <= usize::MAX,
        0 <= w < m.projects[p].worktrees.len() <= usize::MAX,
        m.sidebar_selection == Some((p as usize, Some(w as usize))),
    ensures
        ({
            let wt = m.projects[p].worktrees[w];
            let (after, cmds) = command_run(m, CmdSpec::WorktreeRemove, seq![]);
            &&& cmds.len() == 0
            &&& after.projects == m.projects
            &&& if paths::same_way(wt.path, m.projects[p].repo_path) {
                after.pending_confirm == m.pending_confirm
            } else {
                after.pending_confirm == Some(
                    ConfirmModel::RemoveWorktree {
                        project_idx: p as usize,
                        worktree_idx: w as usize,
                        name: wt.name,
                        repo_path: m.projects[p].repo_path,
                        dest_path: wt.path,
                        branch: wt.branch,
                    },
                )
            }
        }),
{
}

/// `:edit` opens the setup script of the selected project, line by line.
pub proof fn law_edit_opens_the_script(m: AppModel, p: int)
    requires
        0 <= p < m.projects.len() <= usize::MAX,
        selected_project(m) == Some(p as usize),
    ensures
        ({
            let (after, cmds) = command_run(m, CmdSpec::Edit, seq![]);
            &&& cmds.len() == 0
            &&& after.edit_popup matches Some(popup) && popup.project_idx == p
                && popup.textarea.cursor == (0int, 0int) && (
            m.projects[p].setup_script matches Some(s) ==> text::split(s, '\n').len() > 0
                ==> popup.textarea.lines == text::split(s, '\n'))
        }),
{
}

/// `:set` takes `key=value` and `key value` alike: a width sets the sidebar's, a
/// theme's name sets the theme and has it saved, and anything else changes nothing
/// but the message.
pub proof fn law_settings_are_set(m: AppModel, args: Seq<Seq<char>>, key: Seq<char>, value: Seq<char>)
    requires
        setting(args) == Some((key, value)),
    ensures
        ({
            let (after, cmds) = command_run(m, CmdSpec::SetOption, args);
            &&& key == "theme"@ && text::lower_ascii(text::trimmed(value)) == "light"@ ==> after.theme.kind
                is Light && cmds == seq![CommandModel::SaveGlobalConfig]
            &&& key == "theme"@ && text::lower_ascii(text::trimmed(value)) == "dark"@ ==> after.theme.kind
                is Dark && cmds == seq![CommandModel::SaveGlobalConfig]
            &&& key == "sidebar.width"@ && text::parsed(value, 65535) is None ==> cmds.len() == 0
                && after.sidebar_width == m.sidebar_width
            &&& key == "sidebar.width"@ && (text::parsed(value, 65535) matches Some(n) && 10 <= n
                <= m.term_size.cols / 2) ==> after.sidebar_width == text::parsed(
                value,
                65535,
            )->Some_0
            &&& key != "theme"@ && key != "sidebar.width"@ ==> cmds.len() == 0 && after == (
            AppModel { command_status: after.command_status, ..m })
        }),
        args.len() == 2 ==> key == args[0] && value == args[1],
{
    reveal_strlit("theme");
    reveal_strlit("sidebar.width");
    reveal_strlit("light");
    reveal_strlit("dark");
    assert("light"@.len() == 5 && "dark"@.len() == 4);
    assert("theme"@.len() == 5 && "sidebar.width"@.len() == 13);
}

/// What `:launch` runs: the project's launcher of that name, in any case, else the
/// global one; `terminal` and `t` a plain shell; and nothing where there is none.
pub proof fn law_launchers_of_the_project_come_first(m: AppModel, p: int, w: int, name: Seq<char>)
    requires
        m.active_worktree == Some((p as usize, w as usize)),
        0 <= p < m.projects.len() <= usize::MAX,
        0 <= w < m.projects[p].worktrees.len() <= usize::MAX,
    ensures
        ({
            let (after, cmds) = command_run(m, CmdSpec::Launch, seq![name]);
            let own = m.projects[p].launchers;
            let plain = text::lower_ascii(name) == text::lower_ascii("terminal"@) || name == "t"@;
            &&& plain ==> runs(m, p, w, None, cmds)
            &&& !plain ==> (forall|i: int|
                #![trigger own[i]]
                0 <= i < own.len() && answers_first(own, name, i) ==> runs(
                    m,
                    p,
                    w,
                    Some(own[i].command),
                    cmds,
                ))
            &&& !plain && answers_none(own, name) ==> (forall|i: int|
                #![trigger m.global_launchers[i]]
                0 <= i < m.global_launchers.len() && answers_first(m.global_launchers, name, i)
                    ==> runs(m, p, w, Some(m.global_launchers[i].command), cmds))
            &&& !plain && answers_none(own, name) && answers_none(m.global_launchers, name)
                ==> cmds.len() == 0
        }),
{
    let own = m.projects[p].launchers;
    assert(seq![name][0] == name);
    assert forall|i: int|
        #![trigger own[i]]
        0 <= i < own.len() && answers_first(own, name, i) implies launcher_from(own, name, 0)
        == Some(own[i].command) by {
        lemma_launcher(own, name, 0, i);
    }
    assert forall|i: int|
        #![trigger m.global_launchers[i]]
        0 <= i < m.global_launchers.len() && answers_first(
            m.global_launchers,
            name,
            i,
        ) implies launcher_from(m.global_launchers, name, 0) == Some(
        m.global_launchers[i].command,
    ) by {
        lemma_launcher(m.global_launchers, name, 0, i);
    }
    if answers_none(own, name) {
        lemma_no_launcher(own, name, 0);
    }
    if answers_none(m.global_launchers, name) {
        lemma_no_launcher(m.global_launchers, name, 0);
    }
}

/// Whether a launcher is the first that has that name, in any case.
pub open spec fn answers_first(ls: Seq<LauncherModel>, name: Seq<char>, i: int) -> bool {
    &&& text::lower_ascii(ls[i].name) == text::lower_ascii(name)
    &&& forall|j: int|
        0 <= j < i ==> text::lower_ascii((#[trigger] ls[j]).name) != text::lower_ascii(name)
}

/// Whether no launcher has that name, in any case.
pub open spec fn answers_none(ls: Seq<LauncherModel>, name: Seq<char>) -> bool {
    forall|j: int|
        0 <= j < ls.len() ==> text::lower_ascii((#[trigger] ls[j]).name) != text::lower_ascii(name)
}

/// Whether exactly a tab in that worktree that runs that command is asked for.
pub open spec fn runs(
    m: AppModel,
    p: int,
    w: int,
    command: Option<Seq<char>>,
    cmds: Seq<CommandModel>,
) -> bool {
    cmds == seq![
        CommandModel::SpawnInWorktree {
            supervisor: m.projects[p].supervisor,
            rows: regions_of(m).terminal.height,
            cols: regions_of(m).terminal.width,
            cwd: m.projects[p].worktrees[w].path,
            dest: (p as usize, w as usize),
            initial_command: command,
            project_slug: m.projects[p].slug,
            worktree_name: m.projects[p].worktrees[w].name,
        },
    ]
}

proof fn lemma_launcher(ls: Seq<LauncherModel>, name: Seq<char>, from: int, i: int)
    requires
        0 <= from <= i < ls.len(),
        answers_first(ls, name, i),
    ensures
        launcher_from(ls, name, from) == Some(ls[i].command),
    decreases i - from,
{
    if from < i {
        assert(text::lower_ascii(ls[from].name) != text::lower_ascii(name));
        lemma_launcher(ls, name, from + 1, i);
    }
}

proof fn lemma_no_launcher(ls: Seq<LauncherModel>, name: Seq<char>, from: int)
    requires
        0 <= from <= ls.len(),
        answers_none(ls, name),
    ensures
        launcher_from(ls, name, from) is None,
    decreases ls.len() - from,
{
    if from < ls.len() {
        assert(text::lower_ascii(ls[from].name) != text::lower_ascii(name));
        lemma_no_launcher(ls, name, from + 1);
    }
}

/// `:launch` without a name opens the picker for the active worktree: a plain shell
/// first, then the project's launchers in order, each with its command.
pub proof fn law_the_picker_lists_shell_and_launchers(m: AppModel, p: int, w: int)
    requires
        m.active_worktree == Some((p as usize, w as usize)),
        0 <= p < m.projects.len() <= usize::MAX,
        0 <= w <= usize::MAX,
    ensures
        ({
            let (after, cmds) = command_run(m, CmdSpec::Launch, seq![]);
            let own = m.projects[p].launchers;
            &&& cmds.len() == 0
            &&& after.launch_popup matches Some(popup) && {
                &&& popup.project_idx == p && popup.worktree_idx == w && popup.cursor == 0
                &&& popup.entries.len() >= 1 + own.len()
                &&& popup.entries[0].command is None
                &&& forall|i: int|
                    0 <= i < own.len() ==> (#[trigger] popup.entries[i + 1]).command == Some(
                        own[i].command,
                    ) && popup.entries[i + 1].label == own[i].name
            }
        }),
{
    let own = m.projects[p].launchers;
    let rows = picker_rows(project_launchers(m, p as usize), m.global_launchers);
    assert forall|i: int| 0 <= i < own.len() implies (#[trigger] rows[i + 1]).command == Some(
        own[i].command,
    ) && rows[i + 1].label == own[i].name by {}
}

/// `:gh-enable` and `:gh-disable` switch the integration of the selected project and
/// of no other, and have it saved; enabling asks for all its statuses at once, and
/// disabling forgets them. Enabling without `gh` changes nothing.
pub proof fn law_the_github_integration_is_switched(m: AppModel, p: int)
    requires
        0 <= p < m.projects.len() <= usize::MAX,
        selected_project(m) == Some(p as usize),
    ensures
        ({
            let on = command_run(m, CmdSpec::GhEnable, seq![]);
            let off = command_run(m, CmdSpec::GhDisable, seq![]);
            &&& m.gh_available ==> {
                &&& on.0.projects[p] == (ProjectModel { github_enabled: true, ..m.projects[p] })
                &&& on.1.len() == 2 && on.1[0] == CommandModel::SaveProjectConfig(p as usize)
                &&& on.1[1] matches CommandModel::FetchPrStatuses {
                    project_idx,
                    repo_path,
                    worktrees,
                } && project_idx == p && repo_path == m.projects[p].repo_path && worktrees.len()
                    == m.projects[p].worktrees.len() && forall|i: int|
                    0 <= i < worktrees.len() ==> #[trigger] worktrees[i] == (
                        i as usize,
                        m.projects[p].worktrees[i].path,
                    )
                &&& forall|i: int|
                    0 <= i < m.projects.len() && i != p ==> #[trigger] on.0.projects[i]
                        == m.projects[i]
            }
            &&& !m.gh_available ==> on.1.len() == 0 && on.0.projects == m.projects
            &&& off.0.projects[p] == (ProjectModel { github_enabled: false, ..m.projects[p] })
            &&& off.1 == seq![CommandModel::SaveProjectConfig(p as usize)]
            &&& forall|w: usize| !(#[trigger] off.0.pr_statuses.dom().contains((p as usize, w)))
            &&& forall|i: int|
                0 <= i < m.projects.len() && i != p ==> #[trigger] off.0.projects[i]
                    == m.projects[i]
        }),
{
}

/// `:gh-refresh` asks for the statuses of the selected project where its integration
/// is on and `gh` is there, and else for nothing.
pub proof fn law_refresh_asks_where_it_can(m: AppModel, p: int)
    requires
        0 <= p < m.projects.len() <= usize::MAX,
        selected_project(m) == Some(p as usize),
    ensures
        ({
            let (after, cmds) = command_run(m, CmdSpec::GhRefresh, seq![]);
            if m.projects[p].github_enabled && m.gh_available {
                &&& after.pr_refresh_in_flight
                &&& cmds.len() == 1
                &&& cmds[0] matches CommandModel::FetchPrStatuses { project_idx, repo_path, .. }
                    && project_idx == p && repo_path == m.projects[p].repo_path
            } else {
                cmds.len() == 0 && after.pr_refresh_in_flight == m.pr_refresh_in_flight
            }
        }),
{
}

/// `:update` installs the release that is known, or looks for one and then installs
/// it; `:update check` only looks; while an install is under way neither does
/// anything.
pub proof fn law_update_installs_or_looks(m: AppModel)
    ensures
        ({
            let plain = command_run(m, CmdSpec::Update, seq![]);
            let check = command_run(m, CmdSpec::Update, seq!["check"@]);
            if m.update_status is Installing {
                plain.1.len() == 0 && check.1.len() == 0 && plain.0.update_status is Installing
            } else {
                &&& check.1 == seq![CommandModel::CheckForUpdate]
                &&& !check.0.auto_install_after_check && check.0.update_status is Checking
                &&& match m.available_update {
                    Some(info) => plain.1 == seq![
                        CommandModel::InstallUpdate { tag: info.latest_tag@ },
                    ] && plain.0.update_status is Installing,
                    None => plain.1 == seq![CommandModel::CheckForUpdate]
                        && plain.0.auto_install_after_check && plain.0.update_status is Checking,
                }
            }
        }),
{
    assert(seq!["check"@][0] == "check"@);
}

/// `:restart-supervisor` ends the program and every session with it; `:quit` ends
/// the program and leaves the sessions alone.
pub proof fn law_restart_ends_sessions_and_quit_does_not(m: AppModel, p: int, w: int)
    requires
        0 <= p < m.projects.len(),
        0 <= w < m.projects[p].worktrees.len(),
    ensures
        ({
            let restart = command_run(m, CmdSpec::RestartSupervisor, seq![]);
            let quit = command_run(m, CmdSpec::Quit, seq![]);
            &&& !restart.0.running && !quit.0.running
            &&& restart.1 == seq![CommandModel::RestartSupervisor]
            &&& restart.0.sessions.len() == 0
            &&& restart.0.projects.len() == m.projects.len()
            &&& restart.0.projects[p].worktrees[w].sessions.len() == 0
            &&& restart.0.projects[p].worktrees[w].active_tab is None
            &&& restart.0.projects[p].worktrees[w].path == m.projects[p].worktrees[w].path
            &&& quit.1.len() == 0 && quit.0 == (AppModel { running: false, ..m })
        }),
{
}

/// `:reconnect` dials the supervisor of the project under the cursor where that is a
/// remote that is not connected, and nothing else; `:import` asks for the worktrees
/// of the selected project.
pub proof fn law_reconnect_and_import_mean_the_selected_project(m: AppModel, p: int)
    requires
        0 <= p < m.projects.len() <= usize::MAX,
        m.sidebar_selection matches Some((i, _)) && i == p,
    ensures
        ({
            let sup = m.projects[p].supervisor;
            let dial = command_run(m, CmdSpec::Reconnect, seq![]);
            let import = command_run(m, CmdSpec::Import, seq![]);
            &&& dial.1 == (if sup != crate::app::local_id() && !m.supervisors.connected.contains(
                sup,
            ) {
                seq![CommandModel::ReconnectSupervisor(sup)]
            } else {
                seq![]
            })
            &&& dial.0.projects == m.projects
            &&& import.1 == seq![
                CommandModel::ImportWorktrees {
                    project_idx: p as usize,
                    repo_path: m.projects[p].repo_path,
                },
            ]
        }),
{
}

/// A paste goes to the end of the line: all of it that is no control character, in
/// order.
pub proof fn law_pastes_go_to_the_end_of_the_line(m: AppModel, s: Seq<char>, t: Seq<char>, c: char)
    requires
        forall|i: int| 0 <= i < s.len() ==> !text::is_control(#[trigger] s[i]),
        forall|i: int| 0 <= i < t.len() ==> !text::is_control(#[trigger] t[i]),
        text::is_control(c),
    ensures
        line_pasted(m, s).command == m.command + s,
        line_pasted(m, s + seq![c] + t).command == m.command + s + t,
        text::is_control('\n') && text::is_control('\r') && text::is_control('\x1b'),
{
    let p = s + seq![c] + t;
    lemma_printable(s, s.len());
    lemma_printable_cut(s, c, t, p.len());
    assert(s.take(s.len() as int) =~= s);
    assert(t.take(t.len() as int) =~= t);
    assert(m.command + (s + t) =~= m.command + s + t);
}

proof fn lemma_printable(s: Seq<char>, n: nat)
    requires
        n <= s.len(),
        forall|i: int| 0 <= i < s.len() ==> !text::is_control(#[trigger] s[i]),
    ensures
        crate::cmdline::printable(s, n) == s.take(n as int),
    decreases n,
{
    if n > 0 {
        lemma_printable(s, (n - 1) as nat);
        assert(!text::is_control(s[n - 1]));
        assert(s.take(n - 1).push(s[n - 1]) =~= s.take(n as int));
    } else {
        assert(s.take(0) =~= seq![]);
    }
}

proof fn lemma_printable_cut(s: Seq<char>, c: char, t: Seq<char>, n: nat)
    requires
        n <= s.len() + 1 + t.len(),
        forall|i: int| 0 <= i < s.len() ==> !text::is_control(#[trigger] s[i]),
        forall|i: int| 0 <= i < t.len() ==> !text::is_control(#[trigger] t[i]),
        text::is_control(c),
    ensures
        crate::cmdline::printable(s + seq![c] + t, n) == (if n <= s.len() {
            s.take(n as int)
        } else {
            s + t.take(n - s.len() - 1)
        }),
    decreases n,
{
    let p = s + seq![c] + t;
    if n > 0 {
        lemma_printable_cut(s, c, t, (n - 1) as nat);
        if n <= s.len() {
            assert(p[n - 1] == s[n - 1]);
            assert(s.take(n - 1).push(s[n - 1]) =~= s.take(n as int));
        } else if n == s.len() + 1 {
            assert(p[n - 1] == c);
            assert(s.take(s.len() as int) =~= s);
            assert(s + t.take(0) =~= s);
        } else {
            let k = n - s.len() - 2;
            assert(p[n - 1] == t[k]);
            assert((s + t.take(k)).push(t[k]) =~= s + t.take(k + 1));
        }
    } else {
        assert(s.take(0) =~= seq![]);
    }
}

/// Shift-Tab highlights the last suggestion, then the one above, round at the top.
pub proof fn law_shift_tab_goes_back(m: AppModel, k: KeyEvent)
    requires
        k.code == KeyCode::BackTab,
        m.command_completion matches Some(c) && 0 < c.matches.len() <= usize::MAX && (
        c.selected matches Some(i) ==> i < c.matches.len()),
    ensures
        ({
            let c = m.command_completion->Some_0;
            let n = c.matches.len();
            let (after, cmds) = command_key(m, k);
            &&& cmds.len() == 0 && after.command == m.command
            &&& after.command_completion matches Some(now) && now.matches == c.matches
                && now.selected == (match c.selected {
                None => Some((n - 1) as usize),
                Some(i) => if i > 0 {
                    Some((i - 1) as usize)
                } else {
                    Some((n - 1) as usize)
                },
            })
        }),
{
    let c = m.command_completion->Some_0;
    let n = c.matches.len() as int;
    if let Some(i) = c.selected {
        assert(i as int % n == i) by (nonlinear_arith)
            requires
                0 <= i < n,
        ;
    }
}

/// An entry of the palette runs its action, or its command without arguments, or puts
/// the command that needs some into the line, ready for them.
pub proof fn law_palette_entries_run_what_they_name(
    m: AppModel,
    a: BindableAction,
    c: CmdSpec,
    name: Seq<char>,
)
    ensures
        entry_run(m, ExecModel::Action(a)) == dispatched(m, a),
        command_named(name) == Some(c) ==> entry_run(m, ExecModel::Command(name)) == command_run(
            m,
            c,
            Seq::<Seq<char>>::empty(),
        ),
        ({
            let (after, cmds) = entry_run(m, ExecModel::Prefill(name));
            cmds.len() == 0 && after.mode is Command && after.command == name + seq![' ']
        }),
{
    reveal(entry_run);
    assert(name.push(' ') =~= name + seq![' ']);
}

} // verus!
