//! Ex-style command registry (`:q`, `:open`, `:set key=value`, …): the names,
//! usage and meaning of each command. What a command does is in `commands`.

use crate::text;
use vstd::prelude::*;

verus! {

/// An ex-style command.
#[derive(Copy, Clone, Debug, PartialEq, Eq, Structural)]
pub enum CmdSpec {
    Quit,
    TabNew,
    TabClose,
    SetOption,
    Help,
    Open,
    Worktree,
    Edit,
    WorktreeRemove,
    Import,
    RestartSupervisor,
    Usage,
    Reconnect,
    Launch,
    Update,
    GhEnable,
    GhDisable,
    GhRefresh,
    Palette,
    LogPath,
}

/// Every command, in the order of the help page.
pub const COMMANDS: [CmdSpec; 20] = [
    CmdSpec::Quit,
    CmdSpec::TabNew,
    CmdSpec::TabClose,
    CmdSpec::SetOption,
    CmdSpec::Help,
    CmdSpec::Open,
    CmdSpec::Worktree,
    CmdSpec::Edit,
    CmdSpec::WorktreeRemove,
    CmdSpec::Import,
    CmdSpec::RestartSupervisor,
    CmdSpec::Usage,
    CmdSpec::Reconnect,
    CmdSpec::Launch,
    CmdSpec::Update,
    CmdSpec::GhEnable,
    CmdSpec::GhDisable,
    CmdSpec::GhRefresh,
    CmdSpec::Palette,
    CmdSpec::LogPath,
];

impl CmdSpec {
    /// The command's canonical name.
    pub open spec fn name_text(self) -> Seq<char> {
        match self {
            CmdSpec::Quit => "q"@,
            CmdSpec::TabNew => "tabnew"@,
            CmdSpec::TabClose => "tabclose"@,
            CmdSpec::SetOption => "set"@,
            CmdSpec::Help => "help"@,
            CmdSpec::Open => "open"@,
            CmdSpec::Worktree => "worktree"@,
            CmdSpec::Edit => "edit"@,
            CmdSpec::WorktreeRemove => "worktree-remove"@,
            CmdSpec::Import => "import"@,
            CmdSpec::RestartSupervisor => "restart-supervisor"@,
            CmdSpec::Usage => "usage"@,
            CmdSpec::Reconnect => "reconnect"@,
            CmdSpec::Launch => "launch"@,
            CmdSpec::Update => "update"@,
            CmdSpec::GhEnable => "gh-enable"@,
            CmdSpec::GhDisable => "gh-disable"@,
            CmdSpec::GhRefresh => "gh-refresh"@,
            CmdSpec::Palette => "palette"@,
            CmdSpec::LogPath => "log-path"@,
        }
    }

    /// The command's other name, if it has one.
    pub open spec fn alias_text(self) -> Option<Seq<char>> {
        match self {
            CmdSpec::Quit => Some("quit"@),
            CmdSpec::Help => Some("h"@),
            CmdSpec::Worktree => Some("wt"@),
            CmdSpec::Edit => Some("e"@),
            CmdSpec::WorktreeRemove => Some("wr"@),
            CmdSpec::RestartSupervisor => Some("rs"@),
            CmdSpec::Usage => Some("u"@),
            CmdSpec::Reconnect => Some("rc"@),
            CmdSpec::Launch => Some("l"@),
            _ => None,
        }
    }

    /// How the command is written.
    pub open spec fn usage_text(self) -> Seq<char> {
        match self {
            CmdSpec::Quit => ":q[uit]"@,
            CmdSpec::TabNew => ":tabnew"@,
            CmdSpec::TabClose => ":tabclose"@,
            CmdSpec::SetOption => ":set key=value"@,
            CmdSpec::Help => ":help"@,
            CmdSpec::Open => ":open [path]"@,
            CmdSpec::Worktree => ":worktree [branch]"@,
            CmdSpec::Edit => ":edit"@,
            CmdSpec::WorktreeRemove => ":worktree-remove"@,
            CmdSpec::Import => ":import"@,
            CmdSpec::RestartSupervisor => ":restart-supervisor"@,
            CmdSpec::Usage => ":usage"@,
            CmdSpec::Reconnect => ":reconnect"@,
            CmdSpec::Launch => ":launch [name]"@,
            CmdSpec::Update => ":update [check]"@,
            CmdSpec::GhEnable => ":gh-enable"@,
            CmdSpec::GhDisable => ":gh-disable"@,
            CmdSpec::GhRefresh => ":gh-refresh"@,
            CmdSpec::Palette => ":palette"@,
            CmdSpec::LogPath => ":log-path"@,
        }
    }

    /// What the command does, in words.
    pub open spec fn description_text(self) -> Seq<char> {
        match self {
            CmdSpec::Quit => "Quit imbuia."@,
            CmdSpec::TabNew => "Open a new terminal in the active worktree."@,
            CmdSpec::TabClose => "Close the current terminal."@,
            CmdSpec::SetOption => "Set an option (e.g. :set sidebar.width=24)."@,
            CmdSpec::Help => "Show this list of commands. Press Esc to close."@,
            CmdSpec::Open => "Open a project at <path>. With no arg, opens an input popup."@,
            CmdSpec::Worktree => "Create a worktree for <branch> in the selected project."@,
            CmdSpec::Edit => "Edit the selected project's setup script."@,
            CmdSpec::WorktreeRemove => "Delete the selected worktree (files + local branch)."@,
            CmdSpec::Import => "Import any git worktrees of the selected project not already in imbuia."@,
            CmdSpec::RestartSupervisor => "Kill the PTY supervisor and all its sessions; respawn on next launch."@,
            CmdSpec::Usage => "Show live memory/CPU usage per session + its descendants."@,
            CmdSpec::Reconnect => "Reconnect the selected project's (disconnected) remote supervisor."@,
            CmdSpec::Launch => "Launch a named command in a new tab (or pick from a popup)."@,
            CmdSpec::Update => "Install the latest release; `check` only re-runs the version check."@,
            CmdSpec::GhEnable => "Re-enable GitHub PR status indicators (default on)."@,
            CmdSpec::GhDisable => "Disable GitHub PR status indicators for the selected project."@,
            CmdSpec::GhRefresh => "Force a PR status refresh for the selected project now."@,
            CmdSpec::Palette => "Open the command palette (also Ctrl-P)."@,
            CmdSpec::LogPath => "Show the path to the client log file (tail -f to debug)."@,
        }
    }

    /// Whether `word` is one of the command's names.
    pub open spec fn answers_to(self, word: Seq<char>) -> bool {
        self.name_text() == word || self.alias_text() == Some(word)
    }

    pub fn name(self) -> (r: &'static str)
        ensures
            r@ == self.name_text(),
    {
        match self {
            CmdSpec::Quit => "q",
            CmdSpec::TabNew => "tabnew",
            CmdSpec::TabClose => "tabclose",
            CmdSpec::SetOption => "set",
            CmdSpec::Help => "help",
            CmdSpec::Open => "open",
            CmdSpec::Worktree => "worktree",
            CmdSpec::Edit => "edit",
            CmdSpec::WorktreeRemove => "worktree-remove",
            CmdSpec::Import => "import",
            CmdSpec::RestartSupervisor => "restart-supervisor",
            CmdSpec::Usage => "usage",
            CmdSpec::Reconnect => "reconnect",
            CmdSpec::Launch => "launch",
            CmdSpec::Update => "update",
            CmdSpec::GhEnable => "gh-enable",
            CmdSpec::GhDisable => "gh-disable",
            CmdSpec::GhRefresh => "gh-refresh",
            CmdSpec::Palette => "palette",
            CmdSpec::LogPath => "log-path",
        }
    }

    pub fn alias(self) -> (r: Option<&'static str>)
        ensures
            r is Some <==> self.alias_text() is Some,
            r matches Some(a) ==> Some(a@) == self.alias_text(),
    {
        match self {
            CmdSpec::Quit => Some("quit"),
            CmdSpec::Help => Some("h"),
            CmdSpec::Worktree => Some("wt"),
            CmdSpec::Edit => Some("e"),
            CmdSpec::WorktreeRemove => Some("wr"),
            CmdSpec::RestartSupervisor => Some("rs"),
            CmdSpec::Usage => Some("u"),
            CmdSpec::Reconnect => Some("rc"),
            CmdSpec::Launch => Some("l"),
            _ => None,
        }
    }

    pub fn usage(self) -> (r: &'static str)
        ensures
            r@ == self.usage_text(),
    {
        match self {
            CmdSpec::Quit => ":q[uit]",
            CmdSpec::TabNew => ":tabnew",
            CmdSpec::TabClose => ":tabclose",
            CmdSpec::SetOption => ":set key=value",
            CmdSpec::Help => ":help",
            CmdSpec::Open => ":open [path]",
            CmdSpec::Worktree => ":worktree [branch]",
            CmdSpec::Edit => ":edit",
            CmdSpec::WorktreeRemove => ":worktree-remove",
            CmdSpec::Import => ":import",
            CmdSpec::RestartSupervisor => ":restart-supervisor",
            CmdSpec::Usage => ":usage",
            CmdSpec::Reconnect => ":reconnect",
            CmdSpec::Launch => ":launch [name]",
            CmdSpec::Update => ":update [check]",
            CmdSpec::GhEnable => ":gh-enable",
            CmdSpec::GhDisable => ":gh-disable",
            CmdSpec::GhRefresh => ":gh-refresh",
            CmdSpec::Palette => ":palette",
            CmdSpec::LogPath => ":log-path",
        }
    }

    pub fn description(self) -> (r: &'static str)
        ensures
            r@ == self.description_text(),
    {
        match self {
            CmdSpec::Quit => "Quit imbuia.",
            CmdSpec::TabNew => "Open a new terminal in the active worktree.",
            CmdSpec::TabClose => "Close the current terminal.",
            CmdSpec::SetOption => "Set an option (e.g. :set sidebar.width=24).",
            CmdSpec::Help => "Show this list of commands. Press Esc to close.",
            CmdSpec::Open => "Open a project at <path>. With no arg, opens an input popup.",
            CmdSpec::Worktree => "Create a worktree for <branch> in the selected project.",
            CmdSpec::Edit => "Edit the selected project's setup script.",
            CmdSpec::WorktreeRemove => "Delete the selected worktree (files + local branch).",
            CmdSpec::Import => "Import any git worktrees of the selected project not already in imbuia.",
            CmdSpec::RestartSupervisor => "Kill the PTY supervisor and all its sessions; respawn on next launch.",
            CmdSpec::Usage => "Show live memory/CPU usage per session + its descendants.",
            CmdSpec::Reconnect => "Reconnect the selected project's (disconnected) remote supervisor.",
            CmdSpec::Launch => "Launch a named command in a new tab (or pick from a popup).",
            CmdSpec::Update => "Install the latest release; `check` only re-runs the version check.",
            CmdSpec::GhEnable => "Re-enable GitHub PR status indicators (default on).",
            CmdSpec::GhDisable => "Disable GitHub PR status indicators for the selected project.",
            CmdSpec::GhRefresh => "Force a PR status refresh for the selected project now.",
            CmdSpec::Palette => "Open the command palette (also Ctrl-P).",
            CmdSpec::LogPath => "Show the path to the client log file (tail -f to debug).",
        }
    }

    fn has_name(self, word: &str) -> (r: bool)
        ensures
            r == self.answers_to(word@),
    {
        if text::same(self.name(), word) {
            return true;
        }
        match self.alias() {
            Some(a) => text::same(a, word),
            None => false,
        }
    }
}

/// The first command from `i` on that answers to `word`.
pub open spec fn command_from(i: int, word: Seq<char>) -> Option<CmdSpec>
    decreases COMMANDS.len() - i,
{
    if i < 0 || i >= COMMANDS.len() {
        None
    } else if COMMANDS[i].answers_to(word) {
        Some(COMMANDS[i])
    } else {
        command_from(i + 1, word)
    }
}

/// The command that answers to `word`.
pub open spec fn command_named(word: Seq<char>) -> Option<CmdSpec> {
    command_from(0, word)
}

/// The command that answers to `word`.
pub fn find_command(word: &str) -> (r: Option<CmdSpec>)
    ensures
        r == command_named(word@),
{
    let mut i: usize = 0;
    while i < COMMANDS.len()
        invariant
            i <= COMMANDS.len(),
            command_named(word@) == command_from(i as int, word@),
        decreases COMMANDS.len() - i,
    {
        if COMMANDS[i].has_name(word) {
            return Some(COMMANDS[i]);
        }
        i += 1;
    }
    None
}

} // verus!
