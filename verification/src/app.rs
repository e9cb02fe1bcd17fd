//! The state of the application, what happens to it, and what it asks for.
//!
//! Each type with strings or lists in it has a model of the same shape, in which
//! strings are sequences of characters and lists are sequences; contracts speak
//! of the models.

use crate::buffers::{ChordBuf, KeyBuf};
use crate::config::{LauncherConfig, ProjectConfig, WorktreeConfig};
use crate::editbox::{BoxModel, EditBox};
use crate::event::{KeyEvent, MouseEvent};
use crate::ipc::{DirEntry, ProcessNode, UsageReport};
use crate::keybinds::{Chord, KeyMap, Scope, Table};
use crate::keytable::KeybindTable;
use crate::layout::{TermSize, DEFAULT_SIDEBAR_WIDTH};
use crate::palette::{PaletteEntry, PaletteEntryModel};
use crate::session::{SessionId, SessionSet};
use crate::text;
use crate::theme::{Theme, ThemeKind};
use crate::updater::{InstallOutcome, UpdateInfo};
use smallvec::SmallVec;
use vstd::prelude::*;

verus! {

#[derive(Copy, Clone, Debug, PartialEq, Eq, Structural)]
pub enum Mode {
    Normal,
    Terminal,
    Command,
}

#[derive(Copy, Clone, Debug, PartialEq, Eq, Structural)]
pub enum UiFocus {
    Sidebar,
    Terminal,
}

/// One row in the sidebar tree: a project header or a worktree leaf.
#[derive(Copy, Clone, Debug, PartialEq, Eq, Structural)]
pub enum SidebarRow {
    Project(usize),
    Worktree(usize, usize),
}

/// Lifecycle phase of the GitHub PR associated with a worktree's branch.
///
/// "No PR" is the absence of an entry in `AppState::pr_statuses`.
#[derive(Copy, Clone, Debug, PartialEq, Eq, Structural)]
pub enum PrStatus {
    /// PR is open, CI green (or none), still awaiting review.
    Open,
    /// PR open and already approved; CI green. "Ready to merge".
    Approved,
    /// PR open; CI has pending or in-progress checks.
    Running,
    /// PR open; at least one CI check failed, OR the branch has merge
    /// conflicts against base.
    Failed,
    /// PR open; marked CHANGES_REQUESTED.
    ChangesRequested,
    /// PR has been merged.
    Merged,
}

// ---------------------------------------------------------------------------
// Supervisors
// ---------------------------------------------------------------------------

/// A supervisor, by its number: 0 is the local one, remotes count from 1.
#[derive(Copy, Clone, Debug, PartialEq, Eq, PartialOrd, Ord, Hash, Structural)]
pub struct SupervisorId(pub u32);

/// The supervisor on this machine.
pub open spec fn local_id() -> SupervisorId {
    SupervisorId(0)
}

/// The supervisor on this machine.
pub fn local() -> (r: SupervisorId)
    ensures
        r == local_id(),
{
    SupervisorId(0)
}

/// The supervisors by number and name, and which of them are connected.
#[derive(Debug)]
pub struct SupervisorDirectory {
    pub entries: Vec<(SupervisorId, String)>,
    pub connected: Vec<SupervisorId>,
}

/// A directory in the abstract.
pub struct DirectoryModel {
    pub entries: Seq<(SupervisorId, Seq<char>)>,
    pub connected: Seq<SupervisorId>,
}

/// The numbers and names in a list.
pub open spec fn named_ids(v: Seq<(SupervisorId, String)>) -> Seq<(SupervisorId, Seq<char>)> {
    Seq::new(v.len(), |i: int| (v[i].0, v[i].1@))
}

impl View for SupervisorDirectory {
    type V = DirectoryModel;

    open spec fn view(&self) -> DirectoryModel {
        DirectoryModel { entries: named_ids(self.entries@), connected: self.connected@ }
    }
}

impl DirectoryModel {
    /// Where the first entry for `id` from `from` on stands.
    pub open spec fn place(self, id: SupervisorId, from: int) -> Option<int>
        decreases self.entries.len() - from,
    {
        if from < 0 || from >= self.entries.len() {
            None
        } else if self.entries[from].0 == id {
            Some(from)
        } else {
            self.place(id, from + 1)
        }
    }

    /// The name shown for a supervisor; `local` for one that is not listed.
    pub open spec fn name_of(self, id: SupervisorId) -> Seq<char> {
        match self.place(id, 0) {
            Some(i) => self.entries[i].1,
            None => "local"@,
        }
    }

    /// The name a project's config gives its supervisor: none for the local one.
    pub open spec fn config_name(self, id: SupervisorId) -> Option<Seq<char>> {
        if id == local_id() {
            None
        } else {
            match self.place(id, 0) {
                Some(i) => Some(self.entries[i].1),
                None => None,
            }
        }
    }

    /// The supervisor behind `id` in the list, the first behind the last; the
    /// local one where `id` is not listed.
    pub open spec fn next_after(self, id: SupervisorId) -> SupervisorId {
        match self.place(id, 0) {
            Some(i) => if i + 1 < self.entries.len() {
                self.entries[i + 1].0
            } else {
                self.entries[0].0
            },
            None => local_id(),
        }
    }

    /// The first supervisor of that name from `from` on.
    pub open spec fn named(self, name: Seq<char>, from: int) -> Option<SupervisorId>
        decreases self.entries.len() - from,
    {
        if from < 0 || from >= self.entries.len() {
            None
        } else if self.entries[from].1 == name {
            Some(self.entries[from].0)
        } else {
            self.named(name, from + 1)
        }
    }

    /// The supervisor that a project's config means: the one it names, else the
    /// local one.
    pub open spec fn resolved(self, name: Option<Seq<char>>) -> SupervisorId {
        match name {
            Some(n) => match self.named(n, 0) {
                Some(id) => id,
                None => local_id(),
            },
            None => local_id(),
        }
    }
}

impl SupervisorDirectory {
    /// The local supervisor alone, connected.
    pub fn local_only() -> (r: SupervisorDirectory)
        ensures
            r@ == (DirectoryModel {
                entries: seq![(local_id(), "local"@)],
                connected: seq![local_id()],
            }),
    {
        let mut entries: Vec<(SupervisorId, String)> = Vec::new();
        entries.push((local(), text::owned("local")));
        let mut connected: Vec<SupervisorId> = Vec::new();
        connected.push(local());
        assert(named_ids(entries@) =~= seq![(local_id(), "local"@)]);
        assert(connected@ =~= seq![local_id()]);
        SupervisorDirectory { entries, connected }
    }

    fn find(&self, id: SupervisorId) -> (r: Option<usize>)
        ensures
            match r {
                Some(i) => self@.place(id, 0) == Some(i as int) && i < self.entries@.len(),
                None => self@.place(id, 0) is None,
            },
    {
        let mut i: usize = 0;
        while i < self.entries.len()
            invariant
                i <= self.entries.len(),
                self@.place(id, 0) == self@.place(id, i as int),
            decreases self.entries.len() - i,
        {
            if self.entries[i].0 == id {
                return Some(i);
            }
            i += 1;
        }
        None
    }

    /// The name shown for a supervisor.
    pub fn name_of(&self, id: SupervisorId) -> (r: String)
        ensures
            r@ == self@.name_of(id),
    {
        match self.find(id) {
            Some(i) => self.entries[i].1.clone(),
            None => text::owned("local"),
        }
    }

    /// The name a project's config gives its supervisor.
    pub fn config_name(&self, id: SupervisorId) -> (r: Option<String>)
        ensures
            text::opt_text(r) == self@.config_name(id),
    {
        if id == local() {
            return None;
        }
        match self.find(id) {
            Some(i) => Some(self.entries[i].1.clone()),
            None => None,
        }
    }

    /// Whether a supervisor is connected.
    pub fn is_connected(&self, id: SupervisorId) -> (r: bool)
        ensures
            r == self@.connected.contains(id),
    {
        let mut i: usize = 0;
        while i < self.connected.len()
            invariant
                i <= self.connected.len(),
                forall|j: int| 0 <= j < i ==> self.connected[j] != id,
            decreases self.connected.len() - i,
        {
            if self.connected[i] == id {
                return true;
            }
            i += 1;
        }
        false
    }

    /// The supervisor behind `id` in the list.
    pub fn next_after(&self, id: SupervisorId) -> (r: SupervisorId)
        ensures
            r == self@.next_after(id),
    {
        match self.find(id) {
            Some(i) => if i < self.entries.len() - 1 {
                self.entries[i + 1].0
            } else {
                self.entries[0].0
            },
            None => local(),
        }
    }

    /// The supervisor that a project's config means.
    pub fn resolve(&self, name: &Option<String>) -> (r: SupervisorId)
        ensures
            r == self@.resolved(text::opt_text(*name)),
    {
        if let Some(n) = name {
            let mut i: usize = 0;
            while i < self.entries.len()
                invariant
                    i <= self.entries.len(),
                    self@.named(n@, 0) == self@.named(n@, i as int),
                    *name == Some(*n),
                decreases self.entries.len() - i,
            {
                if text::same(self.entries[i].1.as_str(), n.as_str()) {
                    return self.entries[i].0;
                }
                i += 1;
            }
        }
        local()
    }

    /// A copy.
    pub fn copy(&self) -> (r: SupervisorDirectory)
        ensures
            r@ == self@,
    {
        let mut entries: Vec<(SupervisorId, String)> = Vec::new();
        let mut i: usize = 0;
        while i < self.entries.len()
            invariant
                i <= self.entries.len(),
                named_ids(entries@) =~= self@.entries.take(i as int),
            decreases self.entries.len() - i,
        {
            let ghost before = entries@;
            entries.push((self.entries[i].0, self.entries[i].1.clone()));
            assert(named_ids(entries@) =~= named_ids(before).push(self@.entries[i as int]));
            assert(self@.entries.take(i + 1) =~= self@.entries.take(i as int).push(
                self@.entries[i as int],
            ));
            i += 1;
        }
        let mut connected: Vec<SupervisorId> = Vec::new();
        let mut j: usize = 0;
        while j < self.connected.len()
            invariant
                j <= self.connected.len(),
                connected@ =~= self.connected@.take(j as int),
            decreases self.connected.len() - j,
        {
            connected.push(self.connected[j]);
            j += 1;
        }
        assert(named_ids(entries@) =~= self@.entries);
        assert(connected@ =~= self.connected@);
        SupervisorDirectory { entries, connected }
    }
}

/// Where no two supervisors share a name, and none is listed twice, a project
/// reattaches to the supervisor whose name its config was given.
pub proof fn law_config_names_resolve_back(d: DirectoryModel, i: int)
    requires
        0 <= i < d.entries.len(),
        d.entries[i].0 != local_id(),
        forall|a: int, b: int|
            0 <= a < b < d.entries.len() ==> (#[trigger] d.entries[a]).0 != (
            #[trigger] d.entries[b]).0 && d.entries[a].1 != d.entries[b].1,
    ensures
        d.config_name(d.entries[i].0) == Some(d.entries[i].1),
        d.resolved(d.config_name(d.entries[i].0)) == d.entries[i].0,
{
    lemma_place_at(d, i, 0);
    lemma_named_at(d, i, 0);
}

proof fn lemma_place_at(d: DirectoryModel, i: int, from: int)
    requires
        0 <= from <= i < d.entries.len(),
        forall|a: int, b: int|
            0 <= a < b < d.entries.len() ==> (#[trigger] d.entries[a]).0 != (
            #[trigger] d.entries[b]).0,
    ensures
        d.place(d.entries[i].0, from) == Some(i),
    decreases i - from,
{
    if from < i {
        assert(d.entries[from].0 != d.entries[i].0);
        lemma_place_at(d, i, from + 1);
    }
}

proof fn lemma_named_at(d: DirectoryModel, i: int, from: int)
    requires
        0 <= from <= i < d.entries.len(),
        forall|a: int, b: int|
            0 <= a < b < d.entries.len() ==> (#[trigger] d.entries[a]).1 != (
            #[trigger] d.entries[b]).1,
    ensures
        d.named(d.entries[i].1, from) == Some(d.entries[i].0),
    decreases i - from,
{
    if from < i {
        assert(d.entries[from].1 != d.entries[i].1);
        lemma_named_at(d, i, from + 1);
    }
}

// ---------------------------------------------------------------------------
// Projects
// ---------------------------------------------------------------------------

#[derive(Debug)]
pub struct Worktree {
    pub name: String,
    pub path: String,
    pub branch: Option<String>,
    pub sessions: Vec<SessionId>,
    pub active_tab: Option<usize>,
}

/// A worktree in the abstract.
pub struct WorktreeModel {
    pub name: Seq<char>,
    pub path: Seq<char>,
    pub branch: Option<Seq<char>>,
    pub sessions: Seq<SessionId>,
    pub active_tab: Option<usize>,
}

impl View for Worktree {
    type V = WorktreeModel;

    open spec fn view(&self) -> WorktreeModel {
        WorktreeModel {
            name: self.name@,
            path: self.path@,
            branch: text::opt_text(self.branch),
            sessions: self.sessions@,
            active_tab: self.active_tab,
        }
    }
}

/// The worktrees in a list.
pub open spec fn worktree_models(v: Seq<Worktree>) -> Seq<WorktreeModel> {
    Seq::new(v.len(), |i: int| v[i]@)
}

#[derive(Clone, Debug)]
pub struct Launcher {
    pub name: String,
    pub command: String,
}

/// A launcher in the abstract.
pub struct LauncherModel {
    pub name: Seq<char>,
    pub command: Seq<char>,
}

impl View for Launcher {
    type V = LauncherModel;

    open spec fn view(&self) -> LauncherModel {
        LauncherModel { name: self.name@, command: self.command@ }
    }
}

/// The launchers in a list.
pub open spec fn launcher_models(v: Seq<Launcher>) -> Seq<LauncherModel> {
    Seq::new(v.len(), |i: int| v[i]@)
}

#[derive(Debug)]
pub struct Project {
    pub slug: String,
    pub name: String,
    pub repo_path: String,
    /// The supervisor that the project's sessions live on.
    pub supervisor: SupervisorId,
    pub worktrees: Vec<Worktree>,
    pub expanded: bool,
    /// Optional bash script executed in each new worktree on creation.
    pub setup_script: Option<String>,
    /// Named launchers: label + command to feed the PTY at spawn. Edited via
    /// the TOML for now; surfaced through `:launch` and the launch popup.
    pub launchers: Vec<Launcher>,
    /// GitHub PR-status integration. When `true`, the runtime periodically asks
    /// for PR statuses and populates [`AppState::pr_statuses`] for this
    /// project's worktrees.
    pub github_enabled: bool,
    /// Per-project override for the polling cadence (seconds). Falls back to
    /// the global setting, then a hardcoded default.
    pub gh_poll_interval_secs: Option<u64>,
}

/// A project in the abstract.
pub struct ProjectModel {
    pub slug: Seq<char>,
    pub name: Seq<char>,
    pub repo_path: Seq<char>,
    pub supervisor: SupervisorId,
    pub worktrees: Seq<WorktreeModel>,
    pub expanded: bool,
    pub setup_script: Option<Seq<char>>,
    pub launchers: Seq<LauncherModel>,
    pub github_enabled: bool,
    pub gh_poll_interval_secs: Option<u64>,
}

impl View for Project {
    type V = ProjectModel;

    open spec fn view(&self) -> ProjectModel {
        ProjectModel {
            slug: self.slug@,
            name: self.name@,
            repo_path: self.repo_path@,
            supervisor: self.supervisor,
            worktrees: worktree_models(self.worktrees@),
            expanded: self.expanded,
            setup_script: text::opt_text(self.setup_script),
            launchers: launcher_models(self.launchers@),
            github_enabled: self.github_enabled,
            gh_poll_interval_secs: self.gh_poll_interval_secs,
        }
    }
}

/// The projects in a list.
pub open spec fn project_models(v: Seq<Project>) -> Seq<ProjectModel> {
    Seq::new(v.len(), |i: int| v[i]@)
}

/// A project's config in the abstract.
pub struct ConfigModel {
    pub slug: Seq<char>,
    pub name: Seq<char>,
    pub path: Seq<char>,
    pub supervisor: Option<Seq<char>>,
    pub expanded: bool,
    pub setup_script: Option<Seq<char>>,
    pub worktrees: Seq<(Seq<char>, Seq<char>, Option<Seq<char>>)>,
    pub launchers: Seq<LauncherModel>,
    pub github_enabled: bool,
    pub gh_poll_interval_secs: Option<u64>,
}

/// A project's config in the abstract.
pub open spec fn config_model(c: ProjectConfig) -> ConfigModel {
    ConfigModel {
        slug: c.slug@,
        name: c.name@,
        path: c.path@,
        supervisor: text::opt_text(c.supervisor),
        expanded: c.expanded,
        setup_script: text::opt_text(c.setup_script),
        worktrees: Seq::new(
            c.worktrees@.len(),
            |i: int|
                (
                    c.worktrees@[i].name@,
                    c.worktrees@[i].path@,
                    text::opt_text(c.worktrees@[i].branch),
                ),
        ),
        launchers: Seq::new(
            c.launchers@.len(),
            |i: int|
                LauncherModel { name: c.launchers@[i].name@, command: c.launchers@[i].command@ },
        ),
        github_enabled: c.github_enabled,
        gh_poll_interval_secs: c.gh_poll_interval_secs,
    }
}

/// A worktree as a config gives it: no session in it yet.
pub open spec fn idle_worktree(w: (Seq<char>, Seq<char>, Option<Seq<char>>)) -> WorktreeModel {
    WorktreeModel { name: w.0, path: w.1, branch: w.2, sessions: seq![], active_tab: None }
}

/// The project that a config describes.
pub open spec fn project_of(c: ConfigModel, supervisor: SupervisorId) -> ProjectModel {
    ProjectModel {
        slug: c.slug,
        name: c.name,
        repo_path: c.path,
        supervisor,
        worktrees: Seq::new(c.worktrees.len(), |i: int| idle_worktree(c.worktrees[i])),
        expanded: c.expanded,
        setup_script: c.setup_script,
        launchers: c.launchers,
        github_enabled: c.github_enabled,
        gh_poll_interval_secs: c.gh_poll_interval_secs,
    }
}

/// The config that is saved for a project.
pub open spec fn config_of(p: ProjectModel, supervisor: Option<Seq<char>>) -> ConfigModel {
    ConfigModel {
        slug: p.slug,
        name: p.name,
        path: p.repo_path,
        supervisor,
        expanded: p.expanded,
        setup_script: p.setup_script,
        worktrees: Seq::new(
            p.worktrees.len(),
            |i: int| (p.worktrees[i].name, p.worktrees[i].path, p.worktrees[i].branch),
        ),
        launchers: p.launchers,
        github_enabled: p.github_enabled,
        gh_poll_interval_secs: p.gh_poll_interval_secs,
    }
}

impl Project {
    pub fn from_config(cfg: ProjectConfig, supervisor: SupervisorId) -> (r: Project)
        ensures
            r@ == project_of(config_model(cfg), supervisor),
    {
        let mut worktrees: Vec<Worktree> = Vec::new();
        let ghost c = config_model(cfg);
        let mut i: usize = 0;
        while i < cfg.worktrees.len()
            invariant
                i <= cfg.worktrees.len(),
                c == config_model(cfg),
                worktree_models(worktrees@) =~= project_of(c, supervisor).worktrees.take(i as int),
            decreases cfg.worktrees.len() - i,
        {
            let w = &cfg.worktrees[i];
            let none: Vec<SessionId> = Vec::new();
            let wt = Worktree {
                name: w.name.clone(),
                path: w.path.clone(),
                branch: text::clone_opt(&w.branch),
                sessions: none,
                active_tab: None,
            };
            assert(wt@ == idle_worktree(c.worktrees[i as int])) by {
                assert(none@ =~= seq![]);
            }
            let ghost before = worktrees@;
            let ghost want = project_of(c, supervisor).worktrees;
            worktrees.push(wt);
            assert(worktree_models(worktrees@) =~= worktree_models(before).push(wt@));
            assert(want.take(i + 1) =~= want.take(i as int).push(want[i as int]));
            i += 1;
        }
        let mut launchers: Vec<Launcher> = Vec::new();
        let mut j: usize = 0;
        while j < cfg.launchers.len()
            invariant
                j <= cfg.launchers.len(),
                c == config_model(cfg),
                launcher_models(launchers@) =~= c.launchers.take(j as int),
            decreases cfg.launchers.len() - j,
        {
            let ghost before = launchers@;
            launchers.push(
                Launcher {
                    name: cfg.launchers[j].name.clone(),
                    command: cfg.launchers[j].command.clone(),
                },
            );
            assert(launcher_models(launchers@) =~= launcher_models(before).push(
                c.launchers[j as int],
            ));
            assert(c.launchers.take(j + 1) =~= c.launchers.take(j as int).push(
                c.launchers[j as int],
            ));
            j += 1;
        }
        let p = Project {
            slug: cfg.slug,
            name: cfg.name,
            repo_path: cfg.path,
            supervisor,
            worktrees,
            expanded: cfg.expanded,
            setup_script: cfg.setup_script,
            launchers,
            github_enabled: cfg.github_enabled,
            gh_poll_interval_secs: cfg.gh_poll_interval_secs,
        };
        assert(p@.worktrees =~= project_of(c, supervisor).worktrees);
        assert(p@.launchers =~= c.launchers);
        p
    }

    /// The config that is saved for the project, with the name its supervisor
    /// has there.
    pub fn to_config(&self, supervisor: Option<String>) -> (r: ProjectConfig)
        ensures
            config_model(r) == config_of(self@, text::opt_text(supervisor)),
    {
        let ghost want = config_of(self@, text::opt_text(supervisor));
        let mut worktrees: Vec<WorktreeConfig> = Vec::new();
        let mut i: usize = 0;
        while i < self.worktrees.len()
            invariant
                i <= self.worktrees.len(),
                worktrees.len() == i,
                forall|k: int|
                    0 <= k < i ==> (#[trigger] worktrees@[k]).name@ == self@.worktrees[k].name
                        && worktrees@[k].path@ == self@.worktrees[k].path && text::opt_text(
                        worktrees@[k].branch,
                    ) == self@.worktrees[k].branch,
            decreases self.worktrees.len() - i,
        {
            let w = &self.worktrees[i];
            worktrees.push(
                WorktreeConfig {
                    name: w.name.clone(),
                    path: w.path.clone(),
                    branch: text::clone_opt(&w.branch),
                },
            );
            i += 1;
        }
        let mut launchers: Vec<LauncherConfig> = Vec::new();
        let mut j: usize = 0;
        while j < self.launchers.len()
            invariant
                j <= self.launchers.len(),
                launchers.len() == j,
                forall|k: int|
                    0 <= k < j ==> (#[trigger] launchers@[k]).name@ == self@.launchers[k].name
                        && launchers@[k].command@ == self@.launchers[k].command,
            decreases self.launchers.len() - j,
        {
            launchers.push(
                LauncherConfig {
                    name: self.launchers[j].name.clone(),
                    command: self.launchers[j].command.clone(),
                },
            );
            j += 1;
        }
        let c = ProjectConfig {
            slug: self.slug.clone(),
            name: self.name.clone(),
            path: self.repo_path.clone(),
            supervisor,
            expanded: self.expanded,
            setup_script: text::clone_opt(&self.setup_script),
            worktrees,
            launchers,
            github_enabled: self.github_enabled,
            gh_poll_interval_secs: self.gh_poll_interval_secs,
        };
        assert(config_model(c).worktrees =~= want.worktrees);
        assert(config_model(c).launchers =~= want.launchers);
        c
    }
}

/// A project that was saved comes back as it was, but for its sessions, which a
/// config does not hold.
pub proof fn law_saved_projects_come_back(p: ProjectModel, supervisor: Option<Seq<char>>)
    ensures
        project_of(config_of(p, supervisor), p.supervisor) == (ProjectModel {
            worktrees: Seq::new(
                p.worktrees.len(),
                |i: int|
                    WorktreeModel { sessions: seq![], active_tab: None, ..p.worktrees[i] },
            ),
            ..p
        }),
        config_of(project_of(config_of(p, supervisor), p.supervisor), supervisor) == config_of(
            p,
            supervisor,
        ),
{
    let back = project_of(config_of(p, supervisor), p.supervisor);
    assert(back.worktrees =~= Seq::new(
        p.worktrees.len(),
        |i: int| WorktreeModel { sessions: seq![], active_tab: None, ..p.worktrees[i] },
    ));
    assert(config_of(back, supervisor).worktrees =~= config_of(p, supervisor).worktrees);
}

fn mock_worktree(name: &str) -> (r: Worktree)
    ensures
        r@ == (WorktreeModel {
            name: name@,
            path: "."@,
            branch: Some(name@),
            sessions: seq![],
            active_tab: None,
        }),
{
    let none: Vec<SessionId> = Vec::new();
    assert(none@ =~= seq![]);
    Worktree {
        name: text::owned(name),
        path: text::owned("."),
        branch: Some(text::owned(name)),
        sessions: none,
        active_tab: None,
    }
}

fn mock_project(name: &str, worktrees: Vec<Worktree>, expanded: bool) -> (r: Project)
    ensures
        r@ == (ProjectModel {
            slug: name@,
            name: name@,
            repo_path: "."@,
            supervisor: local_id(),
            worktrees: worktree_models(worktrees@),
            expanded,
            setup_script: None,
            launchers: seq![],
            github_enabled: false,
            gh_poll_interval_secs: None,
        }),
{
    let none: Vec<Launcher> = Vec::new();
    assert(launcher_models(none@) =~= seq![]);
    Project {
        slug: text::owned(name),
        name: text::owned(name),
        repo_path: text::owned("."),
        supervisor: local(),
        worktrees,
        expanded,
        setup_script: None,
        launchers: none,
        github_enabled: false,
        gh_poll_interval_secs: None,
    }
}

/// A small project tree to try things on: two unfolded projects of two worktrees
/// and a folded one of one.
pub fn mock_projects() -> (r: Vec<Project>)
    ensures
        r@.len() == 3,
        r@[0]@.slug == "imbuia"@,
        r@[1]@.slug == "brick"@,
        r@[2]@.slug == "scratch"@,
        r@[0]@.expanded && r@[1]@.expanded && !r@[2]@.expanded,
        r@[0]@.worktrees.len() == 2,
        r@[0]@.worktrees[0].name == "main"@,
        r@[0]@.worktrees[1].name == "feat-x"@,
        r@[1]@.worktrees.len() == 2,
        r@[1]@.worktrees[0].name == "main"@,
        r@[1]@.worktrees[1].name == "dev"@,
        r@[2]@.worktrees.len() == 1,
        r@[2]@.worktrees[0].name == "main"@,
        forall|i: int, j: int|
            0 <= i < 3 && 0 <= j < r@[i]@.worktrees.len() ==> (
            #[trigger] r@[i]@.worktrees[j]).path == "."@ && r@[i]@.worktrees[j].sessions.len() == 0
                && r@[i]@.worktrees[j].active_tab is None,
{
    let mut a: Vec<Worktree> = Vec::new();
    a.push(mock_worktree("main"));
    a.push(mock_worktree("feat-x"));
    let mut b: Vec<Worktree> = Vec::new();
    b.push(mock_worktree("main"));
    b.push(mock_worktree("dev"));
    let mut c: Vec<Worktree> = Vec::new();
    c.push(mock_worktree("main"));
    let mut out: Vec<Project> = Vec::new();
    out.push(mock_project("imbuia", a, true));
    out.push(mock_project("brick", b, true));
    out.push(mock_project("scratch", c, false));
    out
}

// ---------------------------------------------------------------------------
// PR statuses
// ---------------------------------------------------------------------------

/// A worktree by position: its project's index and its own.
pub type WorktreeKey = (usize, usize);

/// PR statuses by worktree.
#[derive(Debug)]
pub struct PrStatuses {
    entries: Vec<(WorktreeKey, PrStatus)>,
}

/// The status that the last entry for `k` gives.
pub open spec fn status_at(s: Seq<(WorktreeKey, PrStatus)>, k: WorktreeKey) -> Option<PrStatus>
    decreases s.len(),
{
    if s.len() == 0 {
        None
    } else if s.last().0 == k {
        Some(s.last().1)
    } else {
        status_at(s.drop_last(), k)
    }
}

impl View for PrStatuses {
    type V = Map<WorktreeKey, PrStatus>;

    closed spec fn view(&self) -> Map<WorktreeKey, PrStatus> {
        Map::new(
            |k: WorktreeKey| status_at(self.entries@, k) is Some,
            |k: WorktreeKey| status_at(self.entries@, k)->Some_0,
        )
    }
}

/// `m` without the statuses of project `p`.
pub open spec fn without_project(m: Map<WorktreeKey, PrStatus>, p: usize) -> Map<
    WorktreeKey,
    PrStatus,
> {
    Map::new(|k: WorktreeKey| k.0 != p && m.contains_key(k), |k: WorktreeKey| m[k])
}

/// `m` once worktree `w` of project `p` is gone: its status is dropped and those
/// of the worktrees behind it in the project move up by one place.
pub open spec fn closed_up(m: Map<WorktreeKey, PrStatus>, p: usize, w: usize) -> Map<
    WorktreeKey,
    PrStatus,
> {
    Map::new(
        |k: WorktreeKey|
            if k.0 == p && k.1 >= w {
                k.1 < usize::MAX && m.contains_key((p, (k.1 + 1) as usize))
            } else {
                m.contains_key(k)
            },
        |k: WorktreeKey|
            if k.0 == p && k.1 >= w {
                m[(p, (k.1 + 1) as usize)]
            } else {
                m[k]
            },
    )
}

impl PrStatuses {
    pub fn new() -> (r: PrStatuses)
        ensures
            r@ == Map::<WorktreeKey, PrStatus>::empty(),
    {
        let r = PrStatuses { entries: Vec::new() };
        assert(r@ =~= Map::<WorktreeKey, PrStatus>::empty());
        r
    }

    fn find(&self, k: &WorktreeKey) -> (r: Option<usize>)
        ensures
            match r {
                Some(i) => {
                    &&& i < self.entries@.len()
                    &&& self.entries@[i as int].0 == *k
                    &&& forall|j: int| i < j < self.entries@.len() ==> (
                    #[trigger] self.entries@[j]).0 != *k
                    &&& status_at(self.entries@, *k) == Some(self.entries@[i as int].1)
                },
                None => status_at(self.entries@, *k) is None,
            },
    {
        let mut n: usize = self.entries.len();
        let ghost all = self.entries@;
        assert(all.take(n as int) =~= all);
        while n > 0
            invariant
                n <= self.entries.len(),
                all == self.entries@,
                forall|j: int| n <= j < all.len() ==> (#[trigger] all[j]).0 != *k,
                status_at(all, *k) == status_at(all.take(n as int), *k),
            decreases n,
        {
            assert(all.take(n as int).last() == all[n - 1]);
            assert(all.take(n as int).drop_last() =~= all.take(n - 1));
            if self.entries[n - 1].0.0 == k.0 && self.entries[n - 1].0.1 == k.1 {
                return Some(n - 1);
            }
            n -= 1;
        }
        None
    }

    pub fn get(&self, k: &WorktreeKey) -> (r: Option<PrStatus>)
        ensures
            r == (if self@.contains_key(*k) {
                Some(self@[*k])
            } else {
                None
            }),
    {
        match self.find(k) {
            Some(i) => Some(self.entries[i].1),
            None => None,
        }
    }

    pub fn contains_key(&self, k: &WorktreeKey) -> (r: bool)
        ensures
            r == self@.contains_key(*k),
    {
        self.find(k).is_some()
    }

    pub fn insert(&mut self, k: WorktreeKey, status: PrStatus)
        ensures
            final(self)@ == old(self)@.insert(k, status),
    {
        let found = self.find(&k);
        match found {
            Some(i) => {
                let ghost all = self.entries@;
                self.entries.set(i, (k, status));
                proof {
                    assert forall|q: WorktreeKey| #[trigger] status_at(self.entries@, q) == (if q
                        == k {
                        Some(status)
                    } else {
                        status_at(all, q)
                    }) by {
                        lemma_update_status(all, i as int, k, status, q);
                    }
                }
            },
            None => {
                let ghost all = self.entries@;
                self.entries.push((k, status));
                assert(self.entries@.drop_last() =~= all);
            },
        }
        assert(self@ =~= old(self)@.insert(k, status));
    }

    pub fn remove(&mut self, k: &WorktreeKey)
        ensures
            final(self)@ == old(self)@.remove(*k),
    {
        let ghost all = self.entries@;
        let mut kept: Vec<(WorktreeKey, PrStatus)> = Vec::new();
        let mut i: usize = 0;
        while i < self.entries.len()
            invariant
                i <= self.entries.len(),
                all == self.entries@,
                forall|q: WorktreeKey| #[trigger]
                    status_at(kept@, q) == (if q == *k {
                        None
                    } else {
                        status_at(all.take(i as int), q)
                    }),
            decreases self.entries.len() - i,
        {
            let ghost before = kept@;
            assert(all.take(i + 1).drop_last() =~= all.take(i as int));
            assert(all.take(i + 1).last() == all[i as int]);
            let e = self.entries[i];
            if !(e.0.0 == k.0 && e.0.1 == k.1) {
                kept.push(e);
                assert(kept@.drop_last() =~= before);
            }
            assert forall|q: WorktreeKey| #[trigger]
                status_at(kept@, q) == (if q == *k {
                    None
                } else {
                    status_at(all.take(i + 1), q)
                }) by {
                let was = status_at(before, q);
                assert(e.0 == q ==> status_at(all.take(i + 1), q) == Some(e.1));
                assert(e.0 != q ==> status_at(all.take(i + 1), q) == status_at(
                    all.take(i as int),
                    q,
                ));
            }
            i += 1;
        }
        assert(all.take(all.len() as int) =~= all);
        self.entries = kept;
        assert(self@ =~= old(self)@.remove(*k));
    }

    /// Drops the statuses of a project.
    pub fn remove_project(&mut self, p: usize)
        ensures
            final(self)@ == without_project(old(self)@, p),
    {
        let ghost all = self.entries@;
        let mut kept: Vec<(WorktreeKey, PrStatus)> = Vec::new();
        let mut i: usize = 0;
        while i < self.entries.len()
            invariant
                i <= self.entries.len(),
                all == self.entries@,
                forall|q: WorktreeKey| #[trigger]
                    status_at(kept@, q) == (if q.0 == p {
                        None
                    } else {
                        status_at(all.take(i as int), q)
                    }),
            decreases self.entries.len() - i,
        {
            let ghost before = kept@;
            assert(all.take(i + 1).drop_last() =~= all.take(i as int));
            assert(all.take(i + 1).last() == all[i as int]);
            let e = self.entries[i];
            if e.0.0 != p {
                kept.push(e);
                assert(kept@.drop_last() =~= before);
            }
            assert forall|q: WorktreeKey| #[trigger]
                status_at(kept@, q) == (if q.0 == p {
                    None
                } else {
                    status_at(all.take(i + 1), q)
                }) by {
                let was = status_at(before, q);
                assert(e.0 == q ==> status_at(all.take(i + 1), q) == Some(e.1));
                assert(e.0 != q ==> status_at(all.take(i + 1), q) == status_at(
                    all.take(i as int),
                    q,
                ));
            }
            i += 1;
        }
        assert(all.take(all.len() as int) =~= all);
        self.entries = kept;
        assert(self@ =~= without_project(old(self)@, p));
    }

    /// Follows the removal of worktree `w` of project `p`.
    pub fn close_up(&mut self, p: usize, w: usize)
        ensures
            final(self)@ == closed_up(old(self)@, p, w),
    {
        let ghost all = self.entries@;
        let mut kept: Vec<(WorktreeKey, PrStatus)> = Vec::new();
        let mut i: usize = 0;
        while i < self.entries.len()
            invariant
                i <= self.entries.len(),
                all == self.entries@,
                forall|q: WorktreeKey| #[trigger]
                    status_at(kept@, q) == (if q.0 == p && q.1 >= w {
                        if q.1 < usize::MAX {
                            status_at(all.take(i as int), (p, (q.1 + 1) as usize))
                        } else {
                            None
                        }
                    } else {
                        status_at(all.take(i as int), q)
                    }),
            decreases self.entries.len() - i,
        {
            let ghost before = kept@;
            assert(all.take(i + 1).drop_last() =~= all.take(i as int));
            assert(all.take(i + 1).last() == all[i as int]);
            let e = self.entries[i];
            if e.0.0 != p || e.0.1 < w {
                kept.push(e);
                assert(kept@.drop_last() =~= before);
            } else if e.0.1 > w {
                kept.push(((p, e.0.1 - 1), e.1));
                assert(kept@.drop_last() =~= before);
            }
            assert forall|q: WorktreeKey| #[trigger]
                status_at(kept@, q) == (if q.0 == p && q.1 >= w {
                    if q.1 < usize::MAX {
                        status_at(all.take(i + 1), (p, (q.1 + 1) as usize))
                    } else {
                        None
                    }
                } else {
                    status_at(all.take(i + 1), q)
                }) by {
                let was = status_at(before, q);
                let from = if q.0 == p && q.1 >= w && q.1 < usize::MAX {
                    (p, (q.1 + 1) as usize)
                } else {
                    q
                };
                assert(e.0 == from ==> status_at(all.take(i + 1), from) == Some(e.1));
                assert(e.0 != from ==> status_at(all.take(i + 1), from) == status_at(
                    all.take(i as int),
                    from,
                ));
            }
            i += 1;
        }
        assert(all.take(all.len() as int) =~= all);
        self.entries = kept;
        assert(self@ =~= closed_up(old(self)@, p, w));
    }
}

proof fn lemma_update_status(
    s: Seq<(WorktreeKey, PrStatus)>,
    i: int,
    k: WorktreeKey,
    status: PrStatus,
    q: WorktreeKey,
)
    requires
        0 <= i < s.len(),
        s[i].0 == k,
        forall|j: int| i < j < s.len() ==> (#[trigger] s[j]).0 != k,
    ensures
        status_at(s.update(i, (k, status)), q) == (if q == k {
            Some(status)
        } else {
            status_at(s, q)
        }),
    decreases s.len(),
{
    let t = s.update(i, (k, status));
    if i == s.len() - 1 {
        assert(t.drop_last() =~= s.drop_last());
    } else {
        assert(t.drop_last() =~= s.drop_last().update(i, (k, status)));
        assert(s[s.len() - 1].0 != k);
        assert forall|j: int| i < j < s.drop_last().len() implies (
        #[trigger] s.drop_last()[j]).0 != k by {
            assert(s.drop_last()[j] == s[j]);
        }
        lemma_update_status(s.drop_last(), i, k, status, q);
    }
}

// ---------------------------------------------------------------------------
// Popups
// ---------------------------------------------------------------------------

#[derive(Debug)]
pub struct InputPopup {
    pub title: String,
    pub prompt: String,
    pub buffer: String,
    pub action: PopupAction,
}

#[derive(Copy, Clone, Debug, PartialEq, Eq, Structural)]
pub enum PopupAction {
    NewWorktree { project_idx: usize },
}

/// A labelled-input popup in the abstract.
pub struct InputModel {
    pub title: Seq<char>,
    pub prompt: Seq<char>,
    pub buffer: Seq<char>,
    pub action: PopupAction,
}

impl View for InputPopup {
    type V = InputModel;

    open spec fn view(&self) -> InputModel {
        InputModel {
            title: self.title@,
            prompt: self.prompt@,
            buffer: self.buffer@,
            action: self.action,
        }
    }
}

/// Inline confirmation shown in the action bar (no modal popup). Answered with
/// `y`/`n` in Normal mode; `Esc` cancels.
#[derive(Debug)]
pub enum PendingConfirm {
    RemoveWorktree {
        project_idx: usize,
        worktree_idx: usize,
        name: String,
        repo_path: String,
        dest_path: String,
        branch: Option<String>,
    },
}

/// A confirmation in the abstract.
pub enum ConfirmModel {
    RemoveWorktree {
        project_idx: usize,
        worktree_idx: usize,
        name: Seq<char>,
        repo_path: Seq<char>,
        dest_path: Seq<char>,
        branch: Option<Seq<char>>,
    },
}

impl View for PendingConfirm {
    type V = ConfirmModel;

    open spec fn view(&self) -> ConfirmModel {
        match *self {
            PendingConfirm::RemoveWorktree {
                project_idx,
                worktree_idx,
                name,
                repo_path,
                dest_path,
                branch,
            } => ConfirmModel::RemoveWorktree {
                project_idx,
                worktree_idx,
                name: name@,
                repo_path: repo_path@,
                dest_path: dest_path@,
                branch: text::opt_text(branch),
            },
        }
    }
}

/// Multi-line edit popup. Currently used by `:edit` to edit the selected
/// project's `setup_script`.
pub struct EditPopup {
    pub project_idx: usize,
    pub title: String,
    pub textarea: EditBox,
}

/// An edit popup in the abstract.
pub struct EditModel {
    pub project_idx: usize,
    pub title: Seq<char>,
    pub textarea: BoxModel,
}

impl View for EditPopup {
    type V = EditModel;

    open spec fn view(&self) -> EditModel {
        EditModel {
            project_idx: self.project_idx,
            title: self.title@,
            textarea: self.textarea@,
        }
    }
}

/// The directories of a supervisor's host, one directory at a time.
#[derive(Debug)]
pub struct DirBrowser {
    pub dir: String,
    pub parent: Option<String>,
    pub entries: Vec<DirEntry>,
    pub cursor: u16,
}

/// A directory browser in the abstract.
pub struct BrowserModel {
    pub dir: Seq<char>,
    pub parent: Option<Seq<char>>,
    /// Names, and whether they are repositories.
    pub entries: Seq<(Seq<char>, bool)>,
    pub cursor: u16,
}

/// The entries of a listing.
pub open spec fn dir_entries(v: Seq<DirEntry>) -> Seq<(Seq<char>, bool)> {
    Seq::new(v.len(), |i: int| (v[i].name@, v[i].is_repo))
}

impl View for DirBrowser {
    type V = BrowserModel;

    open spec fn view(&self) -> BrowserModel {
        BrowserModel {
            dir: self.dir@,
            parent: text::opt_text(self.parent),
            entries: dir_entries(self.entries@),
            cursor: self.cursor,
        }
    }
}

#[derive(Copy, Clone, Debug, PartialEq, Eq, Structural)]
pub enum OpenProjectFocus {
    Path,
    Supervisor,
    Script,
    Import,
}

/// "Open project" popup: a path, a supervisor, an optional setup script, and
/// whether to import the repository's worktrees. Tab cycles the fields; Ctrl-S
/// submits; Esc cancels. While no listing has arrived the path is typed; once
/// one has, the path field is a directory browser.
pub struct OpenProjectPopup {
    pub path: String,
    pub script: EditBox,
    pub focus: OpenProjectFocus,
    /// When `true`, after the project is opened the runtime enumerates the
    /// repo's existing git worktrees and adds any not already in the
    /// project. Toggled with Space / Enter while the Import row has focus.
    pub import_existing: bool,
    pub supervisor: SupervisorId,
    pub browser: Option<DirBrowser>,
}

/// An open-project popup in the abstract.
pub struct OpenModel {
    pub path: Seq<char>,
    pub script: BoxModel,
    pub focus: OpenProjectFocus,
    pub import_existing: bool,
    pub supervisor: SupervisorId,
    pub browser: Option<BrowserModel>,
}

/// An optional browser in the abstract.
pub open spec fn opt_browser(b: Option<DirBrowser>) -> Option<BrowserModel> {
    match b {
        Some(x) => Some(x@),
        None => None,
    }
}

impl View for OpenProjectPopup {
    type V = OpenModel;

    open spec fn view(&self) -> OpenModel {
        OpenModel {
            path: self.path@,
            script: self.script@,
            focus: self.focus,
            import_existing: self.import_existing,
            supervisor: self.supervisor,
            browser: opt_browser(self.browser),
        }
    }
}

#[derive(Debug)]
pub struct LaunchEntry {
    pub label: String,
    /// `None` is the always-present "Terminal" entry (plain shell).
    pub command: Option<String>,
    pub source: LaunchSource,
}

#[derive(Copy, Clone, Debug, PartialEq, Eq, Structural)]
pub enum LaunchSource {
    /// Built-in entry (the `Terminal` row).
    Builtin,
    /// Defined on the active project.
    Project,
    /// Defined in the global config; falls back when no project entry shadows it.
    Global,
}

/// A launcher row in the abstract.
pub struct LaunchEntryModel {
    pub label: Seq<char>,
    pub command: Option<Seq<char>>,
    pub source: LaunchSource,
}

impl View for LaunchEntry {
    type V = LaunchEntryModel;

    open spec fn view(&self) -> LaunchEntryModel {
        LaunchEntryModel {
            label: self.label@,
            command: text::opt_text(self.command),
            source: self.source,
        }
    }
}

/// The rows in a list.
pub open spec fn launch_models(v: Seq<LaunchEntry>) -> Seq<LaunchEntryModel> {
    Seq::new(v.len(), |i: int| v[i]@)
}

/// Modal picker for `:launch` — shows the project's configured launchers plus
/// a "Terminal" entry that opens a plain shell. j/k or ↑/↓ to move; Enter to
/// spawn into the active worktree; Esc cancels.
#[derive(Debug)]
pub struct LaunchPopup {
    pub project_idx: usize,
    pub worktree_idx: usize,
    pub entries: Vec<LaunchEntry>,
    pub cursor: u16,
}

/// A launcher picker in the abstract.
pub struct LaunchModel {
    pub project_idx: usize,
    pub worktree_idx: usize,
    pub entries: Seq<LaunchEntryModel>,
    pub cursor: u16,
}

impl View for LaunchPopup {
    type V = LaunchModel;

    open spec fn view(&self) -> LaunchModel {
        LaunchModel {
            project_idx: self.project_idx,
            worktree_idx: self.worktree_idx,
            entries: launch_models(self.entries@),
            cursor: self.cursor,
        }
    }
}

/// The command palette: a query, and which of the entries match it.
#[derive(Debug)]
pub struct PalettePopup {
    pub query: String,
    pub entries: Vec<PaletteEntry>,
    /// Indices into `entries`, best match first.
    pub filtered: Vec<usize>,
    pub cursor: u16,
}

/// A palette in the abstract.
pub struct PaletteModel {
    pub query: Seq<char>,
    pub entries: Seq<PaletteEntryModel>,
    pub filtered: Seq<usize>,
    pub cursor: u16,
}

impl View for PalettePopup {
    type V = PaletteModel;

    open spec fn view(&self) -> PaletteModel {
        PaletteModel {
            query: self.query@,
            entries: crate::palette::entry_models(self.entries@),
            filtered: self.filtered@,
            cursor: self.cursor,
        }
    }
}

/// Phase of the auto-update flow. Drives the banner in the action bar and
/// gates re-entry from `:update`.
#[derive(Copy, Clone, Debug, PartialEq, Eq, Structural)]
pub enum UpdateStatus {
    Idle,
    Checking,
    Installing,
    /// Install finished; user needs to restart to switch over.
    InstalledPendingRestart,
}

/// Modal "resource usage" dashboard. Driven by 1 Hz `Usage` frames from each
/// supervisor while open.
#[derive(Debug)]
pub struct UsagePopup {
    /// The last report of each supervisor, sorted by supervisor.
    pub reports: Vec<(SupervisorId, UsageReport)>,
    /// This process, sampled locally.
    pub client: Option<ProcessNode>,
    pub supervisors: SupervisorDirectory,
    /// SessionIds whose subtree is expanded.
    pub expanded: SessionSet,
    /// Cursor row (index into the currently-visible flat row list).
    pub cursor: u16,
}

/// A usage popup in the abstract. Reports are only passed on, so they stand for
/// themselves.
pub struct UsageModel {
    pub reports: Seq<(SupervisorId, UsageReport)>,
    pub client: Option<ProcessNode>,
    pub supervisors: DirectoryModel,
    pub expanded: Seq<SessionId>,
    pub cursor: u16,
}

impl View for UsagePopup {
    type V = UsageModel;

    open spec fn view(&self) -> UsageModel {
        UsageModel {
            reports: self.reports@,
            client: self.client,
            supervisors: self.supervisors@,
            expanded: self.expanded@,
            cursor: self.cursor,
        }
    }
}

/// A usage popup that has just opened.
pub open spec fn fresh_usage(supervisors: DirectoryModel) -> UsageModel {
    UsageModel { reports: seq![], client: None, supervisors, expanded: seq![], cursor: 0 }
}

impl UsagePopup {
    pub fn new(supervisors: SupervisorDirectory) -> (r: UsagePopup)
        ensures
            r@ == fresh_usage(supervisors@),
    {
        let reports: Vec<(SupervisorId, UsageReport)> = Vec::new();
        assert(reports@ =~= seq![]);
        let expanded = SessionSet::new();
        assert(expanded@ =~= seq![]);
        UsagePopup { reports, client: None, supervisors, expanded, cursor: 0 }
    }
}

/// Autocomplete state for the `:` command line.
#[derive(Debug)]
pub struct CommandCompletion {
    /// Canonical command names (the first alias of each matching command),
    /// plus their descriptions. Empty means no popover is shown.
    pub matches: Vec<(&'static str, &'static str)>,
    /// Currently highlighted entry. `None` means no selection yet — Enter
    /// still executes the buffer as typed.
    pub selected: Option<usize>,
}

/// Autocomplete state in the abstract.
pub struct CompletionModel {
    pub matches: Seq<(Seq<char>, Seq<char>)>,
    pub selected: Option<usize>,
}

/// The names and descriptions in a list.
pub open spec fn str_pairs(v: Seq<(&'static str, &'static str)>) -> Seq<(Seq<char>, Seq<char>)> {
    Seq::new(v.len(), |i: int| (v[i].0@, v[i].1@))
}

impl View for CommandCompletion {
    type V = CompletionModel;

    open spec fn view(&self) -> CompletionModel {
        CompletionModel { matches: str_pairs(self.matches@), selected: self.selected }
    }
}

// ---------------------------------------------------------------------------
// The state
// ---------------------------------------------------------------------------

pub struct AppState {
    pub running: bool,
    /// The sessions there are, on every supervisor.
    pub sessions: SessionSet,
    pub projects: Vec<Project>,
    /// Cursor in the sidebar: (project_idx, Some(worktree_idx)) on a worktree,
    /// or (project_idx, None) on a project header.
    pub sidebar_selection: Option<(usize, Option<usize>)>,
    /// Currently active worktree whose tabs are shown in the tab bar.
    pub active_worktree: Option<(usize, usize)>,
    pub sidebar_width: u16,
    /// First visible row of the sidebar tree (scroll offset).
    pub sidebar_scroll: u16,
    /// Chord accumulator for the keymap matcher. Empty when no multi-key
    /// chord is in progress.
    pub pending_chord: ChordBuf,
    /// When matching a chord in `Mode::Terminal`, the raw KeyEvents that
    /// would otherwise go straight to the PTY are buffered here. If the
    /// chord matches an allow-listed action they're discarded; if it
    /// fails, they're replayed to the PTY in order.
    pub pending_terminal_keys: KeyBuf,
    /// Resolved keymap (defaults overlaid with user bindings). Loaded once
    /// at startup and not mutated after.
    pub keymap: KeyMap,
    /// Raw user keybind table from the config toml.
    pub keybinds_config: KeybindTable,
    pub term_size: TermSize,
    pub mode: Mode,
    /// Command-mode input buffer (the part after `:`).
    pub command: String,
    /// Feedback from the most recent command (errors, hints). Cleared on `:`.
    pub command_status: Option<String>,
    /// Autocomplete suggestions for the current command-line buffer. `Some`
    /// only while in `Mode::Command` and the user is editing the first token.
    pub command_completion: Option<CommandCompletion>,
    pub ui_focus: UiFocus,
    /// Whether the help popup is showing. Dismissed by Esc or mouse click.
    pub help_open: bool,
    /// Vertical scroll offset (rows) inside the help popup.
    pub help_scroll: u16,
    /// The largest scroll offset that the help renderer last had a use for.
    /// Zero when help is closed or fits without scrolling.
    pub help_max_scroll: u16,
    /// Active labelled-input popup (`:worktree`), if any.
    pub popup: Option<InputPopup>,
    /// Active multi-line edit popup (`:edit`), if any.
    pub edit_popup: Option<EditPopup>,
    /// Active "open project" popup.
    pub open_project_popup: Option<OpenProjectPopup>,
    /// Active launcher picker, if any.
    pub launch_popup: Option<LaunchPopup>,
    /// Active command palette, if any.
    pub palette_popup: Option<PalettePopup>,
    /// Active usage popup (`:usage`), if any.
    pub usage_popup: Option<UsagePopup>,
    /// `~/.config/imbuia` (or XDG equivalent). Resolved once at startup.
    pub config_dir: String,
    /// Where the client's log lies. Resolved once at startup.
    pub log_path: String,
    /// Whether the `gh` CLI was found. Resolved once at startup.
    pub gh_available: bool,
    /// Description of the currently running async operation (open project,
    /// add worktree). Cleared when the result action arrives.
    pub pending_op: Option<String>,
    /// In-flight action bar confirmation (e.g. worktree delete). Mutually
    /// exclusive with normal Normal-mode key handling: while `Some`, keys are
    /// routed to the y/n/Esc prompt.
    pub pending_confirm: Option<PendingConfirm>,
    /// Active color palette. Persisted in the global config.
    pub theme: Theme,
    /// Cross-project launchers loaded from `config.toml`. Merged with the
    /// selected project's launchers at `:launch` time; project entries with
    /// the same name take precedence.
    pub global_launchers: Vec<Launcher>,
    /// `Some` once a background check discovers a newer release on GitHub.
    /// Drives the right-aligned banner in the action bar.
    pub available_update: Option<UpdateInfo>,
    pub update_status: UpdateStatus,
    /// `true` when the user typed `:update` (no args) and we had to kick a
    /// check first. The next check that finds a release auto-installs it
    /// instead of just setting the banner.
    pub auto_install_after_check: bool,
    /// PR status per worktree, keyed positionally as `(project_idx, worktree_idx)`.
    /// Absence means "no PR" or "integration disabled".
    pub pr_statuses: PrStatuses,
    /// Global default poll interval (seconds) for GitHub PR status. `None`
    /// means use the hardcoded fallback (120s).
    pub gh_poll_interval_secs: Option<u64>,
    /// `true` while a foreground `:gh-refresh` is in flight. Background polls
    /// don't set this — they should never touch `command_status`.
    pub pr_refresh_in_flight: bool,
    /// The supervisors there are.
    pub supervisors: SupervisorDirectory,
}

/// The state in the abstract.
pub struct AppModel {
    pub running: bool,
    pub sessions: Seq<SessionId>,
    pub projects: Seq<ProjectModel>,
    pub sidebar_selection: Option<(usize, Option<usize>)>,
    pub active_worktree: Option<(usize, usize)>,
    pub sidebar_width: u16,
    pub sidebar_scroll: u16,
    pub pending_chord: Seq<Chord>,
    pub pending_terminal_keys: Seq<KeyEvent>,
    pub keys_normal: Table,
    pub keys_terminal: Table,
    pub keybinds_config: Seq<(Seq<char>, Seq<char>)>,
    pub term_size: TermSize,
    pub mode: Mode,
    pub command: Seq<char>,
    pub command_status: Option<Seq<char>>,
    pub command_completion: Option<CompletionModel>,
    pub ui_focus: UiFocus,
    pub help_open: bool,
    pub help_scroll: u16,
    pub help_max_scroll: u16,
    pub popup: Option<InputModel>,
    pub edit_popup: Option<EditModel>,
    pub open_project_popup: Option<OpenModel>,
    pub launch_popup: Option<LaunchModel>,
    pub palette_popup: Option<PaletteModel>,
    pub usage_popup: Option<UsageModel>,
    pub config_dir: Seq<char>,
    pub log_path: Seq<char>,
    pub gh_available: bool,
    pub pending_op: Option<Seq<char>>,
    pub pending_confirm: Option<ConfirmModel>,
    pub theme: Theme,
    pub global_launchers: Seq<LauncherModel>,
    pub available_update: Option<UpdateInfo>,
    pub update_status: UpdateStatus,
    pub auto_install_after_check: bool,
    pub pr_statuses: Map<WorktreeKey, PrStatus>,
    pub gh_poll_interval_secs: Option<u64>,
    pub pr_refresh_in_flight: bool,
    pub supervisors: DirectoryModel,
}

/// What an optional value stands for.
pub open spec fn opt_view<T: View>(o: Option<T>) -> Option<T::V> {
    match o {
        Some(x) => Some(x@),
        None => None,
    }
}

impl View for AppState {
    type V = AppModel;

    open spec fn view(&self) -> AppModel {
        AppModel {
            running: self.running,
            sessions: self.sessions@,
            projects: project_models(self.projects@),
            sidebar_selection: self.sidebar_selection,
            active_worktree: self.active_worktree,
            sidebar_width: self.sidebar_width,
            sidebar_scroll: self.sidebar_scroll,
            pending_chord: self.pending_chord@,
            pending_terminal_keys: self.pending_terminal_keys@,
            keys_normal: self.keymap.table(Scope::Normal),
            keys_terminal: self.keymap.table(Scope::Terminal),
            keybinds_config: self.keybinds_config.pairs(),
            term_size: self.term_size,
            mode: self.mode,
            command: self.command@,
            command_status: opt_view(self.command_status),
            command_completion: opt_view(self.command_completion),
            ui_focus: self.ui_focus,
            help_open: self.help_open,
            help_scroll: self.help_scroll,
            help_max_scroll: self.help_max_scroll,
            popup: opt_view(self.popup),
            edit_popup: opt_view(self.edit_popup),
            open_project_popup: opt_view(self.open_project_popup),
            launch_popup: opt_view(self.launch_popup),
            palette_popup: opt_view(self.palette_popup),
            usage_popup: opt_view(self.usage_popup),
            config_dir: self.config_dir@,
            log_path: self.log_path@,
            gh_available: self.gh_available,
            pending_op: opt_view(self.pending_op),
            pending_confirm: opt_view(self.pending_confirm),
            theme: self.theme,
            global_launchers: launcher_models(self.global_launchers@),
            available_update: self.available_update,
            update_status: self.update_status,
            auto_install_after_check: self.auto_install_after_check,
            pr_statuses: self.pr_statuses@,
            gh_poll_interval_secs: self.gh_poll_interval_secs,
            pr_refresh_in_flight: self.pr_refresh_in_flight,
            supervisors: self.supervisors@,
        }
    }
}

/// The state before anything happened.
pub open spec fn initial_model() -> AppModel {
    AppModel {
        running: true,
        sessions: seq![],
        projects: seq![],
        sidebar_selection: None,
        active_worktree: None,
        sidebar_width: DEFAULT_SIDEBAR_WIDTH,
        sidebar_scroll: 0,
        pending_chord: seq![],
        pending_terminal_keys: seq![],
        keys_normal: crate::keybinds::default_normal(),
        keys_terminal: crate::keybinds::default_terminal(),
        keybinds_config: seq![],
        term_size: TermSize { rows: 0, cols: 0 },
        mode: Mode::Normal,
        command: seq![],
        command_status: None,
        command_completion: None,
        ui_focus: UiFocus::Sidebar,
        help_open: false,
        help_scroll: 0,
        help_max_scroll: 0,
        popup: None,
        edit_popup: None,
        open_project_popup: None,
        launch_popup: None,
        palette_popup: None,
        usage_popup: None,
        config_dir: seq![],
        log_path: seq![],
        gh_available: false,
        pending_op: None,
        pending_confirm: None,
        theme: crate::theme::palette(ThemeKind::Dark),
        global_launchers: seq![],
        available_update: None,
        update_status: UpdateStatus::Idle,
        auto_install_after_check: false,
        pr_statuses: Map::empty(),
        gh_poll_interval_secs: None,
        pr_refresh_in_flight: false,
        supervisors: DirectoryModel {
            entries: seq![(local_id(), "local"@)],
            connected: seq![local_id()],
        },
    }
}

impl AppModel {
    /// Worktree `w` of project `p`, if there is one.
    pub open spec fn worktree(self, p: usize, w: usize) -> Option<WorktreeModel> {
        if p < self.projects.len() && w < self.projects[p as int].worktrees.len() {
            Some(self.projects[p as int].worktrees[w as int])
        } else {
            None
        }
    }

    /// The state with that worktree in place of worktree `w` of project `p`.
    pub open spec fn with_worktree(self, p: usize, w: usize, wt: WorktreeModel) -> AppModel {
        let project = self.projects[p as int];
        self.with_project(
            p,
            ProjectModel { worktrees: project.worktrees.update(w as int, wt), ..project },
        )
    }

    /// The state with that project in place of project `p`.
    pub open spec fn with_project(self, p: usize, project: ProjectModel) -> AppModel {
        AppModel { projects: self.projects.update(p as int, project), ..self }
    }

    /// The session in the tab that the terminal pane shows.
    pub open spec fn focused_session(self) -> Option<SessionId> {
        match self.active_worktree {
            Some((p, w)) => match self.worktree(p, w) {
                Some(wt) => match wt.active_tab {
                    Some(i) => if i < wt.sessions.len() {
                        Some(wt.sessions[i as int])
                    } else {
                        None
                    },
                    None => None,
                },
                None => None,
            },
            None => None,
        }
    }

    /// The active worktree and the sidebar's cursor are on projects that are
    /// there.
    pub open spec fn consistent(self) -> bool {
        &&& self.active_worktree matches Some((p, _)) ==> p < self.projects.len()
        &&& self.sidebar_selection matches Some((p, _)) ==> p < self.projects.len()
    }
}

impl AppState {
    pub fn new() -> (r: AppState)
        ensures
            r@ == initial_model(),
    {
        let projects: Vec<Project> = Vec::new();
        let global_launchers: Vec<Launcher> = Vec::new();
        let r = AppState {
            running: true,
            sessions: SessionSet::new(),
            projects,
            sidebar_selection: None,
            active_worktree: None,
            sidebar_width: DEFAULT_SIDEBAR_WIDTH,
            sidebar_scroll: 0,
            pending_chord: ChordBuf::new(),
            pending_terminal_keys: KeyBuf::new(),
            keymap: crate::keybinds::defaults(),
            keybinds_config: KeybindTable::new(),
            term_size: TermSize::default(),
            mode: Mode::Normal,
            command: String::new(),
            command_status: None,
            command_completion: None,
            ui_focus: UiFocus::Sidebar,
            help_open: false,
            help_scroll: 0,
            help_max_scroll: 0,
            popup: None,
            edit_popup: None,
            open_project_popup: None,
            launch_popup: None,
            palette_popup: None,
            usage_popup: None,
            config_dir: String::new(),
            log_path: String::new(),
            gh_available: false,
            pending_op: None,
            pending_confirm: None,
            theme: Theme::default(),
            global_launchers,
            available_update: None,
            update_status: UpdateStatus::Idle,
            auto_install_after_check: false,
            pr_statuses: PrStatuses::new(),
            gh_poll_interval_secs: None,
            pr_refresh_in_flight: false,
            supervisors: SupervisorDirectory::local_only(),
        };
        assert(r@.projects =~= seq![]);
        assert(r@.global_launchers =~= seq![]);
        r
    }

    /// Session currently visible in the terminal pane, if any.
    pub fn focused_session_id(&self) -> (r: Option<SessionId>)
        ensures
            r == self@.focused_session(),
    {
        let (p, w) = match self.active_worktree {
            Some(at) => at,
            None => return None,
        };
        if p >= self.projects.len() || w >= self.projects[p].worktrees.len() {
            return None;
        }
        let wt = &self.projects[p].worktrees[w];
        match wt.active_tab {
            Some(i) => if i < wt.sessions.len() {
                Some(wt.sessions[i])
            } else {
                None
            },
            None => None,
        }
    }

    /// Whether the active worktree and the sidebar's cursor are on projects that
    /// are there.
    pub fn is_consistent(&self) -> (r: bool)
        ensures
            r == self@.consistent(),
    {
        let a = match self.active_worktree {
            Some((p, _)) => p < self.projects.len(),
            None => true,
        };
        let b = match self.sidebar_selection {
            Some((p, _)) => p < self.projects.len(),
            None => true,
        };
        a && b
    }
}

// ---------------------------------------------------------------------------
// Actions and commands
// ---------------------------------------------------------------------------

/// Something that happened.
#[derive(Debug)]
pub enum Action {
    /// Emitted by the runtime after `Command::SpawnInWorktree` succeeds.
    SessionSpawned { session: SessionId, dest: (usize, usize) },
    Key(KeyEvent),
    Mouse(MouseEvent),
    Paste(String),
    Resize(TermSize),
    SessionExited(SessionId),
    /// Supervisor → reducer: a path validated as a git repo. The reducer derives
    /// the slug, builds the `Project`, and persists it. Where `import_existing`,
    /// it asks for the repository's worktrees once the project is there.
    ProjectValidated {
        supervisor: SupervisorId,
        canonical_path: String,
        repo_name: String,
        head_branch: Option<String>,
        setup_script: Option<String>,
        import_existing: bool,
    },
    /// A project is ready to be listed.
    ProjectOpened { project: Project, import_existing: bool },
    /// Runtime → reducer: a worktree finished `git worktree add`.
    WorktreeAdded { project_idx: usize, worktree: Worktree },
    /// Runtime → reducer: `git worktree remove` completed; drop it from state.
    WorktreeRemoved { project_idx: usize, worktree_idx: usize },
    /// Runtime → reducer: `git worktree list` returned these entries; the
    /// reducer adds whichever ones aren't already in the project.
    WorktreesImported { project_idx: usize, entries: Vec<Worktree> },
    /// Runtime → reducer: an async operation failed; show the message.
    OperationFailed(String),
    /// A supervisor's connection ended (steal-on-attach, socket EOF, read
    /// error). Losing the local one ends the program; losing a remote drops its
    /// sessions only.
    SupervisorLost(SupervisorId, String),
    /// A supervisor's connection is up. The runtime deals with it.
    SupervisorConnected(SupervisorId),
    /// Supervisor → reducer: a fresh resource-usage snapshot arrived.
    UsageReceived(SupervisorId, UsageReport),
    /// This process's own usage, sampled locally.
    LocalUsageSampled(ProcessNode),
    /// A directory was listed for the open-project popup.
    DirListed { dir: String, parent: Option<String>, entries: Vec<DirEntry> },
    /// Background updater finished a check. `Ok(None)` means "up to date".
    UpdateChecked(Result<Option<UpdateInfo>, String>),
    /// Updater thread finished an install attempt.
    UpdateInstalled(Result<InstallOutcome, String>),
    /// Hourly tick from the runtime telling the reducer to fire a check.
    PeriodicUpdateCheck,
    /// Periodic tick from the runtime that asks the reducer to emit one
    /// `FetchPrStatuses` command per gh-enabled project.
    PeriodicPrCheck,
    /// Background fetcher result for a single project: one entry per
    /// worktree-index in the order they were polled. `None` clears the
    /// existing entry (no PR / per-worktree failure).
    PrStatusesFetched { project_idx: usize, statuses: Vec<(usize, Option<PrStatus>)> },
    /// Background fetcher failure. Surfaced to `command_status` only when a
    /// foreground `:gh-refresh` was in flight; silent otherwise.
    PrFetchFailed { project_idx: usize, message: String },
    Quit,
}

/// Something to be done outside.
#[derive(Debug)]
pub enum Command {
    WriteKey(SessionId, KeyEvent),
    WriteMouse(SessionId, MouseEvent),
    /// Forward a paste payload to the PTY.
    WritePaste(SessionId, String),
    ResizePty(SessionId, u16, u16),
    /// Hand a clipboard payload (`<ty>;<base64>`) on to the outer terminal.
    SetClipboard(String),
    /// Ask the runtime to spawn a PTY for the given destination worktree.
    /// On success it dispatches `Action::SessionSpawned { dest, .. }`.
    /// `initial_command`, when set, is written verbatim to the PTY immediately
    /// after spawn (followed by a newline) so the shell executes it.
    SpawnInWorktree {
        supervisor: SupervisorId,
        rows: u16,
        cols: u16,
        cwd: String,
        dest: (usize, usize),
        initial_command: Option<String>,
        /// Carried verbatim to the supervisor so it can identify which
        /// project/worktree this session belongs to when reporting it back
        /// at attach time.
        project_slug: String,
        worktree_name: String,
    },
    /// Ask the supervisor to terminate the given session (e.g. on `:tabclose`).
    KillSession(SessionId),
    /// Send `Shutdown` to the supervisor.
    RestartSupervisor,
    /// Dial a remote supervisor again.
    ReconnectSupervisor(SupervisorId),
    /// Start receiving `UsageReport` frames (1 Hz).
    SubscribeUsage,
    /// Stop receiving usage frames.
    UnsubscribeUsage,
    /// List a directory of a supervisor's host; its home where no path is given.
    ListDir { supervisor: SupervisorId, path: Option<String> },
    /// Validate a path (supervisor-side), then build + save a project config.
    OpenProject {
        supervisor: SupervisorId,
        path: String,
        setup_script: Option<String>,
        /// If `true`, the reducer auto-dispatches `ImportWorktrees` once the
        /// project lands.
        import_existing: bool,
    },
    /// Run `git worktree list --porcelain` and append every entry not
    /// already in the project. Asynchronous.
    ImportWorktrees { project_idx: usize, repo_path: String },
    /// Run `git worktree add` and persist. Asynchronous.
    AddWorktree { project_idx: usize, repo_path: String, branch: String },
    /// Run `git worktree remove --force` and `git branch -D`. Asynchronous.
    /// On success the runtime emits `Action::WorktreeRemoved`.
    RemoveWorktree {
        project_idx: usize,
        worktree_idx: usize,
        repo_path: String,
        dest_path: String,
        branch: Option<String>,
    },
    /// Persist global config (sidebar width + project list).
    SaveGlobalConfig,
    /// Persist a project's config.
    SaveProjectConfig(usize),
    /// Ask the updater to hit GitHub and report back via
    /// [`Action::UpdateChecked`].
    CheckForUpdate,
    /// Install the given release tag; result comes back as
    /// [`Action::UpdateInstalled`].
    InstallUpdate { tag: String },
    /// Ask for the PR status of the given worktrees. Answered with
    /// [`Action::PrStatusesFetched`].
    FetchPrStatuses {
        project_idx: usize,
        /// CWD for the `gh` invocations (project's main repo dir).
        repo_path: String,
        /// `(worktree_idx, worktree_cwd)` — branch resolved live, so a
        /// `git switch` inside a worktree picks up on the next refresh.
        worktrees: Vec<(usize, String)>,
    },
    Shutdown,
}

/// A command in the abstract.
pub enum CommandModel {
    WriteKey(SessionId, KeyEvent),
    WriteMouse(SessionId, MouseEvent),
    WritePaste(SessionId, Seq<char>),
    ResizePty(SessionId, u16, u16),
    SetClipboard(Seq<char>),
    SpawnInWorktree {
        supervisor: SupervisorId,
        rows: u16,
        cols: u16,
        cwd: Seq<char>,
        dest: (usize, usize),
        initial_command: Option<Seq<char>>,
        project_slug: Seq<char>,
        worktree_name: Seq<char>,
    },
    KillSession(SessionId),
    RestartSupervisor,
    ReconnectSupervisor(SupervisorId),
    SubscribeUsage,
    UnsubscribeUsage,
    ListDir { supervisor: SupervisorId, path: Option<Seq<char>> },
    OpenProject {
        supervisor: SupervisorId,
        path: Seq<char>,
        setup_script: Option<Seq<char>>,
        import_existing: bool,
    },
    ImportWorktrees { project_idx: usize, repo_path: Seq<char> },
    AddWorktree { project_idx: usize, repo_path: Seq<char>, branch: Seq<char> },
    RemoveWorktree {
        project_idx: usize,
        worktree_idx: usize,
        repo_path: Seq<char>,
        dest_path: Seq<char>,
        branch: Option<Seq<char>>,
    },
    SaveGlobalConfig,
    SaveProjectConfig(usize),
    CheckForUpdate,
    InstallUpdate { tag: Seq<char> },
    FetchPrStatuses {
        project_idx: usize,
        repo_path: Seq<char>,
        worktrees: Seq<(usize, Seq<char>)>,
    },
    Shutdown,
}

/// The worktrees named in a request for PR statuses.
pub open spec fn indexed_paths(v: Seq<(usize, String)>) -> Seq<(usize, Seq<char>)> {
    Seq::new(v.len(), |i: int| (v[i].0, v[i].1@))
}

impl View for Command {
    type V = CommandModel;

    open spec fn view(&self) -> CommandModel {
        match *self {
            Command::WriteKey(id, k) => CommandModel::WriteKey(id, k),
            Command::WriteMouse(id, m) => CommandModel::WriteMouse(id, m),
            Command::WritePaste(id, s) => CommandModel::WritePaste(id, s@),
            Command::ResizePty(id, r, c) => CommandModel::ResizePty(id, r, c),
            Command::SetClipboard(p) => CommandModel::SetClipboard(p@),
            Command::SpawnInWorktree {
                supervisor,
                rows,
                cols,
                cwd,
                dest,
                initial_command,
                project_slug,
                worktree_name,
            } => CommandModel::SpawnInWorktree {
                supervisor,
                rows,
                cols,
                cwd: cwd@,
                dest,
                initial_command: opt_view(initial_command),
                project_slug: project_slug@,
                worktree_name: worktree_name@,
            },
            Command::KillSession(id) => CommandModel::KillSession(id),
            Command::RestartSupervisor => CommandModel::RestartSupervisor,
            Command::ReconnectSupervisor(id) => CommandModel::ReconnectSupervisor(id),
            Command::SubscribeUsage => CommandModel::SubscribeUsage,
            Command::UnsubscribeUsage => CommandModel::UnsubscribeUsage,
            Command::ListDir { supervisor, path } => CommandModel::ListDir {
                supervisor,
                path: opt_view(path),
            },
            Command::OpenProject { supervisor, path, setup_script, import_existing } =>
                CommandModel::OpenProject {
                supervisor,
                path: path@,
                setup_script: opt_view(setup_script),
                import_existing,
            },
            Command::ImportWorktrees { project_idx, repo_path } => CommandModel::ImportWorktrees {
                project_idx,
                repo_path: repo_path@,
            },
            Command::AddWorktree { project_idx, repo_path, branch } => CommandModel::AddWorktree {
                project_idx,
                repo_path: repo_path@,
                branch: branch@,
            },
            Command::RemoveWorktree {
                project_idx,
                worktree_idx,
                repo_path,
                dest_path,
                branch,
            } => CommandModel::RemoveWorktree {
                project_idx,
                worktree_idx,
                repo_path: repo_path@,
                dest_path: dest_path@,
                branch: opt_view(branch),
            },
            Command::SaveGlobalConfig => CommandModel::SaveGlobalConfig,
            Command::SaveProjectConfig(i) => CommandModel::SaveProjectConfig(i),
            Command::CheckForUpdate => CommandModel::CheckForUpdate,
            Command::InstallUpdate { tag } => CommandModel::InstallUpdate { tag: tag@ },
            Command::FetchPrStatuses { project_idx, repo_path, worktrees } =>
                CommandModel::FetchPrStatuses {
                project_idx,
                repo_path: repo_path@,
                worktrees: indexed_paths(worktrees@),
            },
            Command::Shutdown => CommandModel::Shutdown,
        }
    }
}

/// The commands that a step asks for, in order.
#[verifier::external_body]
#[derive(Debug)]
pub struct Commands {
    list: SmallVec<[Command; 8]>,
}

/// The commands in a list, in order.
pub uninterp spec fn commands_in(c: Commands) -> Seq<Command>;

/// The commands of a list in the abstract.
pub open spec fn command_models(v: Seq<Command>) -> Seq<CommandModel> {
    Seq::new(v.len(), |i: int| v[i]@)
}

impl View for Commands {
    type V = Seq<CommandModel>;

    open spec fn view(&self) -> Seq<CommandModel> {
        command_models(commands_in(*self))
    }
}

impl Commands {
    /// `smallvec::SmallVec::new`: no command.
    #[verifier::external_body]
    fn empty() -> (r: Commands)
        ensures
            commands_in(r) == Seq::<Command>::empty(),
    {
        Commands { list: SmallVec::new() }
    }

    /// `smallvec::SmallVec::push`: puts one command behind the others.
    #[verifier::external_body]
    fn append(&mut self, c: Command)
        ensures
            commands_in(*final(self)) == commands_in(*old(self)).push(c),
    {
        self.list.push(c);
    }

    /// `smallvec::SmallVec::as_slice`: the commands, in order.
    #[verifier::external_body]
    fn slice(&self) -> (r: &[Command])
        ensures
            r@ == commands_in(*self),
    {
        self.list.as_slice()
    }

    /// `smallvec::SmallVec::into_vec`: the commands, in order.
    #[verifier::external_body]
    fn unpacked(self) -> (r: Vec<Command>)
        ensures
            r@ == commands_in(self),
    {
        self.list.into_vec()
    }

    pub fn new() -> (r: Commands)
        ensures
            r@ == Seq::<CommandModel>::empty(),
    {
        let r = Commands::empty();
        assert(r@ =~= Seq::<CommandModel>::empty());
        r
    }

    /// Asks for one more command.
    pub fn push(&mut self, c: Command)
        ensures
            final(self)@ == old(self)@.push(c@),
    {
        self.append(c);
        assert(self@ =~= old(self)@.push(c@));
    }

    /// The commands, in order.
    pub fn as_slice(&self) -> (r: &[Command])
        ensures
            command_models(r@) == self@,
    {
        self.slice()
    }

    /// The commands, in order, to be performed.
    pub fn into_vec(self) -> (r: Vec<Command>)
        ensures
            command_models(r@) == self@,
    {
        self.unpacked()
    }

    pub fn len(&self) -> (r: usize)
        ensures
            r == self@.len(),
    {
        self.slice().len()
    }

    pub fn is_empty(&self) -> (r: bool)
        ensures
            r == (self@.len() == 0),
    {
        self.slice().len() == 0
    }
}

} // verus!
