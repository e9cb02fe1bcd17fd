//! What the program does around the reducer: how it starts, where resumed
//! sessions go, when it polls, and what each command comes to.

use crate::app::{
    command_models, config_model, config_of, local, project_models, project_of, AppModel, AppState,
    Command, CommandModel, ConfirmModel, DirectoryModel, Launcher, LauncherModel, Project, ProjectModel,
    SupervisorDirectory, SupervisorId, WorktreeModel,
};
use crate::client::{directory_of, entry_place, up, ups, Supervisors};
use crate::config::{
    remote_pairs, GlobalConfig, LauncherConfig, ProjectConfig, RemoteConfig,
};
use crate::event::{KeyEvent, MouseEvent};
use crate::keybinds::{
    default_normal, default_terminal, load_overlay, overlaid, BindableAction, Scope,
};
use crate::keys::dispatched;
use crate::layout::TermSize;
use crate::lifecycle::{session_spawned, slugs};
use crate::mutate;
use crate::popups::removal_confirmed;
use crate::session::{self, SessionId};
use crate::tabs;
use crate::text;
use crate::theme::Theme;
use vstd::prelude::*;

verus! {

// ---------------------------------------------------------------------------
// Starting
// ---------------------------------------------------------------------------

/// The launchers of a config.
pub open spec fn launchers_of(v: Seq<LauncherConfig>) -> Seq<LauncherModel> {
    Seq::new(v.len(), |i: int| LauncherModel { name: v[i].name@, command: v[i].command@ })
}

/// The projects of configs, each on the supervisor that its config names.
pub open spec fn projects_of(cfgs: Seq<ProjectConfig>, d: DirectoryModel) -> Seq<ProjectModel> {
    Seq::new(
        cfgs.len(),
        |i: int|
            project_of(config_model(cfgs[i]), d.resolved(text::opt_text(cfgs[i].supervisor))),
    )
}

/// The state that the program starts with.
pub open spec fn started(
    term_size: TermSize,
    config_dir: Seq<char>,
    log_path: Seq<char>,
    gh_available: bool,
    global: GlobalConfig,
    cfgs: Seq<ProjectConfig>,
    d: DirectoryModel,
) -> AppModel {
    AppModel {
        term_size,
        config_dir,
        log_path,
        gh_available,
        supervisors: d,
        sidebar_width: global.sidebar_width,
        theme: crate::theme::palette(global.theme),
        global_launchers: launchers_of(global.launchers@),
        gh_poll_interval_secs: global.gh_poll_interval_secs,
        keybinds_config: global.keybinds.pairs(),
        keys_normal: overlaid(default_normal(), Scope::Normal, global.keybinds.pairs()),
        keys_terminal: overlaid(default_terminal(), Scope::Terminal, global.keybinds.pairs()),
        projects: projects_of(cfgs, d),
        sidebar_selection: if cfgs.len() > 0 {
            Some((0, None))
        } else {
            None
        },
        ..crate::app::initial_model()
    }
}

fn launchers_from(v: &Vec<LauncherConfig>) -> (r: Vec<Launcher>)
    ensures
        crate::app::launcher_models(r@) == launchers_of(v@),
{
    let ghost want = launchers_of(v@);
    let mut out: Vec<Launcher> = Vec::new();
    let mut i: usize = 0;
    while i < v.len()
        invariant
            i <= v.len(),
            want == launchers_of(v@),
            crate::app::launcher_models(out@) =~= want.take(i as int),
        decreases v.len() - i,
    {
        let ghost before = out@;
        out.push(Launcher { name: v[i].name.clone(), command: v[i].command.clone() });
        assert(crate::app::launcher_models(out@) =~= crate::app::launcher_models(before).push(
            want[i as int],
        ));
        assert(want.take(i + 1) =~= want.take(i as int).push(want[i as int]));
        i += 1;
    }
    assert(want.take(want.len() as int) =~= want);
    out
}

fn copy_config(c: &ProjectConfig) -> (r: ProjectConfig)
    ensures
        config_model(r) == config_model(*c),
{
    let mut worktrees: Vec<crate::config::WorktreeConfig> = Vec::new();
    let mut i: usize = 0;
    while i < c.worktrees.len()
        invariant
            i <= c.worktrees.len(),
            worktrees.len() == i,
            forall|k: int|
                0 <= k < i ==> (#[trigger] worktrees@[k]).name@ == c.worktrees@[k].name@
                    && worktrees@[k].path@ == c.worktrees@[k].path@ && text::opt_text(
                    worktrees@[k].branch,
                ) == text::opt_text(c.worktrees@[k].branch),
        decreases c.worktrees.len() - i,
    {
        let w = &c.worktrees[i];
        worktrees.push(
            crate::config::WorktreeConfig {
                name: w.name.clone(),
                path: w.path.clone(),
                branch: text::clone_opt(&w.branch),
            },
        );
        i += 1;
    }
    let mut launchers: Vec<LauncherConfig> = Vec::new();
    let mut j: usize = 0;
    while j < c.launchers.len()
        invariant
            j <= c.launchers.len(),
            launchers.len() == j,
            forall|k: int|
                0 <= k < j ==> (#[trigger] launchers@[k]).name@ == c.launchers@[k].name@
                    && launchers@[k].command@ == c.launchers@[k].command@,
        decreases c.launchers.len() - j,
    {
        launchers.push(
            LauncherConfig {
                name: c.launchers[j].name.clone(),
                command: c.launchers[j].command.clone(),
            },
        );
        j += 1;
    }
    let r = ProjectConfig {
        slug: c.slug.clone(),
        name: c.name.clone(),
        path: c.path.clone(),
        supervisor: text::clone_opt(&c.supervisor),
        expanded: c.expanded,
        setup_script: text::clone_opt(&c.setup_script),
        worktrees,
        launchers,
        github_enabled: c.github_enabled,
        gh_poll_interval_secs: c.gh_poll_interval_secs,
    };
    assert(config_model(r).worktrees =~= config_model(*c).worktrees);
    assert(config_model(r).launchers =~= config_model(*c).launchers);
    r
}

fn projects_from(cfgs: &Vec<ProjectConfig>, d: &SupervisorDirectory) -> (r: Vec<Project>)
    ensures
        project_models(r@) == projects_of(cfgs@, d@),
{
    let ghost want = projects_of(cfgs@, d@);
    let mut out: Vec<Project> = Vec::new();
    let mut i: usize = 0;
    while i < cfgs.len()
        invariant
            i <= cfgs.len(),
            want == projects_of(cfgs@, d@),
            project_models(out@) =~= want.take(i as int),
        decreases cfgs.len() - i,
    {
        let ghost before = out@;
        let sup = d.resolve(&cfgs[i].supervisor);
        out.push(Project::from_config(copy_config(&cfgs[i]), sup));
        assert(project_models(out@) =~= project_models(before).push(want[i as int]));
        assert(want.take(i + 1) =~= want.take(i as int).push(want[i as int]));
        i += 1;
    }
    assert(want.take(want.len() as int) =~= want);
    out
}

/// The state that the program starts with: what the config files say, the
/// supervisors there are, and the cursor on the first project.
pub fn start_state(
    term_size: TermSize,
    config_dir: String,
    log_path: String,
    gh_available: bool,
    global: &GlobalConfig,
    cfgs: &Vec<ProjectConfig>,
    supervisors: SupervisorDirectory,
) -> (r: AppState)
    ensures
        r@ == started(
            term_size,
            config_dir@,
            log_path@,
            gh_available,
            *global,
            cfgs@,
            supervisors@,
        ),
        r@.consistent(),
{
    let mut state = AppState::new();
    state.projects = projects_from(cfgs, &supervisors);
    if state.projects.len() > 0 {
        state.sidebar_selection = Some((0, None));
    }
    state.term_size = term_size;
    state.config_dir = config_dir;
    state.log_path = log_path;
    state.gh_available = gh_available;
    state.supervisors = supervisors;
    state.sidebar_width = global.sidebar_width;
    state.theme = Theme::for_kind(global.theme);
    state.global_launchers = launchers_from(&global.launchers);
    state.gh_poll_interval_secs = global.gh_poll_interval_secs;
    state.keybinds_config = global.keybinds.copy();
    state.keymap = load_overlay(&global.keybinds);
    assert(state@.projects == projects_of(cfgs@, supervisors@));
    state
}

// ---------------------------------------------------------------------------
// Resumed sessions
// ---------------------------------------------------------------------------

/// Where the first project with that slug from `from` on stands.
pub open spec fn slug_place(ps: Seq<ProjectModel>, slug: Seq<char>, from: int) -> Option<int>
    decreases ps.len() - from,
{
    if from < 0 || from >= ps.len() {
        None
    } else if ps[from].slug == slug {
        Some(from)
    } else {
        slug_place(ps, slug, from + 1)
    }
}

/// Where the first worktree with that name from `from` on stands.
pub open spec fn name_place(ws: Seq<WorktreeModel>, name: Seq<char>, from: int) -> Option<int>
    decreases ws.len() - from,
{
    if from < 0 || from >= ws.len() {
        None
    } else if ws[from].name == name {
        Some(from)
    } else {
        name_place(ws, name, from + 1)
    }
}

/// The worktree that a slug and a name mean.
pub open spec fn located(m: AppModel, slug: Seq<char>, name: Seq<char>) -> Option<(usize, usize)> {
    match slug_place(m.projects, slug, 0) {
        Some(p) => match name_place(m.projects[p].worktrees, name, 0) {
            Some(w) => Some((p as usize, w as usize)),
            None => None,
        },
        None => None,
    }
}

/// The worktree that a slug and a name mean.
pub fn locate(state: &AppState, slug: &str, wt_name: &str) -> (r: Option<(usize, usize)>)
    ensures
        r == located(state@, slug@, wt_name@),
        r matches Some((p, w)) ==> state@.worktree(p, w) is Some,
{
    let ghost ps = state@.projects;
    let mut p: usize = 0;
    while p < state.projects.len()
        invariant
            p <= state.projects.len(),
            ps == state@.projects,
            slug_place(ps, slug@, 0) == slug_place(ps, slug@, p as int),
        decreases state.projects.len() - p,
    {
        assert(ps[p as int] == state.projects@[p as int]@);
        if text::same(state.projects[p].slug.as_str(), slug) {
            let ws = &state.projects[p].worktrees;
            let ghost wm = ps[p as int].worktrees;
            let mut w: usize = 0;
            while w < ws.len()
                invariant
                    w <= ws.len(),
                    wm == crate::app::worktree_models(ws@),
                    p < ps.len(),
                    ps == state@.projects,
                    wm == ps[p as int].worktrees,
                    slug_place(ps, slug@, 0) == Some(p as int),
                    name_place(wm, wt_name@, 0) == name_place(wm, wt_name@, w as int),
                decreases ws.len() - w,
            {
                assert(wm[w as int] == ws@[w as int]@);
                if text::same(ws[w].name.as_str(), wt_name) {
                    return Some((p, w));
                }
                w += 1;
            }
            return None;
        }
        p += 1;
    }
    None
}

/// The state with a resumed session in the worktree it belongs to; none where
/// there is no such worktree on that supervisor.
pub open spec fn rebound(
    m: AppModel,
    sup: SupervisorId,
    slug: Seq<char>,
    name: Seq<char>,
    id: SessionId,
) -> Option<AppModel> {
    match located(m, slug, name) {
        Some((p, w)) => if m.projects[p as int].supervisor == sup {
            let wt = m.worktree(p, w)->Some_0;
            let m1 = m.with_worktree(
                p,
                w,
                WorktreeModel {
                    sessions: wt.sessions.push(id),
                    active_tab: match wt.active_tab {
                        Some(t) => Some(t),
                        None => Some(wt.sessions.len() as usize),
                    },
                    ..wt
                },
            );
            Some(
                AppModel {
                    sessions: session::with(m.sessions, id),
                    active_worktree: match m.active_worktree {
                        Some(a) => Some(a),
                        None => Some((p, w)),
                    },
                    ..m1
                },
            )
        } else {
            None
        },
        None => None,
    }
}

/// Whether a resumed session belongs to a worktree on that supervisor.
pub fn belongs(state: &AppState, sup: SupervisorId, slug: &str, name: &str) -> (r: bool)
    ensures
        forall|id: SessionId| r == (#[trigger] rebound(state@, sup, slug@, name@, id) is Some),
{
    match locate(state, slug, name) {
        Some((p, _)) => {
            assert(state@.projects[p as int] == state.projects@[p as int]@);
            state.projects[p].supervisor == sup
        },
        None => false,
    }
}

/// Re-binds a resumed session to its worktree's tabs. Where it belongs to no
/// worktree on that supervisor, the state stays as it is and the session is to
/// be killed.
#[verifier::spinoff_prover]
pub fn rebind(state: &mut AppState, sup: SupervisorId, slug: &str, name: &str, id: SessionId) -> (r:
    bool)
    ensures
        match rebound(old(state)@, sup, slug@, name@, id) {
            Some(m) => r && final(state)@ == m,
            None => !r && final(state)@ == old(state)@,
        },
{
    let (p, w) = match locate(state, slug, name) {
        Some(at) => at,
        None => return false,
    };
    assert(state@.projects[p as int] == state.projects@[p as int]@);
    if state.projects[p].supervisor != sup {
        return false;
    }
    let ghost wt = state@.worktree(p, w)->Some_0;
    let tabs: usize = state.projects[p].worktrees[w].sessions.len();
    let front = state.projects[p].worktrees[w].active_tab;
    assert(tabs == wt.sessions.len() && front == wt.active_tab);
    mutate::push_session(state, p, w, id);
    let next = match front {
        Some(t) => Some(t),
        None => Some(tabs),
    };
    proof {
        tabs::lemma_set_twice(
            old(state)@,
            p,
            w,
            WorktreeModel { sessions: wt.sessions.push(id), ..wt },
            WorktreeModel { sessions: wt.sessions.push(id), active_tab: next, ..wt },
        );
    }
    mutate::set_tab(state, p, w, next);
    state.sessions.insert(id);
    if state.active_worktree.is_none() {
        state.active_worktree = Some((p, w));
    }
    true
}

proof fn lemma_slug_place(ps: Seq<ProjectModel>, slug: Seq<char>, from: int)
    ensures
        slug_place(ps, slug, from) matches Some(p) ==> from <= p < ps.len() && ps[p].slug == slug,
    decreases ps.len() - from,
{
    if 0 <= from < ps.len() && ps[from].slug != slug {
        lemma_slug_place(ps, slug, from + 1);
    }
}

proof fn lemma_name_place(ws: Seq<WorktreeModel>, name: Seq<char>, from: int)
    ensures
        name_place(ws, name, from) matches Some(w) ==> from <= w < ws.len() && ws[w].name == name,
    decreases ws.len() - from,
{
    if 0 <= from < ws.len() && ws[from].name != name {
        lemma_name_place(ws, name, from + 1);
    }
}

/// A session that outlived the program comes back to a tab of the worktree that
/// it was opened in, and no other worktree changes.
pub proof fn law_sessions_come_back_to_their_worktree(
    m: AppModel,
    sup: SupervisorId,
    slug: Seq<char>,
    name: Seq<char>,
    id: SessionId,
    p: usize,
    w: usize,
)
    requires
        crate::invariants::in_memory(m),
        located(m, slug, name) == Some((p, w)),
        m.projects[p as int].supervisor == sup,
    ensures
        m.worktree(p, w) is Some,
        rebound(m, sup, slug, name, id) matches Some(n) && {
            &&& n.worktree(p, w) matches Some(wt) && wt.name == name && wt.sessions.last() == id
            &&& n.projects[p as int].slug == slug
            &&& n.sessions.contains(id)
            &&& forall|q: usize, v: usize|
                (q, v) != (p, w) ==> #[trigger] n.worktree(q, v) == m.worktree(q, v)
        },
{
    lemma_slug_place(m.projects, slug, 0);
    lemma_name_place(m.projects[p as int].worktrees, name, 0);
    let n = rebound(m, sup, slug, name, id)->Some_0;
    if !m.sessions.contains(id) {
        assert(m.sessions.push(id)[m.sessions.len() as int] == id);
    }
}

/// The state once a supervisor has come up: the directory is new, and it is said
/// who came.
pub open spec fn announced(m: AppModel, d: DirectoryModel, id: SupervisorId) -> AppModel {
    AppModel {
        supervisors: d,
        command_status: Some("supervisor '"@ + d.name_of(id) + "' connected"@),
        ..m
    }
}

/// Notes a supervisor that has come up; false where it was up already, and
/// nothing changes.
pub fn supervisor_came_up(state: &mut AppState, sups: &mut Supervisors, id: SupervisorId) -> (r:
    bool)
    ensures
        r == !up(old(sups)@, id),
        !r ==> final(sups)@ == old(sups)@ && final(state)@ == old(state)@,
        r ==> final(sups)@ == crate::client::with_connected(old(sups)@, id, true)
            && final(state)@ == announced(old(state)@, directory_of(final(sups)@), id),
{
    if sups.is_connected(id) {
        return false;
    }
    sups.set_client(id);
    let name = sups.name_of(id);
    state.supervisors = sups.directory();
    state.command_status = Some(text::concat3("supervisor '", name.as_str(), "' connected"));
    true
}

/// Notes a remote supervisor whose connection is gone.
pub fn supervisor_went_down(state: &mut AppState, sups: &mut Supervisors, id: SupervisorId)
    ensures
        final(sups)@ == crate::client::with_connected(old(sups)@, id, false),
        final(state)@ == (AppModel { supervisors: directory_of(final(sups)@), ..old(state)@ }),
{
    sups.mark_disconnected(id);
    state.supervisors = sups.directory();
}

// ---------------------------------------------------------------------------
// Polling
// ---------------------------------------------------------------------------

/// The cadence, in seconds, where no config says otherwise.
pub const DEFAULT_POLL_SECS: u64 = 120;

/// When each project's PR statuses were last asked for, by slug, so that it
/// survives index shuffles.
#[derive(Debug)]
pub struct PollTimes {
    entries: Vec<(String, u64)>,
}

/// The time that the last entry for `slug` gives.
pub open spec fn time_at(s: Seq<(String, u64)>, slug: Seq<char>) -> Option<u64>
    decreases s.len(),
{
    if s.len() == 0 {
        None
    } else if s.last().0@ == slug {
        Some(s.last().1)
    } else {
        time_at(s.drop_last(), slug)
    }
}

impl View for PollTimes {
    type V = Map<Seq<char>, u64>;

    closed spec fn view(&self) -> Map<Seq<char>, u64> {
        Map::new(
            |k: Seq<char>| time_at(self.entries@, k) is Some,
            |k: Seq<char>| time_at(self.entries@, k)->Some_0,
        )
    }
}

/// The times of those projects that are still there.
pub open spec fn still_there(times: Map<Seq<char>, u64>, live: Seq<Seq<char>>) -> Map<
    Seq<char>,
    u64,
> {
    Map::new(|k: Seq<char>| times.contains_key(k) && live.contains(k), |k: Seq<char>| times[k])
}

/// How many seconds lie between two polls of a project.
pub open spec fn cadence(m: AppModel, p: ProjectModel) -> u64 {
    match p.gh_poll_interval_secs {
        Some(s) => s,
        None => match m.gh_poll_interval_secs {
            Some(s) => s,
            None => DEFAULT_POLL_SECS,
        },
    }
}

/// Whether a project is due.
pub open spec fn is_due(m: AppModel, p: ProjectModel, times: Map<Seq<char>, u64>, now: u64) -> bool {
    p.github_enabled && (times.contains_key(p.slug) ==> (if now >= times[p.slug] {
        now - times[p.slug]
    } else {
        0
    }) >= cadence(m, p))
}

/// The times once the first `n` projects were looked at: those that are due are
/// polled now. And whether any was.
pub open spec fn polled(m: AppModel, times: Map<Seq<char>, u64>, now: u64, n: nat) -> (
    Map<Seq<char>, u64>,
    bool,
)
    decreases n,
{
    if n == 0 {
        (times, false)
    } else {
        let (t, any) = polled(m, times, now, (n - 1) as nat);
        let p = m.projects[n - 1];
        if is_due(m, p, t, now) {
            (t.insert(p.slug, now), true)
        } else {
            (t, any)
        }
    }
}

impl PollTimes {
    pub fn new() -> (r: PollTimes)
        ensures
            r@ == Map::<Seq<char>, u64>::empty(),
    {
        let r = PollTimes { entries: Vec::new() };
        assert(r@ =~= Map::<Seq<char>, u64>::empty());
        r
    }

    fn get(&self, slug: &str) -> (r: Option<u64>)
        ensures
            r == (if self@.contains_key(slug@) {
                Some(self@[slug@])
            } else {
                None
            }),
    {
        let ghost all = self.entries@;
        let mut n: usize = self.entries.len();
        assert(all.take(n as int) =~= all);
        while n > 0
            invariant
                n <= self.entries.len(),
                all == self.entries@,
                time_at(all, slug@) == time_at(all.take(n as int), slug@),
            decreases n,
        {
            assert(all.take(n as int).last() == all[n - 1]);
            assert(all.take(n as int).drop_last() =~= all.take(n - 1));
            if text::same(self.entries[n - 1].0.as_str(), slug) {
                return Some(self.entries[n - 1].1);
            }
            n -= 1;
        }
        None
    }

    fn put(&mut self, slug: &str, now: u64)
        ensures
            final(self)@ == old(self)@.insert(slug@, now),
    {
        let ghost all = self.entries@;
        let mut kept: Vec<(String, u64)> = Vec::new();
        let mut i: usize = 0;
        while i < self.entries.len()
            invariant
                i <= self.entries.len(),
                all == self.entries@,
                forall|q: Seq<char>|
                    q != slug@ ==> #[trigger] time_at(kept@, q) == time_at(all.take(i as int), q),
            decreases self.entries.len() - i,
        {
            let ghost before = kept@;
            assert(all.take(i + 1).drop_last() =~= all.take(i as int));
            assert(all.take(i + 1).last() == all[i as int]);
            if !text::same(self.entries[i].0.as_str(), slug) {
                let e = (self.entries[i].0.clone(), self.entries[i].1);
                kept.push(e);
                assert(kept@.drop_last() =~= before);
            }
            assert forall|q: Seq<char>| q != slug@ implies #[trigger] time_at(kept@, q) == time_at(
                all.take(i + 1),
                q,
            ) by {
                let was = time_at(before, q);
            }
            i += 1;
        }
        assert(all.take(all.len() as int) =~= all);
        let ghost before = kept@;
        kept.push((text::owned(slug), now));
        assert(kept@.drop_last() =~= before);
        self.entries = kept;
        proof {
            assert forall|q: Seq<char>| #[trigger] time_at(self.entries@, q) == (if q == slug@ {
                Some(now)
            } else {
                time_at(all, q)
            }) by {
                if q != slug@ {
                    let was = time_at(before, q);
                }
            }
        }
        assert(self@ =~= old(self)@.insert(slug@, now));
    }

    fn retain(&mut self, state: &AppState)
        ensures
            final(self)@ == still_there(old(self)@, slugs(state@)),
    {
        let ghost all = self.entries@;
        let ghost live = slugs(state@);
        let mut kept: Vec<(String, u64)> = Vec::new();
        let mut i: usize = 0;
        while i < self.entries.len()
            invariant
                i <= self.entries.len(),
                all == self.entries@,
                live == slugs(state@),
                forall|q: Seq<char>| #[trigger]
                    time_at(kept@, q) == (if live.contains(q) {
                        time_at(all.take(i as int), q)
                    } else {
                        None
                    }),
            decreases self.entries.len() - i,
        {
            let ghost before = kept@;
            assert(all.take(i + 1).drop_last() =~= all.take(i as int));
            assert(all.take(i + 1).last() == all[i as int]);
            if has_slug(state, self.entries[i].0.as_str()) {
                let e = (self.entries[i].0.clone(), self.entries[i].1);
                kept.push(e);
                assert(kept@.drop_last() =~= before);
            }
            assert forall|q: Seq<char>| #[trigger]
                time_at(kept@, q) == (if live.contains(q) {
                    time_at(all.take(i + 1), q)
                } else {
                    None
                }) by {
                let was = time_at(before, q);
            }
            i += 1;
        }
        assert(all.take(all.len() as int) =~= all);
        self.entries = kept;
        assert(self@ =~= still_there(old(self)@, live));
    }

    /// Whether any project is due for a poll, after noting `now` for every
    /// project that is. Projects that are gone are forgotten. Without `gh` none
    /// is ever due.
    pub fn poll_due(&mut self, state: &AppState, now: u64) -> (r: bool)
        ensures
            if state@.gh_available {
                (final(self)@, r) == polled(
                    state@,
                    still_there(old(self)@, slugs(state@)),
                    now,
                    state@.projects.len(),
                )
            } else {
                !r && final(self)@ == old(self)@
            },
    {
        if !state.gh_available {
            return false;
        }
        self.retain(state);
        let ghost start = self@;
        let mut any = false;
        let mut i: usize = 0;
        while i < state.projects.len()
            invariant
                i <= state.projects.len(),
                (self@, any) == polled(state@, start, now, i as nat),
            decreases state.projects.len() - i,
        {
            let p = &state.projects[i];
            assert(state@.projects[i as int] == p@);
            if p.github_enabled {
                let interval: u64 = match p.gh_poll_interval_secs {
                    Some(s) => s,
                    None => match state.gh_poll_interval_secs {
                        Some(s) => s,
                        None => DEFAULT_POLL_SECS,
                    },
                };
                let due = match self.get(p.slug.as_str()) {
                    Some(t) => if now >= t {
                        now - t >= interval
                    } else {
                        interval == 0
                    },
                    None => true,
                };
                if due {
                    self.put(p.slug.as_str(), now);
                    any = true;
                }
            }
            i += 1;
        }
        any
    }
}

fn has_slug(state: &AppState, slug: &str) -> (r: bool)
    ensures
        r == slugs(state@).contains(slug@),
{
    let ghost live = slugs(state@);
    let mut i: usize = 0;
    while i < state.projects.len()
        invariant
            i <= state.projects.len(),
            live == slugs(state@),
            forall|j: int| 0 <= j < i ==> #[trigger] live[j] != slug@,
        decreases state.projects.len() - i,
    {
        assert(live[i as int] == state.projects@[i as int].slug@);
        if text::same(state.projects[i].slug.as_str(), slug) {
            return true;
        }
        i += 1;
    }
    false
}

/// A project that was just polled is not due again until its cadence has
/// passed.
pub proof fn law_polls_keep_their_distance(
    m: AppModel,
    p: ProjectModel,
    times: Map<Seq<char>, u64>,
    then: u64,
    now: u64,
)
    requires
        then <= now,
        now - then < cadence(m, p),
    ensures
        !is_due(m, p, times.insert(p.slug, then), now),
{
}

// ---------------------------------------------------------------------------
// Saving
// ---------------------------------------------------------------------------

/// The remotes of a config on disk, or none.
pub open spec fn disk_remotes(disk: Option<GlobalConfig>) -> Seq<(Seq<char>, Seq<char>)> {
    match disk {
        Some(g) => remote_pairs(g.remotes@),
        None => seq![],
    }
}

/// The single remote of a config on disk, or none.
pub open spec fn disk_remote(disk: Option<GlobalConfig>) -> Option<Seq<char>> {
    match disk {
        Some(g) => match g.remote {
            Some(r) => Some(r.url@),
            None => None,
        },
        None => None,
    }
}

/// The global config that is saved. The remotes are hand-edited config the UI
/// never owns: whatever is on disk is kept, so a save doesn't wipe them.
pub fn global_to_save(state: &AppState, disk: &Option<GlobalConfig>) -> (r: GlobalConfig)
    ensures
        r.sidebar_width == state@.sidebar_width,
        r.theme == state@.theme.kind,
        text::texts(r.projects@) == slugs(state@),
        launchers_of(r.launchers@) == state@.global_launchers,
        r.gh_poll_interval_secs == state@.gh_poll_interval_secs,
        r.keybinds.pairs() == state@.keybinds_config,
        remote_pairs(r.remotes@) == disk_remotes(*disk),
        disk_remote(Some(r)) == disk_remote(*disk),
{
    let mut projects: Vec<String> = Vec::new();
    let ghost live = slugs(state@);
    let mut i: usize = 0;
    while i < state.projects.len()
        invariant
            i <= state.projects.len(),
            live == slugs(state@),
            text::texts(projects@) =~= live.take(i as int),
        decreases state.projects.len() - i,
    {
        let ghost before = projects@;
        assert(live[i as int] == state.projects@[i as int].slug@);
        projects.push(state.projects[i].slug.clone());
        assert(text::texts(projects@) =~= text::texts(before).push(live[i as int]));
        assert(live.take(i + 1) =~= live.take(i as int).push(live[i as int]));
        i += 1;
    }
    assert(live.take(live.len() as int) =~= live);
    let mut launchers: Vec<LauncherConfig> = Vec::new();
    let mut j: usize = 0;
    while j < state.global_launchers.len()
        invariant
            j <= state.global_launchers.len(),
            launchers_of(launchers@) =~= state@.global_launchers.take(j as int),
        decreases state.global_launchers.len() - j,
    {
        let ghost before = launchers@;
        let ghost all = state@.global_launchers;
        let l = &state.global_launchers[j];
        launchers.push(LauncherConfig { name: l.name.clone(), command: l.command.clone() });
        assert(launchers_of(launchers@) =~= launchers_of(before).push(all[j as int]));
        assert(all.take(j + 1) =~= all.take(j as int).push(all[j as int]));
        j += 1;
    }
    assert(launchers_of(launchers@) =~= state@.global_launchers);
    let mut remotes: Vec<(String, RemoteConfig)> = Vec::new();
    let mut remote: Option<RemoteConfig> = None;
    assert(remote_pairs(remotes@) =~= seq![]);
    if let Some(g) = disk {
        let ghost all = remote_pairs(g.remotes@);
        let mut k: usize = 0;
        while k < g.remotes.len()
            invariant
                k <= g.remotes.len(),
                all == remote_pairs(g.remotes@),
                remote_pairs(remotes@) =~= all.take(k as int),
            decreases g.remotes.len() - k,
        {
            let ghost before = remotes@;
            remotes.push(
                (g.remotes[k].0.clone(), RemoteConfig { url: g.remotes[k].1.url.clone() }),
            );
            assert(remote_pairs(remotes@) =~= remote_pairs(before).push(all[k as int]));
            assert(all.take(k + 1) =~= all.take(k as int).push(all[k as int]));
            k += 1;
        }
        assert(all.take(all.len() as int) =~= all);
        if let Some(r) = &g.remote {
            remote = Some(RemoteConfig { url: r.url.clone() });
        }
    }
    GlobalConfig {
        sidebar_width: state.sidebar_width,
        theme: state.theme.kind,
        projects,
        launchers,
        gh_poll_interval_secs: state.gh_poll_interval_secs,
        keybinds: state.keybinds_config.copy(),
        remotes,
        remote,
    }
}

// ---------------------------------------------------------------------------
// Commands
// ---------------------------------------------------------------------------

/// What a command comes to.
#[derive(Debug)]
pub enum Effect {
    Nothing,
    /// The user is told.
    Fail(String),
    Key(SessionId, KeyEvent),
    Mouse(SessionId, MouseEvent),
    Paste(SessionId, String),
    Resize(SessionId, u16, u16),
    Kill(SessionId),
    Clipboard(String),
    Spawn {
        supervisor: SupervisorId,
        rows: u16,
        cols: u16,
        cwd: String,
        dest: (usize, usize),
        initial_command: Option<String>,
        project_slug: String,
        worktree_name: String,
    },
    /// That supervisor is told to end.
    ShutDown(SupervisorId),
    Dial { id: SupervisorId, url: String },
    SubscribeUsage(Vec<SupervisorId>),
    UnsubscribeUsage(Vec<SupervisorId>),
    Open {
        supervisor: SupervisorId,
        path: String,
        setup_script: Option<String>,
        import_existing: bool,
    },
    ListDir { supervisor: SupervisorId, path: Option<String> },
    Import { supervisor: SupervisorId, project_idx: usize, repo_path: String },
    AddWorktree { supervisor: SupervisorId, project_idx: usize, repo_path: String, branch: String },
    RemoveWorktree {
        supervisor: SupervisorId,
        project_idx: usize,
        worktree_idx: usize,
        repo_path: String,
        dest_path: String,
        branch: Option<String>,
    },
    FetchPr {
        supervisor: SupervisorId,
        project_idx: usize,
        repo_path: String,
        worktrees: Vec<(usize, String)>,
    },
    SaveGlobal,
    SaveProject(ProjectConfig),
    CheckForUpdate,
    InstallUpdate { tag: String },
}

/// What is said where a supervisor that is needed is not connected.
pub open spec fn not_connected(s: Seq<crate::client::EntryModel>, sup: SupervisorId) -> Seq<char> {
    "supervisor '"@ + directory_of(s).name_of(sup) + "' is not connected"@
}

/// The supervisor that a project is on, if there is such a project.
pub open spec fn host(m: AppModel, p: usize) -> Option<SupervisorId> {
    if p < m.projects.len() {
        Some(m.projects[p as int].supervisor)
    } else {
        None
    }
}

/// Whether `r` is `wanted` where the supervisor is connected, else the message
/// that it is not.
pub open spec fn sent(
    s: Seq<crate::client::EntryModel>,
    sup: SupervisorId,
    wanted: Effect,
    r: Effect,
) -> bool {
    if up(s, sup) {
        r == wanted
    } else {
        r matches Effect::Fail(msg) && msg@ == not_connected(s, sup)
    }
}

/// Whether `r` is `wanted` where the session is there, else nothing.
pub open spec fn written(m: AppModel, id: SessionId, wanted: Effect, r: Effect) -> bool {
    r == if m.sessions.contains(id) {
        wanted
    } else {
        Effect::Nothing
    }
}

/// Whether `r` is what a command comes to. What a session is written goes
/// nowhere where there is no such session, but a kill is always sent: the
/// session may have left the state before; what needs a supervisor fails where
/// that is not connected; what is about a project that is gone is dropped.
pub open spec fn comes_to(
    cmd: Command,
    m: AppModel,
    s: Seq<crate::client::EntryModel>,
    r: Effect,
) -> bool {
    match cmd {
        Command::WriteKey(id, key) => written(m, id, Effect::Key(id, key), r),
        Command::WriteMouse(id, ev) => written(m, id, Effect::Mouse(id, ev), r),
        Command::WritePaste(id, t) => written(m, id, Effect::Paste(id, t), r),
        Command::ResizePty(id, rows, cols) => written(m, id, Effect::Resize(id, rows, cols), r),
        Command::KillSession(id) => r == Effect::Kill(id),
        Command::SetClipboard(payload) => r == Effect::Clipboard(payload),
        Command::SpawnInWorktree {
            supervisor,
            rows,
            cols,
            cwd,
            dest,
            initial_command,
            project_slug,
            worktree_name,
        } => sent(
            s,
            supervisor,
            Effect::Spawn {
                supervisor,
                rows,
                cols,
                cwd,
                dest,
                initial_command,
                project_slug,
                worktree_name,
            },
            r,
        ),
        Command::RestartSupervisor => r == if up(s, crate::app::local_id()) {
            Effect::ShutDown(crate::app::local_id())
        } else {
            Effect::Nothing
        },
        Command::ReconnectSupervisor(id) => match entry_place(s, id, 0) {
            Some(i) => match s[i].url {
                Some(u) => r matches Effect::Dial { id: x, url } && x == id && url@ == u,
                None => r is Nothing,
            },
            None => r is Nothing,
        },
        Command::SubscribeUsage => r matches Effect::SubscribeUsage(list) && list@ == ups(
            s,
            s.len(),
        ),
        Command::UnsubscribeUsage => r matches Effect::UnsubscribeUsage(list) && list@ == ups(
            s,
            s.len(),
        ),
        Command::OpenProject { supervisor, path, setup_script, import_existing } => sent(
            s,
            supervisor,
            Effect::Open { supervisor, path, setup_script, import_existing },
            r,
        ),
        Command::ListDir { supervisor, path } => sent(
            s,
            supervisor,
            Effect::ListDir { supervisor, path },
            r,
        ),
        Command::ImportWorktrees { project_idx, repo_path } => match host(m, project_idx) {
            Some(supervisor) => sent(
                s,
                supervisor,
                Effect::Import { supervisor, project_idx, repo_path },
                r,
            ),
            None => r is Nothing,
        },
        Command::AddWorktree { project_idx, repo_path, branch } => match host(m, project_idx) {
            Some(supervisor) => sent(
                s,
                supervisor,
                Effect::AddWorktree { supervisor, project_idx, repo_path, branch },
                r,
            ),
            None => r is Nothing,
        },
        Command::RemoveWorktree { project_idx, worktree_idx, repo_path, dest_path, branch } =>
            match host(m, project_idx) {
            Some(supervisor) => sent(
                s,
                supervisor,
                Effect::RemoveWorktree {
                    supervisor,
                    project_idx,
                    worktree_idx,
                    repo_path,
                    dest_path,
                    branch,
                },
                r,
            ),
            None => r is Nothing,
        },
        Command::FetchPrStatuses { project_idx, repo_path, worktrees } => match host(
            m,
            project_idx,
        ) {
            Some(supervisor) => sent(
                s,
                supervisor,
                Effect::FetchPr { supervisor, project_idx, repo_path, worktrees },
                r,
            ),
            None => r is Nothing,
        },
        Command::SaveGlobalConfig => r is SaveGlobal,
        Command::SaveProjectConfig(i) => if i < m.projects.len() {
            r matches Effect::SaveProject(cfg) && config_model(cfg) == config_of(
                m.projects[i as int],
                m.supervisors.config_name(m.projects[i as int].supervisor),
            )
        } else {
            r is Nothing
        },
        Command::CheckForUpdate => r is CheckForUpdate,
        Command::InstallUpdate { tag } => r == Effect::InstallUpdate { tag },
        Command::Shutdown => r is Nothing,
    }
}

/// Closing a tab ends its session: what the key for it asks for, executed on the
/// state that results, is a kill of the session that was in front.
pub proof fn law_closed_tabs_are_killed(
    m: AppModel,
    id: SessionId,
    cmds: Seq<Command>,
    s: Seq<crate::client::EntryModel>,
    r: Effect,
)
    requires
        m.focused_session() == Some(id),
        command_models(cmds) == dispatched(m, BindableAction::CloseTab).1,
        comes_to(cmds[0], dispatched(m, BindableAction::CloseTab).0, s, r),
    ensures
        cmds.len() == 1,
        r == Effect::Kill(id),
{
    reveal(dispatched);
    let models = command_models(cmds);
    assert(models.len() == cmds.len());
    assert(models == seq![CommandModel::KillSession(id)]);
    assert(models[0] == cmds[0]@);
}

/// Removing a worktree ends its sessions: what a confirmed removal asks for first,
/// executed on the state that results, is a kill of each of them.
pub proof fn law_removed_worktrees_sessions_are_killed(
    m: AppModel,
    c: ConfirmModel,
    i: int,
    cmd: Command,
    s: Seq<crate::client::EntryModel>,
    r: Effect,
)
    requires
        m.worktree(c->project_idx, c->worktree_idx) matches Some(wt) && 0 <= i < wt.sessions.len(),
        cmd@ == removal_confirmed(m, c).1[i],
        comes_to(cmd, removal_confirmed(m, c).0, s, r),
    ensures
        r == Effect::Kill(m.worktree(c->project_idx, c->worktree_idx)->Some_0.sessions[i]),
{
}

/// A session whose worktree has gone meanwhile is ended.
pub proof fn law_orphans_are_killed(
    m: AppModel,
    id: SessionId,
    dest: (usize, usize),
    cmds: Seq<Command>,
    s: Seq<crate::client::EntryModel>,
    r: Effect,
)
    requires
        m.worktree(dest.0, dest.1) is None,
        command_models(cmds) == session_spawned(m, id, dest).1,
        comes_to(cmds[0], session_spawned(m, id, dest).0, s, r),
    ensures
        cmds.len() == 1,
        r == Effect::Kill(id),
{
    let models = command_models(cmds);
    assert(models.len() == cmds.len());
    assert(models == seq![CommandModel::KillSession(id)]);
    assert(models[0] == cmds[0]@);
}

fn if_there(state: &AppState, id: SessionId, e: Effect) -> (r: Effect)
    ensures
        written(state@, id, e, r),
{
    if state.sessions.contains(&id) {
        e
    } else {
        Effect::Nothing
    }
}

fn targeted(sups: &Supervisors, sup: SupervisorId, e: Effect) -> (r: Effect)
    ensures
        sent(sups@, sup, e, r),
{
    if sups.is_connected(sup) {
        e
    } else {
        let name = sups.name_of(sup);
        Effect::Fail(text::concat3("supervisor '", name.as_str(), "' is not connected"))
    }
}

fn host_of(state: &AppState, p: usize) -> (r: Option<SupervisorId>)
    ensures
        r == host(state@, p),
{
    if p < state.projects.len() {
        assert(state@.projects[p as int] == state.projects@[p as int]@);
        Some(state.projects[p].supervisor)
    } else {
        None
    }
}

/// What a command about a project comes to.
fn execute_on_project(cmd: Command, state: &AppState, sups: &Supervisors) -> (r: Effect)
    requires
        cmd is ImportWorktrees || cmd is AddWorktree || cmd is RemoveWorktree
            || cmd is FetchPrStatuses || cmd is SaveProjectConfig,
    ensures
        comes_to(cmd, state@, sups@, r),
{
    match cmd {
        Command::ImportWorktrees { project_idx, repo_path } => match host_of(state, project_idx) {
            Some(supervisor) => targeted(
                sups,
                supervisor,
                Effect::Import { supervisor, project_idx, repo_path },
            ),
            None => Effect::Nothing,
        },
        Command::AddWorktree { project_idx, repo_path, branch } => match host_of(
            state,
            project_idx,
        ) {
            Some(supervisor) => targeted(
                sups,
                supervisor,
                Effect::AddWorktree { supervisor, project_idx, repo_path, branch },
            ),
            None => Effect::Nothing,
        },
        Command::RemoveWorktree { project_idx, worktree_idx, repo_path, dest_path, branch } =>
            match host_of(state, project_idx) {
            Some(supervisor) => targeted(
                sups,
                supervisor,
                Effect::RemoveWorktree {
                    supervisor,
                    project_idx,
                    worktree_idx,
                    repo_path,
                    dest_path,
                    branch,
                },
            ),
            None => Effect::Nothing,
        },
        Command::FetchPrStatuses { project_idx, repo_path, worktrees } => match host_of(
            state,
            project_idx,
        ) {
            Some(supervisor) => targeted(
                sups,
                supervisor,
                Effect::FetchPr { supervisor, project_idx, repo_path, worktrees },
            ),
            None => Effect::Nothing,
        },
        Command::SaveProjectConfig(i) => {
            if i < state.projects.len() {
                let p = &state.projects[i];
                assert(state@.projects[i as int] == p@);
                Effect::SaveProject(p.to_config(state.supervisors.config_name(p.supervisor)))
            } else {
                Effect::Nothing
            }
        },
        _ => Effect::Nothing,
    }
}

/// What a command comes to.
#[verifier::spinoff_prover]
pub fn execute(cmd: Command, state: &AppState, sups: &Supervisors) -> (r: Effect)
    ensures
        comes_to(cmd, state@, sups@, r),
{
    match cmd {
        Command::WriteKey(id, key) => if_there(state, id, Effect::Key(id, key)),
        Command::WriteMouse(id, ev) => if_there(state, id, Effect::Mouse(id, ev)),
        Command::WritePaste(id, t) => if_there(state, id, Effect::Paste(id, t)),
        Command::ResizePty(id, rows, cols) => if_there(state, id, Effect::Resize(id, rows, cols)),
        Command::KillSession(id) => Effect::Kill(id),
        Command::SetClipboard(payload) => Effect::Clipboard(payload),
        Command::SpawnInWorktree {
            supervisor,
            rows,
            cols,
            cwd,
            dest,
            initial_command,
            project_slug,
            worktree_name,
        } => targeted(
            sups,
            supervisor,
            Effect::Spawn {
                supervisor,
                rows,
                cols,
                cwd,
                dest,
                initial_command,
                project_slug,
                worktree_name,
            },
        ),
        Command::RestartSupervisor => if sups.is_connected(local()) {
            Effect::ShutDown(local())
        } else {
            Effect::Nothing
        },
        Command::ReconnectSupervisor(id) => match sups.url_of(id) {
            Some(url) => Effect::Dial { id, url },
            None => Effect::Nothing,
        },
        Command::SubscribeUsage => Effect::SubscribeUsage(sups.connected()),
        Command::UnsubscribeUsage => Effect::UnsubscribeUsage(sups.connected()),
        Command::OpenProject { supervisor, path, setup_script, import_existing } => targeted(
            sups,
            supervisor,
            Effect::Open { supervisor, path, setup_script, import_existing },
        ),
        Command::ListDir { supervisor, path } => targeted(
            sups,
            supervisor,
            Effect::ListDir { supervisor, path },
        ),
        Command::SaveGlobalConfig => Effect::SaveGlobal,
        Command::CheckForUpdate => Effect::CheckForUpdate,
        Command::InstallUpdate { tag } => Effect::InstallUpdate { tag },
        Command::Shutdown => Effect::Nothing,
        _ => execute_on_project(cmd, state, sups),
    }
}

/// The escape sequence that hands a clipboard payload to the outer terminal.
pub fn clipboard_sequence(payload: &str) -> (r: String)
    ensures
        r@ == "\x1b]52;"@ + payload@ + "\x07"@,
{
    text::concat3("\x1b]52;", payload, "\x07")
}

} // verus!
