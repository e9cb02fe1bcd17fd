//! Sessions and tabs stay in step: every registered session has exactly one tab.

use crate::app::{Action, AppModel, ProjectModel, WorktreeModel};
use crate::cmdline::command_key;
use crate::cmdtable::CmdSpec;
use crate::commands::command_run;
use crate::editbox::BoxModel;
use crate::event::{KeyEvent, MouseEvent};
use crate::invariants::{
    as_command, brings_sound, in_memory, law_every_step_keeps_the_state_sound,
    lemma_dispatched_command, sound,
};
use crate::keybinds::BindableAction;
use crate::keys::{dispatched, entry_run, key_step, normal_key, palette_key, plain_key, terminal_key};
use crate::lifecycle::{lives_on, merged, project_listed, staying};
use crate::mouse::mouse_step;
use crate::popups::{confirm_key, edit_key, input_key, launch_key, open_key, without_all};
use crate::reducer::step;
use crate::session::{law_insert_keeps_members_distinct, law_remove_takes_out_one, SessionId};
use crate::sidebar::{selection_activated, visible_rows};
use crate::tabs::{all_swept, project_swept, session_left, session_place, tab_closed, tab_switched, Sweep};
use vstd::prelude::*;

verus! {

/// Whether worktree `j` of project `i` has a tab for the session.
pub open spec fn holds(ps: Seq<ProjectModel>, i: int, j: int, id: SessionId) -> bool {
    &&& 0 <= i < ps.len()
    &&& 0 <= j < ps[i].worktrees.len()
    &&& ps[i].worktrees[j].sessions.contains(id)
}

/// Whether some worktree has a tab for the session.
pub open spec fn has_tab(ps: Seq<ProjectModel>, id: SessionId) -> bool {
    exists|i: int, j: int| holds(ps, i, j, id)
}

/// Whether no worktree of a project lists a session twice.
pub open spec fn tabs_differ(p: ProjectModel) -> bool {
    forall|j: int| 0 <= j < p.worktrees.len() ==> (#[trigger] p.worktrees[j]).sessions.no_duplicates()
}

/// The registered sessions are exactly those that the worktrees list, and none is
/// registered or listed twice.
#[verifier::opaque]
pub open spec fn in_step(m: AppModel) -> bool {
    &&& m.sessions.no_duplicates()
    &&& forall|id: SessionId| #[trigger] m.sessions.contains(id) <==> has_tab(m.projects, id)
    &&& forall|i: int, j: int, a: int, b: int, id: SessionId| #[trigger]
        holds(m.projects, i, j, id) && #[trigger] holds(m.projects, a, b, id) ==> i == a && j == b
    &&& forall|i: int| 0 <= i < m.projects.len() ==> tabs_differ(#[trigger] m.projects[i])
}

/// Whether a project comes without sessions.
pub open spec fn without_tabs(p: ProjectModel) -> bool {
    forall|j: int| 0 <= j < p.worktrees.len() ==> (#[trigger] p.worktrees[j]).sessions.len() == 0
}

/// What a step is told is news: a session that was spawned is not registered yet,
/// projects and worktrees that come along have no sessions, and a worktree that
/// was removed has none left.
pub open spec fn is_news(m: AppModel, action: Action) -> bool {
    match action {
        Action::SessionSpawned { session, dest: _ } => !m.sessions.contains(session),
        Action::ProjectOpened { project, import_existing: _ } => without_tabs(project@),
        Action::WorktreeAdded { project_idx: _, worktree } => worktree@.sessions.len() == 0,
        Action::WorktreesImported { project_idx: _, entries } => forall|i: int|
            0 <= i < entries@.len() ==> (#[trigger] entries@[i])@.sessions.len() == 0,
        Action::WorktreeRemoved { project_idx, worktree_idx } => m.worktree(
            project_idx,
            worktree_idx,
        ) matches Some(wt) ==> wt.sessions.len() == 0,
        _ => true,
    }
}

/// The same worktrees are there, with the tabs they had.
spec fn kept(m: AppModel, n: AppModel) -> bool {
    &&& n.sessions == m.sessions
    &&& n.projects.len() == m.projects.len()
    &&& forall|i: int|
        0 <= i < m.projects.len() ==> (#[trigger] n.projects[i]).worktrees.len()
            == m.projects[i].worktrees.len()
    &&& forall|i: int, j: int|
        0 <= i < m.projects.len() && 0 <= j < m.projects[i].worktrees.len() ==> (
        #[trigger] n.projects[i].worktrees[j]).sessions == m.projects[i].worktrees[j].sessions
}

/// The same worktrees are there, without the tabs of the sessions that are gone.
spec fn dropped(m: AppModel, n: AppModel, gone: spec_fn(SessionId) -> bool) -> bool {
    &&& n.sessions.no_duplicates()
    &&& forall|id: SessionId| #[trigger]
        n.sessions.contains(id) <==> m.sessions.contains(id) && !gone(id)
    &&& forall|i: int, j: int, id: SessionId| #[trigger]
        holds(n.projects, i, j, id) <==> holds(m.projects, i, j, id) && !gone(id)
    &&& forall|i: int| 0 <= i < n.projects.len() ==> tabs_differ(#[trigger] n.projects[i])
}

proof fn lemma_dropped(m: AppModel, n: AppModel, gone: spec_fn(SessionId) -> bool)
    requires
        in_step(m),
        dropped(m, n, gone),
    ensures
        in_step(n),
{
    reveal(in_step);
    assert forall|id: SessionId| #[trigger] n.sessions.contains(id) <==> has_tab(
        n.projects,
        id,
    ) by {
        assert(m.sessions.contains(id) <==> has_tab(m.projects, id));
        if n.sessions.contains(id) {
            let (i, j) = choose|i: int, j: int| holds(m.projects, i, j, id);
            assert(holds(n.projects, i, j, id));
        }
        if has_tab(n.projects, id) {
            let (i, j) = choose|i: int, j: int| holds(n.projects, i, j, id);
            assert(holds(m.projects, i, j, id));
        }
    }
    assert forall|i: int, j: int, a: int, b: int, id: SessionId| #[trigger]
        holds(n.projects, i, j, id) && #[trigger] holds(n.projects, a, b, id) implies i == a && j
        == b by {
        assert(holds(m.projects, i, j, id) && holds(m.projects, a, b, id));
    }
}

proof fn lemma_kept(m: AppModel, n: AppModel)
    requires
        in_step(m),
        kept(m, n),
    ensures
        in_step(n),
{
    reveal(in_step);
    let gone = |id: SessionId| false;
    assert forall|i: int, j: int, id: SessionId| #[trigger]
        holds(n.projects, i, j, id) <==> holds(m.projects, i, j, id) && !gone(id) by {
        if 0 <= i < m.projects.len() && 0 <= j < m.projects[i].worktrees.len() {
            assert(n.projects[i].worktrees[j].sessions == m.projects[i].worktrees[j].sessions);
        }
        if 0 <= i < m.projects.len() {
            assert(n.projects[i].worktrees.len() == m.projects[i].worktrees.len());
        }
    }
    assert forall|i: int| 0 <= i < n.projects.len() implies tabs_differ(
        #[trigger] n.projects[i],
    ) by {
        assert(tabs_differ(m.projects[i]));
        assert forall|j: int| 0 <= j < n.projects[i].worktrees.len() implies (
        #[trigger] n.projects[i].worktrees[j]).sessions.no_duplicates() by {
            assert(m.projects[i].worktrees[j].sessions.no_duplicates());
        }
    }
    lemma_dropped(m, n, gone);
}

/// One worktree changed, and what it lost is gone.
proof fn lemma_one_worktree(
    m: AppModel,
    n: AppModel,
    p: usize,
    w: usize,
    wt: WorktreeModel,
    gone: spec_fn(SessionId) -> bool,
)
    requires
        in_step(m),
        m.worktree(p, w) is Some,
        n.projects == m.with_worktree(p, w, wt).projects,
        wt.sessions.no_duplicates(),
        forall|id: SessionId| #[trigger]
            wt.sessions.contains(id) <==> m.worktree(p, w)->Some_0.sessions.contains(id) && !gone(
                id,
            ),
        forall|id: SessionId| #[trigger]
            gone(id) ==> m.worktree(p, w)->Some_0.sessions.contains(id),
        n.sessions.no_duplicates(),
        forall|id: SessionId| #[trigger]
            n.sessions.contains(id) <==> m.sessions.contains(id) && !gone(id),
    ensures
        in_step(n),
{
    reveal(in_step);
    assert forall|i: int, j: int, id: SessionId| #[trigger]
        holds(n.projects, i, j, id) <==> holds(m.projects, i, j, id) && !gone(id) by {
        if gone(id) {
            assert(m.worktree(p, w)->Some_0.sessions.contains(id));
            assert(holds(m.projects, p as int, w as int, id));
            if holds(m.projects, i, j, id) {
                assert(i == p && j == w);
            }
        }
        if 0 <= i < m.projects.len() {
            assert(n.projects[i].worktrees.len() == m.projects[i].worktrees.len());
        }
        if i == p && j == w {
            assert(n.projects[i].worktrees[j] == wt);
            assert(wt.sessions.contains(id) <==> m.worktree(p, w)->Some_0.sessions.contains(id)
                && !gone(id));
        } else if 0 <= i < m.projects.len() && 0 <= j < m.projects[i].worktrees.len() {
            assert(n.projects[i].worktrees[j] == m.projects[i].worktrees[j]);
        }
    }
    assert forall|i: int| 0 <= i < n.projects.len() implies tabs_differ(
        #[trigger] n.projects[i],
    ) by {
        assert(tabs_differ(m.projects[i]));
        assert forall|j: int| 0 <= j < n.projects[i].worktrees.len() implies (
        #[trigger] n.projects[i].worktrees[j]).sessions.no_duplicates() by {
            if !(i == p && j == w) {
                assert(n.projects[i].worktrees[j] == m.projects[i].worktrees[j]);
            }
        }
    }
    lemma_dropped(m, n, gone);
}

proof fn lemma_distinct(m: AppModel)
    requires
        in_step(m),
    ensures
        m.sessions.no_duplicates(),
        forall|i: int| 0 <= i < m.projects.len() ==> tabs_differ(#[trigger] m.projects[i]),
{
    reveal(in_step);
}

proof fn lemma_removed_at(s: Seq<SessionId>, at: int)
    requires
        0 <= at < s.len(),
        s.no_duplicates(),
    ensures
        s.remove(at).no_duplicates(),
        forall|x: SessionId| #[trigger] s.remove(at).contains(x) <==> s.contains(x) && x != s[at],
{
    let r = s.remove(at);
    assert forall|x: SessionId| #[trigger] r.contains(x) <==> s.contains(x) && x != s[at] by {
        if r.contains(x) {
            let k = choose|k: int| 0 <= k < r.len() && r[k] == x;
            assert(s[if k < at {
                k
            } else {
                k + 1
            }] == x);
        }
        if s.contains(x) && x != s[at] {
            let k = choose|k: int| 0 <= k < s.len() && s[k] == x;
            assert(r[if k < at {
                k
            } else {
                k - 1
            }] == x);
        }
    }
}

proof fn lemma_tabs(m: AppModel, forward: bool)
    requires
        in_step(m),
    ensures
        in_step(tab_switched(m, forward)),
        in_step(tab_closed(m).0),
{
    let n = tab_switched(m, forward);
    assert(kept(m, n));
    lemma_kept(m, n);
    match (m.active_worktree, m.focused_session()) {
        (Some((p, w)), Some(id)) => {
            let wt = m.worktree(p, w)->Some_0;
            let at = wt.active_tab->Some_0;
            lemma_distinct(m);
            assert(tabs_differ(m.projects[p as int]));
            lemma_removed_at(wt.sessions, at as int);
            law_remove_takes_out_one(m.sessions, id);
            let sessions = wt.sessions.remove(at as int);
            lemma_one_worktree(
                m,
                tab_closed(m).0,
                p,
                w,
                WorktreeModel {
                    sessions,
                    active_tab: crate::tabs::tab_after_close(at, sessions.len()),
                    ..wt
                },
                |x: SessionId| x == id,
            );
        },
        _ => lemma_kept(m, tab_closed(m).0),
    }
}

proof fn lemma_place(s: Seq<SessionId>, id: SessionId, from: int)
    requires
        0 <= from,
    ensures
        session_place(s, id, from) matches Some(i) ==> from <= i < s.len() && s[i] == id,
        session_place(s, id, from) is None ==> forall|k: int| from <= k < s.len() ==> s[k] != id,
    decreases s.len() - from,
{
    if from < s.len() && s[from] != id {
        lemma_place(s, id, from + 1);
    }
}

proof fn lemma_left(wt: WorktreeModel, id: SessionId)
    requires
        wt.sessions.no_duplicates(),
    ensures
        session_left(wt, id).sessions.no_duplicates(),
        forall|x: SessionId| #[trigger]
            session_left(wt, id).sessions.contains(x) <==> wt.sessions.contains(x) && x != id,
{
    lemma_place(wt.sessions, id, 0);
    match session_place(wt.sessions, id, 0) {
        Some(i) => lemma_removed_at(wt.sessions, i),
        None => {},
    }
}

proof fn lemma_staying(m: AppModel, sup: crate::app::SupervisorId, n: nat)
    requires
        n <= m.sessions.len(),
        m.sessions.no_duplicates(),
    ensures
        staying(m, sup, n).no_duplicates(),
        forall|x: SessionId| #[trigger]
            staying(m, sup, n).contains(x) <==> m.sessions.take(n as int).contains(x) && !lives_on(
                m.projects,
                sup,
                x,
            ),
    decreases n,
{
    let s = staying(m, sup, n);
    if n > 0 {
        let front = staying(m, sup, (n - 1) as nat);
        let last = m.sessions[n - 1];
        lemma_staying(m, sup, (n - 1) as nat);
        assert(m.sessions.take(n as int) =~= m.sessions.take(n - 1).push(last));
        let firsts = m.sessions.take(n - 1);
        assert(!firsts.contains(last) && !front.contains(last)) by {
            if firsts.contains(last) {
                let k = choose|k: int| 0 <= k < firsts.len() && firsts[k] == last;
                assert(m.sessions[k] == last);
            }
        }
        assert forall|x: SessionId| #[trigger] s.contains(x) <==> m.sessions.take(n as int).contains(
            x,
        ) && !lives_on(m.projects, sup, x) by {
            let all = m.sessions.take(n as int);
            if s.contains(x) {
                let k = choose|k: int| 0 <= k < s.len() && s[k] == x;
                if k < front.len() {
                    assert(front[k] == x);
                    assert(front.contains(x));
                    let q = choose|q: int| 0 <= q < firsts.len() && firsts[q] == x;
                    assert(all[q] == x);
                } else {
                    assert(all[n - 1] == x);
                }
            }
            if all.contains(x) && !lives_on(m.projects, sup, x) {
                let q = choose|q: int| 0 <= q < n && all[q] == x;
                if q < n - 1 {
                    assert(firsts[q] == x);
                    assert(front.contains(x));
                    let k = choose|k: int| 0 <= k < front.len() && front[k] == x;
                    assert(s[k] == x);
                } else {
                    assert(s[s.len() - 1] == x);
                }
            }
        }
    }
}

/// Whether a sweep takes the session's tab.
spec fn taken(m: AppModel, what: Sweep, id: SessionId) -> bool {
    match what {
        Sweep::Ended(x) => x == id,
        Sweep::All => true,
        Sweep::On(sup) => lives_on(m.projects, sup, id),
    }
}

proof fn lemma_swept(m: AppModel, n: AppModel, what: Sweep)
    requires
        in_step(m),
        n.projects == all_swept(m, what).projects,
        n.sessions.no_duplicates(),
        forall|id: SessionId| #[trigger]
            n.sessions.contains(id) <==> m.sessions.contains(id) && !taken(m, what, id),
    ensures
        in_step(n),
{
    reveal(in_step);
    let gone = |id: SessionId| taken(m, what, id);
    assert forall|i: int| 0 <= i < n.projects.len() implies tabs_differ(
        #[trigger] n.projects[i],
    ) by {
        assert(tabs_differ(m.projects[i]));
        assert(n.projects[i] == project_swept(what, m.projects[i]));
        assert forall|j: int| 0 <= j < n.projects[i].worktrees.len() implies (
        #[trigger] n.projects[i].worktrees[j]).sessions.no_duplicates() by {
            let wt = m.projects[i].worktrees[j];
            assert(wt.sessions.no_duplicates());
            if let Sweep::Ended(x) = what {
                lemma_left(wt, x);
            }
        }
    }
    assert forall|i: int, j: int, id: SessionId| #[trigger]
        holds(n.projects, i, j, id) <==> holds(m.projects, i, j, id) && !gone(id) by {
        if 0 <= i < m.projects.len() && 0 <= j < m.projects[i].worktrees.len() {
            let p = m.projects[i];
            let wt = p.worktrees[j];
            assert(tabs_differ(p));
            assert(n.projects[i] == project_swept(what, p));
            assert(n.projects[i].worktrees[j] == crate::tabs::swept(what, p.supervisor, wt));
            match what {
                Sweep::Ended(x) => lemma_left(wt, x),
                Sweep::All => {},
                Sweep::On(sup) => {
                    if p.supervisor == sup && wt.sessions.contains(id) {
                        assert(lives_on(m.projects, sup, id));
                    }
                    if lives_on(m.projects, sup, id) && holds(m.projects, i, j, id) {
                        let (a, b) = choose|a: int, b: int|
                            0 <= a < m.projects.len() && m.projects[a].supervisor == sup && 0 <= b
                                < m.projects[a].worktrees.len() && (
                            #[trigger] m.projects[a].worktrees[b]).sessions.contains(id);
                        assert(holds(m.projects, a, b, id));
                    }
                },
            }
        }
    }
    assert(dropped(m, n, gone));
    lemma_dropped(m, n, gone);
}

proof fn lemma_activated(m: AppModel)
    requires
        in_step(m),
    ensures
        in_step(selection_activated(m).0),
{
    let n = selection_activated(m).0;
    assert(kept(m, n));
    lemma_kept(m, n);
}

proof fn lemma_command(m: AppModel, c: CmdSpec, args: Seq<Seq<char>>)
    requires
        in_step(m),
        m.consistent(),
    ensures
        in_step(command_run(m, c, args).0),
{
    let n = command_run(m, c, args).0;
    if c is TabClose {
        lemma_tabs(m, true);
    } else if c is RestartSupervisor {
        lemma_swept(m, n, Sweep::All);
    } else if c is GhEnable || c is GhDisable {
        assert(kept(m, n));
        lemma_kept(m, n);
    } else {
        assert(n.projects == m.projects);
        assert(n.sessions == m.sessions);
        lemma_kept(m, n);
    }
}

proof fn lemma_dispatched_quietly(m: AppModel, action: BindableAction)
    requires
        as_command(action) is None,
        !(action is ActivateSelection || action is PrevTab || action is NextTab),
    ensures
        dispatched(m, action).0.projects == m.projects,
        dispatched(m, action).0.sessions == m.sessions,
{
    reveal(dispatched);
}

proof fn lemma_dispatched_rest(m: AppModel, action: BindableAction)
    requires
        as_command(action) is None,
        in_step(m),
    ensures
        in_step(dispatched(m, action).0),
{
    if action is ActivateSelection {
        lemma_activated(m);
        reveal(dispatched);
    } else if action is PrevTab {
        lemma_tabs(m, false);
        reveal(dispatched);
    } else if action is NextTab {
        lemma_tabs(m, true);
        reveal(dispatched);
    } else {
        lemma_dispatched_quietly(m, action);
        lemma_kept(m, dispatched(m, action).0);
    }
}

proof fn lemma_dispatched(m: AppModel, action: BindableAction)
    requires
        in_step(m),
        m.consistent(),
    ensures
        in_step(dispatched(m, action).0),
{
    match as_command(action) {
        Some(c) => {
            lemma_command(m, c, seq![]);
            lemma_dispatched_command(m, action);
        },
        None => lemma_dispatched_rest(m, action),
    }
}

proof fn lemma_palette_key(m: AppModel, k: KeyEvent)
    requires
        in_step(m),
        m.consistent(),
    ensures
        in_step(palette_key(m, k).0),
{
    reveal(entry_run);
    if m.palette_popup is Some && k.code is Enter {
        let p = m.palette_popup->Some_0;
        let m1 = AppModel { palette_popup: None, ..m };
        lemma_kept(m, m1);
        match crate::keys::chosen(p) {
            Some(run) => match run {
                crate::palette::ExecModel::Action(a) => lemma_dispatched(m1, a),
                crate::palette::ExecModel::Command(name) => {
                    match crate::cmdtable::command_named(name) {
                        Some(c) => lemma_command(m1, c, seq![]),
                        None => lemma_kept(m, palette_key(m, k).0),
                    }
                },
                crate::palette::ExecModel::Prefill(_) => lemma_kept(m, palette_key(m, k).0),
            },
            None => {},
        }
    } else {
        lemma_kept(m, palette_key(m, k).0);
    }
}

proof fn lemma_normal_key(m: AppModel, k: KeyEvent)
    requires
        in_step(m),
        m.consistent(),
    ensures
        in_step(normal_key(m, k).0),
        in_step(terminal_key(m, k).0),
{
    let keys = m.pending_chord.push(crate::keybinds::canonical_of(k.modifiers, k.code));
    match crate::keybinds::meaning_in(m.keys_normal, keys) {
        crate::keybinds::Meaning::Exact(a) => {
            let m1 = AppModel { pending_chord: seq![], ..m };
            lemma_kept(m, m1);
            lemma_dispatched(m1, a);
        },
        _ => lemma_kept(m, normal_key(m, k).0),
    }
    let key = crate::keys::normalised(k);
    let chords = m.pending_chord.push(crate::keybinds::canonical_of(key.modifiers, key.code));
    match crate::keybinds::meaning_in(m.keys_terminal, chords) {
        crate::keybinds::Meaning::Exact(a) => {
            let m1 = AppModel { pending_chord: seq![], pending_terminal_keys: seq![], ..m };
            lemma_kept(m, m1);
            lemma_dispatched(m1, a);
        },
        _ => lemma_kept(m, terminal_key(m, k).0),
    }
}

proof fn lemma_command_key(m: AppModel, k: KeyEvent)
    requires
        in_step(m),
        m.consistent(),
    ensures
        in_step(command_key(m, k).0),
{
    if k.code is Enter && crate::cmdline::accepted(m) is None {
        let m1 = AppModel {
            command: seq![],
            command_completion: None,
            mode: crate::app::Mode::Normal,
            ..m
        };
        lemma_kept(m, m1);
        let line = crate::text::trimmed(m.command);
        let w = crate::text::words(line);
        if w.len() > 0 {
            match crate::cmdtable::command_named(w[0]) {
                Some(c) => lemma_command(m1, c, w.skip(1)),
                None => lemma_kept(m, command_key(m, k).0),
            }
        }
    } else {
        lemma_kept(m, command_key(m, k).0);
    }
}

proof fn lemma_without_all(s: Seq<SessionId>, ids: Seq<SessionId>)
    requires
        s.no_duplicates(),
    ensures
        without_all(s, ids).no_duplicates(),
        forall|x: SessionId| #[trigger]
            without_all(s, ids).contains(x) <==> s.contains(x) && !ids.contains(x),
    decreases ids.len(),
{
    if ids.len() > 0 {
        let front = ids.drop_last();
        lemma_without_all(s, front);
        law_remove_takes_out_one(without_all(s, front), ids.last());
        assert forall|x: SessionId| #[trigger] without_all(s, ids).contains(x) <==> s.contains(x)
            && !ids.contains(x) by {
            assert(ids =~= front.push(ids.last()));
            if ids.contains(x) {
                let k = choose|k: int| 0 <= k < ids.len() && ids[k] == x;
                if k < front.len() {
                    assert(front[k] == x);
                    assert(front.contains(x));
                }
            }
            if front.contains(x) {
                let k = choose|k: int| 0 <= k < front.len() && front[k] == x;
                assert(ids[k] == x);
            }
            assert(without_all(s, front).contains(x) <==> s.contains(x) && !front.contains(x));
            assert(ids[ids.len() - 1] == ids.last());
        }
    }
}

proof fn lemma_confirm_key(m: AppModel, k: KeyEvent)
    requires
        in_step(m),
    ensures
        in_step(confirm_key(m, k).0),
{
    let n = confirm_key(m, k).0;
    match m.pending_confirm {
        Some(crate::app::ConfirmModel::RemoveWorktree { project_idx: p, worktree_idx: w, .. }) => {
            match m.worktree(p, w) {
                Some(wt) => {
                    let e = crate::tabs::emptied(wt);
                    if n.projects == m.with_worktree(p, w, e).projects && n.sessions
                        == without_all(m.sessions, wt.sessions) {
                        lemma_distinct(m);
                        lemma_without_all(m.sessions, wt.sessions);
                        lemma_one_worktree(m, n, p, w, e, |x: SessionId| wt.sessions.contains(x));
                    } else {
                        lemma_kept(m, n);
                    }
                },
                None => lemma_kept(m, n),
            }
        },
        None => lemma_kept(m, n),
    }
}

proof fn lemma_plain_key(m: AppModel, k: KeyEvent)
    requires
        in_step(m),
        m.consistent(),
    ensures
        in_step(plain_key(m, k).0),
{
    if m.popup is Some {
        lemma_kept(m, input_key(m, k).0);
    } else {
        lemma_confirm_key(m, k);
        lemma_normal_key(m, k);
        lemma_command_key(m, k);
    }
}

#[verifier::spinoff_prover]
proof fn lemma_key(m: AppModel, k: KeyEvent, typed: BoxModel)
    requires
        in_step(m),
        m.consistent(),
    ensures
        in_step(key_step(m, k, typed).0),
{
    let n = key_step(m, k, typed).0;
    if m.usage_popup is Some {
        lemma_kept(m, n);
    } else if m.edit_popup is Some {
        assert(kept(m, edit_key(m, k, typed).0));
        lemma_kept(m, n);
    } else if m.open_project_popup is Some {
        assert(kept(m, open_key(m, k, typed).0));
        lemma_kept(m, n);
    } else if m.launch_popup is Some {
        assert(kept(m, launch_key(m, k).0));
        lemma_kept(m, n);
    } else if m.palette_popup is Some {
        lemma_palette_key(m, k);
    } else {
        let closed = crate::keys::help_closed(m);
        lemma_kept(m, closed);
        lemma_plain_key(m, k);
        lemma_plain_key(closed, k);
        match crate::keys::help_key(m, k.code) {
            Some(h) => lemma_kept(m, h),
            None => {},
        }
    }
}

#[verifier::spinoff_prover]
proof fn lemma_mouse(m: AppModel, e: MouseEvent)
    requires
        in_step(m),
    ensures
        in_step(mouse_step(m, e).0),
{
    let n = mouse_step(m, e).0;
    let m1 = AppModel { ui_focus: crate::app::UiFocus::Sidebar, ..m };
    let rows = visible_rows(m.projects);
    let at = crate::mouse::row_under(m, e.row);
    if 0 <= at < rows.len() {
        let m2 = AppModel {
            sidebar_selection: Some(crate::sidebar::selection_of(rows[at])),
            ..m1
        };
        lemma_kept(m, m2);
        lemma_activated(m2);
        if n != selection_activated(m2).0 {
            assert(kept(m, n));
            lemma_kept(m, n);
        }
    } else {
        assert(kept(m, n));
        lemma_kept(m, n);
    }
}

proof fn lemma_spawned(m: AppModel, n: AppModel, p: usize, w: usize, wt: WorktreeModel, id: SessionId)
    requires
        in_step(m),
        !m.sessions.contains(id),
        m.worktree(p, w) is Some,
        wt.sessions == m.worktree(p, w)->Some_0.sessions.push(id),
        n.projects == m.with_worktree(p, w, wt).projects,
        n.sessions == crate::session::with(m.sessions, id),
    ensures
        in_step(n),
{
    reveal(in_step);
    let old = m.worktree(p, w)->Some_0;
    law_insert_keeps_members_distinct(m.sessions, id);
    assert(!has_tab(m.projects, id));
    assert forall|x: SessionId| #[trigger] wt.sessions.contains(x) <==> old.sessions.contains(x)
        || x == id by {
        if old.sessions.contains(x) {
            let k = choose|k: int| 0 <= k < old.sessions.len() && old.sessions[k] == x;
            assert(wt.sessions[k] == x);
        }
        assert(wt.sessions[old.sessions.len() as int] == id);
    }
    assert forall|i: int, j: int, x: SessionId| #[trigger]
        holds(n.projects, i, j, x) <==> holds(m.projects, i, j, x) || (x == id && i == p && j
        == w) by {
        if i == p && j == w {
            assert(n.projects[i].worktrees[j] == wt);
        } else if 0 <= i < m.projects.len() && 0 <= j < m.projects[i].worktrees.len() {
            assert(n.projects[i].worktrees[j] == m.projects[i].worktrees[j]);
        }
    }
    assert forall|x: SessionId| #[trigger] n.sessions.contains(x) <==> has_tab(n.projects, x) by {
        assert(m.sessions.contains(x) <==> has_tab(m.projects, x));
        if m.sessions.contains(x) {
            let k = choose|k: int| 0 <= k < m.sessions.len() && m.sessions[k] == x;
            assert(n.sessions[k] == x);
            let (i, j) = choose|i: int, j: int| holds(m.projects, i, j, x);
            assert(holds(n.projects, i, j, x));
        }
        if x == id {
            assert(holds(n.projects, p as int, w as int, id));
        }
        if has_tab(n.projects, x) && x != id {
            let (i, j) = choose|i: int, j: int| holds(n.projects, i, j, x);
            assert(holds(m.projects, i, j, x));
        }
    }
    assert forall|i: int, j: int, a: int, b: int, x: SessionId| #[trigger]
        holds(n.projects, i, j, x) && #[trigger] holds(n.projects, a, b, x) implies i == a && j
        == b by {
        if x == id {
            assert(!holds(m.projects, i, j, x) && !holds(m.projects, a, b, x));
        } else {
            assert(holds(m.projects, i, j, x) && holds(m.projects, a, b, x));
        }
    }
    assert forall|i: int| 0 <= i < n.projects.len() implies tabs_differ(
        #[trigger] n.projects[i],
    ) by {
        assert(tabs_differ(m.projects[i]));
        assert forall|j: int| 0 <= j < n.projects[i].worktrees.len() implies (
        #[trigger] n.projects[i].worktrees[j]).sessions.no_duplicates() by {
            if i == p && j == w {
                assert(old.sessions.no_duplicates());
                assert(!old.sessions.contains(id)) by {
                    if old.sessions.contains(id) {
                        assert(holds(m.projects, i, j, id));
                    }
                }
            } else {
                assert(n.projects[i].worktrees[j] == m.projects[i].worktrees[j]);
            }
        }
    }
}

/// One project changed: each of its worktrees that has tabs is one that it had,
/// and none with tabs is gone.
proof fn lemma_one_project(
    m: AppModel,
    n: AppModel,
    p: int,
    from: spec_fn(int) -> int,
    to: spec_fn(int) -> int,
)
    requires
        in_step(m),
        0 <= p < m.projects.len() == n.projects.len(),
        n.sessions == m.sessions,
        forall|i: int| 0 <= i < m.projects.len() && i != p ==> #[trigger] n.projects[i] == m.projects[i],
        forall|j: int|
            0 <= j < n.projects[p].worktrees.len() && (
            #[trigger] n.projects[p].worktrees[j]).sessions.len() > 0 ==> 0 <= from(j)
                < m.projects[p].worktrees.len() && m.projects[p].worktrees[from(j)].sessions
                == n.projects[p].worktrees[j].sessions && to(from(j)) == j,
        forall|j: int|
            0 <= j < m.projects[p].worktrees.len() && (
            #[trigger] m.projects[p].worktrees[j]).sessions.len() > 0 ==> 0 <= to(j)
                < n.projects[p].worktrees.len() && n.projects[p].worktrees[to(j)].sessions
                == m.projects[p].worktrees[j].sessions,
    ensures
        in_step(n),
{
    reveal(in_step);
    assert forall|i: int, j: int, x: SessionId| #[trigger] holds(n.projects, i, j, x) implies holds(
        m.projects,
        i,
        if i == p {
            from(j)
        } else {
            j
        },
        x,
    ) by {
        if i == p {
            assert(n.projects[p].worktrees[j].sessions.len() > 0);
        } else {
            assert(n.projects[i] == m.projects[i]);
        }
    }
    assert forall|i: int, j: int, x: SessionId| #[trigger] holds(m.projects, i, j, x) implies holds(
        n.projects,
        i,
        if i == p {
            to(j)
        } else {
            j
        },
        x,
    ) by {
        if i == p {
            assert(m.projects[p].worktrees[j].sessions.len() > 0);
        } else {
            assert(n.projects[i] == m.projects[i]);
        }
    }
    assert forall|x: SessionId| #[trigger] n.sessions.contains(x) <==> has_tab(n.projects, x) by {
        assert(m.sessions.contains(x) <==> has_tab(m.projects, x));
        if has_tab(m.projects, x) {
            let (i, j) = choose|i: int, j: int| holds(m.projects, i, j, x);
            assert(holds(n.projects, i, if i == p { to(j) } else { j }, x));
        }
        if has_tab(n.projects, x) {
            let (i, j) = choose|i: int, j: int| holds(n.projects, i, j, x);
            assert(holds(m.projects, i, if i == p { from(j) } else { j }, x));
        }
    }
    assert forall|i: int, j: int, a: int, b: int, x: SessionId| #[trigger]
        holds(n.projects, i, j, x) && #[trigger] holds(n.projects, a, b, x) implies i == a && j
        == b by {
        assert(holds(m.projects, i, if i == p { from(j) } else { j }, x));
        assert(holds(m.projects, a, if a == p { from(b) } else { b }, x));
        if i == p {
            assert(n.projects[p].worktrees[j].sessions.len() > 0);
            assert(n.projects[p].worktrees[b].sessions.len() > 0);
        }
    }
    assert forall|i: int| 0 <= i < n.projects.len() implies tabs_differ(
        #[trigger] n.projects[i],
    ) by {
        assert(tabs_differ(m.projects[i]));
        if i == p {
            assert forall|j: int| 0 <= j < n.projects[p].worktrees.len() implies (
            #[trigger] n.projects[p].worktrees[j]).sessions.no_duplicates() by {
                if n.projects[p].worktrees[j].sessions.len() > 0 {
                    assert(m.projects[p].worktrees[from(j)].sessions.no_duplicates());
                }
            }
        }
    }
}

proof fn lemma_merged(list: Seq<WorktreeModel>, entries: Seq<crate::app::Worktree>, n: nat)
    requires
        n <= entries.len(),
        forall|i: int| 0 <= i < entries.len() ==> (#[trigger] entries[i])@.sessions.len() == 0,
    ensures
        merged(list, entries, n).len() >= list.len(),
        forall|j: int| 0 <= j < list.len() ==> #[trigger] merged(list, entries, n)[j] == list[j],
        forall|j: int|
            list.len() <= j < merged(list, entries, n).len() ==> (
            #[trigger] merged(list, entries, n)[j]).sessions.len() == 0,
    decreases n,
{
    if n > 0 {
        lemma_merged(list, entries, (n - 1) as nat);
        let before = merged(list, entries, (n - 1) as nat);
        let all = merged(list, entries, n);
        assert(entries[n - 1]@.sessions.len() == 0);
        assert forall|j: int| 0 <= j < list.len() implies #[trigger] all[j] == list[j] by {
            assert(before[j] == list[j]);
        }
        assert forall|j: int| list.len() <= j < all.len() implies (
        #[trigger] all[j]).sessions.len() == 0 by {
            if j < before.len() {
                assert(all[j] == before[j]);
            }
        }
    }
}

proof fn lemma_worktrees_come_and_go(m: AppModel, action: Action, typed: BoxModel)
    requires
        in_step(m),
        is_news(m, action),
        action is WorktreeAdded || action is WorktreeRemoved || action is WorktreesImported,
    ensures
        in_step(step(m, action, typed).0),
{
    let n = step(m, action, typed).0;
    let same = |j: int| j;
    match action {
        Action::WorktreeAdded { project_idx: p, worktree } => {
            if p < m.projects.len() {
                lemma_one_project(m, n, p as int, same, same);
            } else {
                lemma_kept(m, n);
            }
        },
        Action::WorktreeRemoved { project_idx: p, worktree_idx: w } => {
            if m.worktree(p, w) is Some {
                let ws = m.projects[p as int].worktrees;
                let from = |j: int| if j < w {
                    j
                } else {
                    j + 1
                };
                let to = |j: int| if j < w {
                    j
                } else {
                    j - 1
                };
                assert(n.projects[p as int].worktrees == ws.remove(w as int));
                assert forall|j: int|
                    0 <= j < ws.len() && (#[trigger] ws[j]).sessions.len() > 0 implies 0 <= to(j)
                    < n.projects[p as int].worktrees.len()
                    && n.projects[p as int].worktrees[to(j)].sessions == ws[j].sessions by {
                    assert(j != w);
                }
                lemma_one_project(m, n, p as int, from, to);
            } else {
                lemma_kept(m, n);
            }
        },
        Action::WorktreesImported { project_idx: p, entries } => {
            if p < m.projects.len() {
                lemma_merged(m.projects[p as int].worktrees, entries@, entries@.len());
                lemma_one_project(m, n, p as int, same, same);
            } else {
                lemma_kept(m, n);
            }
        },
        _ => {},
    }
}

proof fn lemma_listed(m: AppModel, project: ProjectModel, import: bool)
    requires
        in_step(m),
        without_tabs(project),
    ensures
        in_step(project_listed(m, project, import).0),
{
    reveal(in_step);
    let n = project_listed(m, project, import).0;
    let gone = |id: SessionId| false;
    assert forall|i: int, j: int, id: SessionId| #[trigger]
        holds(n.projects, i, j, id) <==> holds(m.projects, i, j, id) && !gone(id) by {
        if i == m.projects.len() && 0 <= j < project.worktrees.len() {
            assert(project.worktrees[j].sessions.len() == 0);
        }
    }
    assert forall|i: int| 0 <= i < n.projects.len() implies tabs_differ(
        #[trigger] n.projects[i],
    ) by {
        if i < m.projects.len() {
            assert(tabs_differ(m.projects[i]));
        } else {
            assert forall|j: int| 0 <= j < project.worktrees.len() implies (
            #[trigger] project.worktrees[j]).sessions.no_duplicates() by {
                assert(project.worktrees[j].sessions.len() == 0);
            }
        }
    }
    lemma_dropped(m, n, gone);
}

proof fn lemma_sessions_come_and_go(m: AppModel, action: Action, typed: BoxModel)
    requires
        in_step(m),
        is_news(m, action),
        action is SessionSpawned || action is SessionExited || action is SupervisorLost,
    ensures
        in_step(step(m, action, typed).0),
{
    let n = step(m, action, typed).0;
    lemma_distinct(m);
    match action {
        Action::SessionSpawned { session, dest } => {
            match m.worktree(dest.0, dest.1) {
                Some(wt) => lemma_spawned(
                    m,
                    n,
                    dest.0,
                    dest.1,
                    WorktreeModel {
                        sessions: wt.sessions.push(session),
                        active_tab: Some(wt.sessions.len() as usize),
                        ..wt
                    },
                    session,
                ),
                None => lemma_kept(m, n),
            }
        },
        Action::SessionExited(id) => {
            law_remove_takes_out_one(m.sessions, id);
            lemma_swept(m, n, Sweep::Ended(id));
        },
        Action::SupervisorLost(sup, reason) => {
            if sup == crate::app::local_id() {
                lemma_swept(m, n, Sweep::All);
            } else {
                lemma_staying(m, sup, m.sessions.len());
                assert(m.sessions.take(m.sessions.len() as int) =~= m.sessions);
                lemma_swept(m, n, Sweep::On(sup));
            }
        },
        _ => {},
    }
}

/// Whatever happens to a state whose sessions and tabs are in step, they stay in
/// step: the registered sessions are exactly those that the worktrees list, none
/// of them twice.
#[verifier::spinoff_prover]
#[verifier::rlimit(60)]
pub proof fn law_every_step_keeps_sessions_and_tabs_in_step(
    m: AppModel,
    action: Action,
    typed: BoxModel,
)
    requires
        in_step(m),
        action is Key ==> m.consistent(),
        is_news(m, action),
    ensures
        in_step(step(m, action, typed).0),
{
    let n = step(m, action, typed).0;
    match action {
        Action::SessionSpawned { .. }
        | Action::SessionExited(_)
        | Action::SupervisorLost(_, _) => lemma_sessions_come_and_go(m, action, typed),
        Action::Key(k) => lemma_key(m, k, typed),
        Action::Mouse(e) => lemma_mouse(m, e),
        Action::ProjectValidated {
            supervisor,
            canonical_path,
            repo_name,
            head_branch,
            setup_script,
            import_existing,
        } => {
            let project = crate::app::project_of(
                crate::lifecycle::opened_config(
                    m,
                    supervisor,
                    canonical_path@,
                    repo_name@,
                    crate::app::opt_view(head_branch),
                    crate::app::opt_view(setup_script),
                ),
                supervisor,
            );
            lemma_listed(m, project, import_existing);
        },
        Action::ProjectOpened { project, import_existing } => lemma_listed(
            m,
            project@,
            import_existing,
        ),
        Action::WorktreeAdded { .. }
        | Action::WorktreeRemoved { .. }
        | Action::WorktreesImported { .. } => lemma_worktrees_come_and_go(m, action, typed),
        _ => lemma_kept(m, n),
    }
}

/// What the program relies on holds after every step if it held before: the state
/// is sound, and sessions and tabs are in step.
pub proof fn law_every_step_keeps_the_state_in_order(m: AppModel, action: Action, typed: BoxModel)
    requires
        sound(m),
        in_step(m),
        in_memory(m),
        brings_sound(action),
        is_news(m, action),
    ensures
        sound(step(m, action, typed).0),
        in_step(step(m, action, typed).0),
{
    law_every_step_keeps_the_state_sound(m, action, typed);
    law_every_step_keeps_sessions_and_tabs_in_step(m, action, typed);
}

/// The state that the program starts with is sound and has its sessions and tabs in
/// step.
pub proof fn law_the_first_state_is_in_order(
    term_size: crate::layout::TermSize,
    config_dir: Seq<char>,
    log_path: Seq<char>,
    gh_available: bool,
    global: crate::config::GlobalConfig,
    cfgs: Seq<crate::config::ProjectConfig>,
    d: crate::app::DirectoryModel,
)
    ensures
        sound(
            crate::runtime::started(
                term_size,
                config_dir,
                log_path,
                gh_available,
                global,
                cfgs,
                d,
            ),
        ),
        in_step(
            crate::runtime::started(
                term_size,
                config_dir,
                log_path,
                gh_available,
                global,
                cfgs,
                d,
            ),
        ),
{
    reveal(in_step);
    let m = crate::runtime::started(
        term_size,
        config_dir,
        log_path,
        gh_available,
        global,
        cfgs,
        d,
    );
    assert forall|i: int, j: int, id: SessionId| !#[trigger] holds(m.projects, i, j, id) by {
        if 0 <= i < m.projects.len() && 0 <= j < m.projects[i].worktrees.len() {
            assert(m.projects[i].worktrees[j].sessions.len() == 0);
        }
    }
    assert forall|i: int| 0 <= i < m.projects.len() implies tabs_differ(
        #[trigger] m.projects[i],
    ) by {
        assert forall|j: int| 0 <= j < m.projects[i].worktrees.len() implies (
        #[trigger] m.projects[i].worktrees[j]).sessions.no_duplicates() by {
            assert(m.projects[i].worktrees[j].sessions.len() == 0);
        }
    }
}

/// A session that comes back to a worktree keeps sessions and tabs in step.
pub proof fn law_resumed_sessions_stay_in_step(
    m: AppModel,
    sup: crate::app::SupervisorId,
    slug: Seq<char>,
    name: Seq<char>,
    id: SessionId,
    n: AppModel,
)
    requires
        in_step(m),
        in_memory(m),
        !m.sessions.contains(id),
        crate::runtime::rebound(m, sup, slug, name, id) == Some(n),
    ensures
        in_step(n),
{
    let (p, w) = crate::runtime::located(m, slug, name)->Some_0;
    crate::runtime::law_sessions_come_back_to_their_worktree(m, sup, slug, name, id, p, w);
    let wt = m.worktree(p, w)->Some_0;
    lemma_spawned(
        m,
        n,
        p,
        w,
        WorktreeModel {
            sessions: wt.sessions.push(id),
            active_tab: match wt.active_tab {
                Some(t) => Some(t),
                None => Some(wt.sessions.len() as usize),
            },
            ..wt
        },
        id,
    );
}

} // verus!
