//! What passes between client and supervisors, and what each side keeps.

use crate::app::{Action, AppModel, Command, PrStatus, ProjectModel, SupervisorId, WorktreeModel};
use crate::client::{
    add_work, directory_of, entry_worktree, import_work, link_after, list_work, message_means, op_asked, op_means, open_work,
    pr_work, remotes_down, remove_work, seeded, up, ups, EntryModel, LinkModel, PendingOp,
    Received,
};
use crate::config::{pinned, remotes_in_effect, trust_entry, RemoteConfig, TrustEntry};
use crate::ipc::{
    rss_of, rss_of_all, ClientMsg, OpOk, OpRequest, OpResult, ProcessNode, RepoInfo,
    SessionMeta, SupervisorMsg, UsageReport, WorktreeEntry,
};
use crate::runtime::{comes_to, is_due, polled, rebound, Effect};
use crate::screen::{drawn, mode_sequences, modes};
use crate::supervisor::{
    after_message, asked, attached, detached, dumped, logged, meta_place, typed_in, Deed,
    LogModel, RegistryModel,
};
use crate::text;
use crate::transport::{fingerprint, hex, host_port, key_info_in, sha256_of, HostPortError};
use crate::updater::{
    described_tag, higher, member_of, protocol_differs, string_in, tag_version, ReleaseError,
};
use vstd::prelude::*;
use vstd::utf8::encode_utf8;
use vt100::Screen;

verus! {

// ---------------------------------------------------------------------------
// The client's end
// ---------------------------------------------------------------------------

/// Output goes to the session that the supervisor's number stands for, as it is,
/// whether it is a dump or a delta, and to none where the number stands for none.
pub proof fn law_output_goes_to_its_session(
    m: LinkModel,
    id: u64,
    bytes: Vec<u8>,
    fresh: u64,
    r: Received,
)
    ensures
        message_means(m, SupervisorMsg::OutputDelta { id, bytes }, fresh, r) || message_means(
            m,
            SupervisorMsg::OutputDump { id, bytes },
            fresh,
            r,
        ) ==> match r {
            Received::Output { session, bytes: b } => m.sessions.dom().contains(id) && session
                == m.sessions[id] && b == bytes,
            Received::Nothing => !m.sessions.dom().contains(id),
            _ => false,
        },
        link_after(m, SupervisorMsg::OutputDelta { id, bytes }, fresh) == m,
{
}

/// A session that was asked for opens in the worktree and size it was asked for
/// with, under a number of the client's own; that number then stands for it.
pub proof fn law_spawned_sessions_go_where_they_were_asked_for(
    m: LinkModel,
    request_id: u64,
    id: u64,
    fresh: u64,
    r: Received,
)
    requires
        m.spawns.dom().contains(request_id),
        message_means(m, SupervisorMsg::Spawned { request_id, id }, fresh, r),
    ensures
        ({
            let p = m.spawns[request_id];
            let after = link_after(m, SupervisorMsg::Spawned { request_id, id }, fresh);
            &&& r matches Received::Opened { wire, rows, cols, action } && wire == id && rows
                == p.rows && cols == p.cols && action == (Action::SessionSpawned {
                session: fresh,
                dest: p.dest,
            })
            &&& after.sessions[id] == fresh && after.sessions.dom().contains(id)
            &&& !after.spawns.dom().contains(request_id)
            &&& forall|other: u64|
                other != id ==> (#[trigger] after.sessions.dom().contains(other)
                    <==> m.sessions.dom().contains(other))
        }),
{
}

/// A session that exited is told by the client's own number and forgotten.
pub proof fn law_exits_are_told_by_the_clients_number(m: LinkModel, id: u64, fresh: u64, r: Received)
    requires
        m.sessions.dom().contains(id),
        message_means(m, SupervisorMsg::Exited { id }, fresh, r),
    ensures
        r matches Received::Ended { wire, action } && wire == id && action
            == Action::SessionExited(m.sessions[id]),
        !link_after(m, SupervisorMsg::Exited { id }, fresh).sessions.dom().contains(id),
{
}

/// Being detached ends the connection, and reports arrive under the supervisor that
/// the connection is to.
pub proof fn law_messages_are_told_under_their_supervisor(
    m: LinkModel,
    reason: String,
    report: UsageReport,
    fresh: u64,
    r: Received,
)
    ensures
        message_means(m, SupervisorMsg::Detached { reason }, fresh, r) ==> r == Received::Closed(
            Action::SupervisorLost(m.supervisor, reason),
        ),
        message_means(m, SupervisorMsg::Usage(report), fresh, r) ==> r == Received::Post(
            Action::UsageReceived(m.supervisor, report),
        ),
{
}

/// Work that failed is told with the reason, and work that succeeded means what was
/// asked for; a result of another kind means nothing.
pub proof fn law_results_mean_what_was_asked_for(
    p: PendingOp,
    result: OpResult,
    r: Option<Action>,
)
    requires
        op_means(p, result, r),
    ensures
        result matches Err(e) ==> r is Some && (p matches PendingOp::FetchPr { project_idx } ==> r
            == Some(Action::PrFetchFailed { project_idx, message: e })) && (
        !(p is FetchPr) ==> (r matches Some(Action::OperationFailed(msg)) && msg@.len()
            >= e@.len() && msg@.skip(msg@.len() - e@.len()) == e@)),
        p matches PendingOp::RemoveWorktree { project_idx, worktree_idx } ==> (
        result matches Ok(OpOk::WorktreeRemoved) ==> r == Some(
            Action::WorktreeRemoved { project_idx, worktree_idx },
        )),
        p matches PendingOp::AddWorktree { project_idx } ==> (
        result matches Ok(OpOk::WorktreeAdded(e)) ==> (r matches Some(
            Action::WorktreeAdded { project_idx: q, worktree },
        ) && q == project_idx && worktree@.path == e.path@ && worktree@.branch == text::opt_text(
            e.branch,
        ) && worktree@.sessions.len() == 0 && (e.branch matches Some(b) ==> worktree@.name
            == b@))),
        p matches PendingOp::OpenProject { supervisor, setup_script, import_existing } ==> (
        result matches Ok(OpOk::Validated(info)) ==> r == Some(
            Action::ProjectValidated {
                supervisor,
                canonical_path: info.canonical_path,
                repo_name: info.repo_name,
                head_branch: info.head_branch,
                setup_script,
                import_existing,
            },
        )),
        p matches PendingOp::FetchPr { project_idx } ==> (
        result matches Ok(OpOk::PrStatuses(statuses)) ==> r == Some(
            Action::PrStatusesFetched { project_idx, statuses },
        )),
        p is ListDir ==> (result matches Ok(OpOk::DirListing { dir, parent, entries }) ==> r
            == Some(Action::DirListed { dir, parent, entries })),
{
    if let Err(e) = result {
        if !(p is FetchPr) {
            let msg = r->Some_0->OperationFailed_0@;
            assert(msg.skip(msg.len() - e@.len()) =~= e@);
        }
    }
}

/// The local supervisor is the first entry, connected and without an address; behind
/// it stand the remotes in order, with their names and addresses, not connected.
pub proof fn law_the_local_supervisor_comes_first(remotes: Seq<(Seq<char>, Seq<char>)>, i: int)
    requires
        remotes.len() < u32::MAX,
    ensures
        ({
            let s = seeded(remotes);
            &&& s.len() == remotes.len() + 1
            &&& s[0].id == crate::app::local_id() && s[0].connected && s[0].url is None
                && s[0].name == "local"@
            &&& 0 <= i < remotes.len() ==> s[i + 1].name == remotes[i].0 && s[i + 1].url == Some(
                remotes[i].1,
            ) && !s[i + 1].connected && s[i + 1].id.0 == i + 1
        }),
{
}

proof fn lemma_down(s: Seq<EntryModel>, n: nat)
    requires
        n <= s.len(),
    ensures
        forall|i: int|
            0 <= i < n && !(#[trigger] s[i]).connected && s[i].url is Some ==> remotes_down(
                s,
                n,
            ).contains((s[i].id, s[i].url->Some_0)),
        forall|k: int|
            #![trigger remotes_down(s, n)[k]]
            0 <= k < remotes_down(s, n).len() ==> is_down(s, remotes_down(s, n)[k]),
        forall|i: int| 0 <= i < n && (#[trigger] s[i]).connected ==> ups(s, n).contains(s[i].id),
    decreases n,
{
    if n > 0 {
        lemma_down(s, (n - 1) as nat);
        let before = remotes_down(s, (n - 1) as nat);
        let now = remotes_down(s, n);
        let ub = ups(s, (n - 1) as nat);
        let un = ups(s, n);
        assert forall|i: int|
            0 <= i < n && !(#[trigger] s[i]).connected && s[i].url is Some implies now.contains(
            (s[i].id, s[i].url->Some_0),
        ) by {
            let e = (s[i].id, s[i].url->Some_0);
            if i < n - 1 {
                let k = choose|k: int| 0 <= k < before.len() && before[k] == e;
                assert(now[k] == e);
            } else {
                assert(now[before.len() as int] == e);
            }
        }
        assert forall|k: int|
            #![trigger now[k]]
            0 <= k < now.len() implies is_down(s, now[k]) by {
            if k < before.len() {
                assert(now[k] == before[k]);
            } else {
                assert(s[n - 1].id == now[k].0);
            }
        }
        assert forall|i: int| 0 <= i < n && (#[trigger] s[i]).connected implies un.contains(
            s[i].id,
        ) by {
            if i < n - 1 {
                let k = choose|k: int| 0 <= k < ub.len() && ub[k] == s[i].id;
                assert(un[k] == s[i].id);
            } else {
                assert(un[ub.len() as int] == s[i].id);
            }
        }
    }
}

/// Whether an entry with that number and address is not connected.
pub open spec fn is_down(s: Seq<EntryModel>, e: (SupervisorId, Seq<char>)) -> bool {
    exists|i: int|
        0 <= i < s.len() && !(#[trigger] s[i]).connected && s[i].id == e.0 && s[i].url == Some(e.1)
}

/// Exactly the remotes that are not connected are dialled, at their own address, and
/// every connected supervisor is listed as such.
pub proof fn law_unconnected_remotes_are_dialled(s: Seq<EntryModel>, i: int, k: int)
    ensures
        0 <= i < s.len() && !s[i].connected && s[i].url is Some ==> remotes_down(
            s,
            s.len(),
        ).contains((s[i].id, s[i].url->Some_0)),
        0 <= k < remotes_down(s, s.len()).len() ==> is_down(s, remotes_down(s, s.len())[k]),
        0 <= i < s.len() && s[i].connected ==> ups(s, s.len()).contains(s[i].id),
{
    lemma_down(s, s.len());
}

/// The named remotes are all in effect; the single one of an older config joins them
/// under the name `remote` unless that name is taken.
pub proof fn law_every_remote_is_in_effect(
    named: Seq<(Seq<char>, Seq<char>)>,
    single: Option<RemoteConfig>,
)
    ensures
        ({
            let all = remotes_in_effect(named, single);
            &&& all.len() >= named.len() && all.take(named.len() as int) == named
            &&& single is None ==> all == named
            &&& (single is Some && forall|i: int|
                0 <= i < named.len() ==> (#[trigger] named[i]).0 != "remote"@) ==> all.len()
                == named.len() + 1 && all.last() == ("remote"@, single->Some_0.url@)
        }),
{
    let all = remotes_in_effect(named, single);
    assert(all.take(named.len() as int) =~= named);
}

// ---------------------------------------------------------------------------
// What commands come to
// ---------------------------------------------------------------------------

/// What is written to a session reaches it where it is there, and nothing else does;
/// a kill always goes out.
pub proof fn law_writes_reach_their_session(
    m: AppModel,
    s: Seq<EntryModel>,
    id: u64,
    key: crate::event::KeyEvent,
    rows: u16,
    cols: u16,
    r: Effect,
)
    ensures
        comes_to(Command::WriteKey(id, key), m, s, r) ==> r == (if m.sessions.contains(id) {
            Effect::Key(id, key)
        } else {
            Effect::Nothing
        }),
        comes_to(Command::ResizePty(id, rows, cols), m, s, r) ==> r == (if m.sessions.contains(
            id,
        ) {
            Effect::Resize(id, rows, cols)
        } else {
            Effect::Nothing
        }),
        comes_to(Command::KillSession(id), m, s, r) ==> r == Effect::Kill(id),
{
}

/// Work on a worktree goes to the supervisor that its project is on, as it was asked
/// for; where that supervisor is not connected it fails.
pub proof fn law_work_goes_to_the_projects_supervisor(
    m: AppModel,
    s: Seq<EntryModel>,
    p: int,
    repo_path: String,
    branch: String,
    w: usize,
    dest_path: String,
    gone: Option<String>,
    r: Effect,
)
    requires
        0 <= p < m.projects.len() <= usize::MAX,
    ensures
        ({
            let sup = m.projects[p].supervisor;
            let q = p as usize;
            &&& comes_to(Command::AddWorktree { project_idx: q, repo_path, branch }, m, s, r) ==> (
            if up(s, sup) {
                r == Effect::AddWorktree { supervisor: sup, project_idx: q, repo_path, branch }
            } else {
                r is Fail
            })
            &&& comes_to(
                Command::RemoveWorktree {
                    project_idx: q,
                    worktree_idx: w,
                    repo_path,
                    dest_path,
                    branch: gone,
                },
                m,
                s,
                r,
            ) ==> (if up(s, sup) {
                r == Effect::RemoveWorktree {
                    supervisor: sup,
                    project_idx: q,
                    worktree_idx: w,
                    repo_path,
                    dest_path,
                    branch: gone,
                }
            } else {
                r is Fail
            })
            &&& comes_to(Command::ImportWorktrees { project_idx: q, repo_path }, m, s, r) ==> (
            if up(s, sup) {
                r == Effect::Import { supervisor: sup, project_idx: q, repo_path }
            } else {
                r is Fail
            })
        }),
{
}

/// What is opened, listed or spawned on a supervisor goes to that supervisor; the
/// session gets the directory, size and command that were asked for.
pub proof fn law_requests_go_to_the_named_supervisor(
    m: AppModel,
    s: Seq<EntryModel>,
    sup: SupervisorId,
    path: String,
    script: Option<String>,
    import: bool,
    rows: u16,
    cols: u16,
    dest: (usize, usize),
    slug: String,
    name: String,
    r: Effect,
)
    requires
        up(s, sup),
    ensures
        comes_to(
            Command::OpenProject {
                supervisor: sup,
                path,
                setup_script: script,
                import_existing: import,
            },
            m,
            s,
            r,
        ) ==> r == (Effect::Open {
            supervisor: sup,
            path,
            setup_script: script,
            import_existing: import,
        }),
        comes_to(Command::ListDir { supervisor: sup, path: script }, m, s, r) ==> r == (
        Effect::ListDir { supervisor: sup, path: script }),
        comes_to(
            Command::SpawnInWorktree {
                supervisor: sup,
                rows,
                cols,
                cwd: path,
                dest,
                initial_command: script,
                project_slug: slug,
                worktree_name: name,
            },
            m,
            s,
            r,
        ) ==> r == (Effect::Spawn {
            supervisor: sup,
            rows,
            cols,
            cwd: path,
            dest,
            initial_command: script,
            project_slug: slug,
            worktree_name: name,
        }),
{
}

/// A project is polled for its pull requests by its own interval, else by the
/// general one, else every two minutes; only where the integration is on, the first
/// time at once, and then as soon as the interval has passed.
pub proof fn law_projects_are_polled_by_their_interval(
    m: AppModel,
    p: ProjectModel,
    times: Map<Seq<char>, u64>,
    now: u64,
)
    ensures
        ({
            let secs = match p.gh_poll_interval_secs {
                Some(s) => s,
                None => match m.gh_poll_interval_secs {
                    Some(s) => s,
                    None => 120,
                },
            };
            &&& !p.github_enabled ==> !is_due(m, p, times, now)
            &&& p.github_enabled && !times.dom().contains(p.slug) ==> is_due(m, p, times, now)
            &&& p.github_enabled && times.dom().contains(p.slug) && now >= times[p.slug] ==> (
            is_due(m, p, times, now) <==> now - times[p.slug] >= secs)
        }),
{
}

/// A poll is due exactly where some project is, and each project that is due is
/// polled now.
pub proof fn law_a_poll_covers_every_project_due(
    m: AppModel,
    times: Map<Seq<char>, u64>,
    now: u64,
    n: nat,
)
    requires
        n <= m.projects.len(),
        forall|i: int, j: int|
            0 <= i < j < m.projects.len() ==> (#[trigger] m.projects[i]).slug != (
            #[trigger] m.projects[j]).slug,
    ensures
        ({
            let (after, any) = polled(m, times, now, n);
            &&& any <==> exists|i: int|
                0 <= i < n && is_due(m, #[trigger] m.projects[i], times, now)
            &&& forall|i: int|
                0 <= i < n && is_due(m, #[trigger] m.projects[i], times, now)
                    ==> after.dom().contains(m.projects[i].slug) && after[m.projects[i].slug]
                    == now
            &&& forall|i: int|
                0 <= i < m.projects.len() && !(i < n && is_due(
                    m,
                    #[trigger] m.projects[i],
                    times,
                    now,
                )) ==> (after.dom().contains(m.projects[i].slug) <==> times.dom().contains(
                    m.projects[i].slug,
                )) && (times.dom().contains(m.projects[i].slug) ==> after[m.projects[i].slug]
                    == times[m.projects[i].slug])
        }),
    decreases n,
{
    if n > 0 {
        law_a_poll_covers_every_project_due(m, times, now, (n - 1) as nat);
        let (t, any) = polled(m, times, now, (n - 1) as nat);
        let p = m.projects[n - 1];
        assert(is_due(m, p, t, now) == is_due(m, p, times, now));
        let (after, now_any) = polled(m, times, now, n);
        if any {
            let i = choose|i: int|
                0 <= i < n - 1 && is_due(m, #[trigger] m.projects[i], times, now);
            assert(is_due(m, m.projects[i], times, now));
        }
        if now_any && !any {
            assert(is_due(m, m.projects[n - 1], times, now));
        }
        assert forall|i: int| 0 <= i < n - 1 implies (#[trigger] m.projects[i]).slug != p.slug by {
            assert(m.projects[i].slug != m.projects[n - 1].slug);
        }
        assert forall|i: int| n <= i < m.projects.len() implies (#[trigger] m.projects[i]).slug
            != p.slug by {
            assert(m.projects[n - 1].slug != m.projects[i].slug);
        }
    }
}

// ---------------------------------------------------------------------------
// The supervisor's end
// ---------------------------------------------------------------------------

proof fn lemma_meta(s: Seq<SessionMeta>, id: u64, from: int)
    requires
        0 <= from <= s.len(),
    ensures
        meta_place(s, id, from) is Some <==> exists|i: int|
            from <= i < s.len() && (#[trigger] s[i]).id == id,
    decreases s.len() - from,
{
    if from < s.len() {
        lemma_meta(s, id, from + 1);
        if s[from].id != id && (exists|i: int| from <= i < s.len() && (#[trigger] s[i]).id == id) {
            let i = choose|i: int| from <= i < s.len() && (#[trigger] s[i]).id == id;
            assert(from + 1 <= i);
        }
    }
}

/// What a client asks of a session that is there is done to that session, as it was
/// asked; what it asks of one that is not there is not done.
pub proof fn law_requests_reach_the_session_they_name(
    m: RegistryModel,
    id: u64,
    bytes: Vec<u8>,
    rows: u16,
    cols: u16,
)
    ensures
        ({
            let there = exists|i: int| 0 <= i < m.sessions.len() && (#[trigger] m.sessions[i]).id == id;
            &&& asked(m, ClientMsg::WriteBytes { id, bytes }) == (if there {
                Deed::Write { id, bytes }
            } else {
                Deed::Nothing
            })
            &&& asked(m, ClientMsg::Resize { id, rows, cols }) == (if there {
                Deed::Resize { id, rows, cols }
            } else {
                Deed::Nothing
            })
            &&& asked(m, ClientMsg::Kill { id }) == (if there {
                Deed::Kill(id)
            } else {
                Deed::Nothing
            })
            &&& asked(m, ClientMsg::Attach { id }) == (if there {
                Deed::Dump(id)
            } else {
                Deed::Nothing
            })
            &&& asked(m, ClientMsg::Shutdown) is Shutdown
        }),
{
    lemma_meta(m.sessions, id, 0);
}

/// The client that attached last is the active one; when it goes none is, and nobody
/// is subscribed any more. Sessions come and go with neither.
pub proof fn law_clients_come_and_go(m: RegistryModel, pid: u32)
    ensures
        ({
            let m1 = attached(m, pid);
            let m2 = detached(m1, m1.generation);
            &&& m1.active_client_pid == Some(pid)
            &&& m1.sessions == m.sessions && m2.sessions == m.sessions
            &&& m1.generation != m.generation
            &&& m2.active_client_pid is None && !m2.usage_subscribed
        }),
{
}

/// A subscription is noted until it is taken back, and starts a sampler unless one
/// runs.
pub proof fn law_subscriptions_are_noted(m: RegistryModel)
    ensures
        after_message(m, ClientMsg::SubscribeUsage).usage_subscribed,
        !after_message(m, ClientMsg::UnsubscribeUsage).usage_subscribed,
        asked(m, ClientMsg::SubscribeUsage) == (if m.usage_thread_alive {
            Deed::Nothing
        } else {
            Deed::StartSampler
        }),
        after_message(m, ClientMsg::SubscribeUsage).usage_thread_alive,
{
}

/// While the log has room it holds everything that was printed, in order.
pub proof fn law_the_log_holds_what_was_printed(log: LogModel, a: Seq<u8>, b: Seq<u8>)
    requires
        log.buf.len() + a.len() + b.len() <= 2_097_152,
    ensures
        logged(log, a).buf == log.buf + a,
        logged(log, a).truncated == log.truncated,
        logged(logged(log, a), b) == logged(log, a + b),
{
    assert(log.buf + a + b =~= log.buf + (a + b));
}

/// What an attaching client is sent ends in everything that was printed, where the
/// log holds that; else in what draws the screen.
pub proof fn law_dumps_end_in_the_log(screen: Screen, kbd: Seq<char>, log: LogModel)
    ensures
        ({
            let d = dumped(screen, kbd, log);
            let head = encode_utf8(mode_sequences(modes(screen))) + encode_utf8(kbd);
            &&& d.take(head.len() as int) == head
            &&& log.buf.len() > 0 && !log.truncated ==> d.skip(head.len() as int) == log.buf
            &&& log.buf.len() == 0 || log.truncated ==> d.skip(head.len() as int) == drawn(screen)
        }),
{
    let d = dumped(screen, kbd, log);
    let head = encode_utf8(mode_sequences(modes(screen))) + encode_utf8(kbd);
    assert(d.take(head.len() as int) =~= head);
    let tail = if log.buf.len() == 0 || log.truncated {
        drawn(screen)
    } else {
        log.buf
    };
    assert(d.skip(head.len() as int) =~= tail);
}

/// A command is typed into a fresh shell with exactly one newline at its end if it
/// has none of its own.
pub proof fn law_commands_are_typed_with_a_newline(command: Seq<char>)
    ensures
        ({
            let b = encode_utf8(command);
            let t = typed_in(command);
            &&& t.len() > 0 && t.last() == 10
            &&& t.take(b.len() as int) == b
            &&& t.len() <= b.len() + 1
            &&& b.len() > 0 && b.last() == 10 ==> t == b
        }),
{
    let b = encode_utf8(command);
    assert(typed_in(command).take(b.len() as int) =~= b);
}

/// The memory of a process tree is its own and that of all under it.
pub proof fn law_memory_adds_up(n: ProcessNode, nodes: Seq<ProcessNode>)
    requires
        nodes.len() > 0,
    ensures
        rss_of(n) == n.rss_bytes + rss_of_all(n.children@),
        rss_of_all(nodes) == rss_of(nodes[0]) + rss_of_all(nodes.skip(1)),
        rss_of_all(Seq::<ProcessNode>::empty()) == 0,
{
    assert(nodes.skip(1) =~= nodes.subrange(1, nodes.len() as int));
}

// ---------------------------------------------------------------------------
// Trust
// ---------------------------------------------------------------------------

/// A host's key is the one on the first line for that host; lines for other hosts
/// say nothing of it.
pub proof fn law_the_first_line_for_a_host_counts(
    entries: Seq<TrustEntry>,
    host: Seq<char>,
    i: int,
)
    ensures
        (0 <= i < entries.len() && entries[i].0 == host && forall|j: int|
            0 <= j < i ==> (#[trigger] entries[j]).0 != host) ==> pinned(entries, host)
            == entries[i].1,
        (forall|j: int| 0 <= j < entries.len() ==> (#[trigger] entries[j]).0 != host) ==> pinned(
            entries,
            host,
        ) is None,
    decreases entries.len(),
{
    if entries.len() > 0 && entries[0].0 != host {
        let rest = entries.skip(1);
        law_the_first_line_for_a_host_counts(rest, host, i - 1);
        if 0 <= i < entries.len() && entries[i].0 == host && forall|j: int|
            0 <= j < i ==> (#[trigger] entries[j]).0 != host {
            assert(rest[i - 1] == entries[i]);
            assert forall|j: int| 0 <= j < i - 1 implies (#[trigger] rest[j]).0 != host by {
                assert(rest[j] == entries[j + 1]);
            }
        }
        if forall|j: int| 0 <= j < entries.len() ==> (#[trigger] entries[j]).0 != host {
            assert forall|j: int| 0 <= j < rest.len() implies (#[trigger] rest[j]).0 != host by {
                assert(rest[j] == entries[j + 1]);
            }
        }
    }
}

/// A line of a trust file says its first two words; an empty line or one that starts
/// with `#` says nothing.
pub proof fn law_trust_lines_say_their_first_words(line: Seq<char>)
    ensures
        ({
            let w = text::words(line);
            &&& w.len() == 0 ==> trust_entry(line) is None
            &&& w.len() > 0 && w[0].len() > 0 && w[0][0] == '#' ==> trust_entry(line) is None
            &&& w.len() > 0 && w[0].len() > 0 && w[0][0] != '#' ==> (trust_entry(line) matches Some(
                (host, fp),
            ) && host == w[0] && (w.len() > 1 ==> fp == Some(w[1])) && (w.len() == 1 ==> fp
                is None))
        }),
{
}

/// A fingerprint is the hash of the public key in hexadecimal: two digits for each
/// byte, the higher half first.
pub proof fn law_fingerprints_are_the_hash_of_the_key(cert: Seq<u8>, i: int)
    ensures
        match key_info_in(cert) {
            Ok(info) => fingerprint(cert) == Ok::<Seq<char>, Seq<char>>(hex(sha256_of(info))),
            Err(_) => fingerprint(cert) is Err,
        },
        forall|b: Seq<u8>| (#[trigger] hex(b)).len() == 2 * b.len(),
        forall|b: Seq<u8>|
            0 <= i < b.len() ==> half_digit((#[trigger] hex(b))[2 * i], b[i] as int / 16)
                && half_digit(hex(b)[2 * i + 1], b[i] as int % 16),
{
    assert forall|b: Seq<u8>| 0 <= i < b.len() implies half_digit(
        (#[trigger] hex(b))[2 * i],
        b[i] as int / 16,
    ) && half_digit(hex(b)[2 * i + 1], b[i] as int % 16) by {
        assert((2 * i) % 2 == 0 && (2 * i) / 2 == i);
        assert((2 * i + 1) % 2 == 1 && (2 * i + 1) / 2 == i);
    }
}

/// Whether `c` is the small hexadecimal digit of `n`.
pub open spec fn half_digit(c: char, n: int) -> bool {
    if n < 10 {
        c as int == '0' as int + n
    } else {
        c as int == 'a' as int + n - 10
    }
}

// ---------------------------------------------------------------------------
// Releases
// ---------------------------------------------------------------------------

/// A tag's version is what stands behind one `v`, or the tag itself.
pub proof fn law_a_tag_is_a_version_behind_a_v(version: Seq<char>)
    ensures
        tag_version(seq!['v'] + version) == version,
        version.len() > 0 && version[0] != 'v' ==> tag_version(version) == version,
{
    assert((seq!['v'] + version).skip(1) =~= version);
}

/// A printed protocol is another one exactly where it is a number other than 1.
pub proof fn law_a_protocol_changes_by_its_number(n: nat)
    requires
        n <= u32::MAX,
    ensures
        protocol_differs(text::decimal(n)) == Some(n != 1),
{
    text::law_decimal_round_trips(n, u32::MAX as nat);
    lemma_digits_are_not_white(n);
    crate::laws::texts::law_trimmed_texts_stay(text::decimal(n));
}

proof fn lemma_digits_are_not_white(n: nat)
    ensures
        text::decimal(n).len() > 0,
        !text::is_white(text::decimal(n)[0]),
        !text::is_white(text::decimal(n).last()),
    decreases n,
{
    if n >= 10 {
        lemma_digits_are_not_white(n / 10);
        assert(text::decimal(n)[0] == text::decimal(n / 10)[0]);
    }
}

/// A release is newer by its first number, then by its second, then by its third; of
/// two different releases exactly one is newer, and none is newer than itself.
pub proof fn law_releases_are_ordered_by_their_numbers(
    a: (u64, u64, u64),
    b: (u64, u64, u64),
    c: (u64, u64, u64),
)
    ensures
        a.0 > b.0 ==> higher(a, b),
        a.0 == b.0 && a.1 > b.1 ==> higher(a, b),
        a.0 == b.0 && a.1 == b.1 && a.2 > b.2 ==> higher(a, b),
        higher(a, b) ==> !higher(b, a),
        a != b ==> higher(a, b) || higher(b, a),
        higher(a, b) && higher(b, c) ==> higher(a, c),
{
}

/// The address of an IPv6 host stands in brackets; without a port there is nothing to
/// dial.
pub proof fn law_bracketed_hosts_come_apart(host: Seq<char>, port: Seq<char>)
    requires
        forall|i: int| 0 <= i < host.len() ==> #[trigger] host[i] != ']',
    ensures
        host_port(seq!['['] + host + seq![']', ':'] + port) == Ok::<
            (Seq<char>, Seq<char>),
            HostPortError,
        >((host, port)),
        host_port(seq!['['] + host + seq![']']) is Err,
        !host.contains(':') && (host.len() == 0 || host[0] != '[') ==> host_port(host) is Err,
{
    let url = seq!['['] + host + seq![']', ':'] + port;
    let rest = url.skip(1);
    assert(rest =~= host + seq![']', ':'] + port);
    text::lemma_find_char_is(rest, ']', host.len());
    assert(rest.take(host.len() as int) =~= host);
    let tail = rest.skip(host.len() as int + 1);
    assert(tail =~= seq![':'] + port);
    assert(tail.skip(1) =~= port);
    let bare = seq!['['] + host + seq![']'];
    let inner = bare.skip(1);
    assert(inner =~= host + seq![']']);
    text::lemma_find_char_is(inner, ']', host.len());
    assert(inner.skip(host.len() as int + 1) =~= seq![]);
    if !host.contains(':') {
        lemma_no_colon(host, host.len() as int);
    }
}

proof fn lemma_no_colon(s: Seq<char>, n: int)
    requires
        0 <= n <= s.len(),
        !s.contains(':'),
    ensures
        crate::transport::last_colon(s, n) is None,
    decreases n,
{
    if n > 0 {
        assert(s.contains(s[n - 1]));
        lemma_no_colon(s, n - 1);
    }
}

/// A project is saved as it is, a remote is dialled at its own address, and whoever
/// reads the usage popup hears from every connected supervisor.
pub proof fn law_saving_dialling_and_subscribing(
    m: AppModel,
    s: Seq<EntryModel>,
    p: int,
    i: int,
    r: Effect,
)
    ensures
        0 <= p < m.projects.len() <= usize::MAX && comes_to(
            Command::SaveProjectConfig(p as usize),
            m,
            s,
            r,
        ) ==> (r matches Effect::SaveProject(cfg) && cfg.name@ == m.projects[p].name && cfg.path@
            == m.projects[p].repo_path && cfg.slug@ == m.projects[p].slug && text::opt_text(
            cfg.setup_script,
        ) == m.projects[p].setup_script && cfg.worktrees@.len() == m.projects[p].worktrees.len()),
        comes_to(Command::SaveGlobalConfig, m, s, r) ==> r is SaveGlobal,
        (0 <= i < s.len() && s[i].url is Some && comes_to(
            Command::ReconnectSupervisor(s[i].id),
            m,
            s,
            r,
        ) && forall|j: int| 0 <= j < i ==> (#[trigger] s[j]).id != s[i].id) ==> (
        r matches Effect::Dial { id, url } && id == s[i].id && url@ == s[i].url->Some_0),
        0 <= i < s.len() && s[i].connected && comes_to(Command::SubscribeUsage, m, s, r) ==> (
        r matches Effect::SubscribeUsage(list) && list@.contains(s[i].id)),
        0 <= i < s.len() && s[i].connected && comes_to(Command::UnsubscribeUsage, m, s, r) ==> (
        r matches Effect::UnsubscribeUsage(list) && list@.contains(s[i].id)),
{
    lemma_down(s, s.len());
    if 0 <= i < s.len() && forall|j: int| 0 <= j < i ==> (#[trigger] s[j]).id != s[i].id {
        lemma_entry_place(s, i, 0);
    }
    if 0 <= p < m.projects.len() <= usize::MAX && comes_to(
        Command::SaveProjectConfig(p as usize),
        m,
        s,
        r,
    ) {
        let cfg = r->SaveProject_0;
        let c = crate::app::config_model(cfg);
        assert(c.worktrees.len() == cfg.worktrees@.len());
        assert(c.worktrees.len() == m.projects[p].worktrees.len());
    }
}

proof fn lemma_entry_place(s: Seq<EntryModel>, i: int, from: int)
    requires
        0 <= from <= i < s.len(),
        forall|j: int| 0 <= j < i ==> (#[trigger] s[j]).id != s[i].id,
    ensures
        crate::client::entry_place(s, s[i].id, from) == Some(i),
    decreases i - from,
{
    if from < i {
        lemma_entry_place(s, i, from + 1);
    }
}

/// A session that outlived the program is taken in only where a worktree of its name,
/// in the project of its slug, is on the supervisor that has it.
pub proof fn law_resumed_sessions_join_what_they_name(
    m: AppModel,
    sup: SupervisorId,
    slug: Seq<char>,
    name: Seq<char>,
    id: u64,
)
    requires
        m.projects.len() <= usize::MAX,
    ensures
        rebound(m, sup, slug, name, id) matches Some(n) ==> exists|p: int, w: int|
            0 <= p < m.projects.len() && 0 <= w < m.projects[p].worktrees.len()
                && m.projects[p].supervisor == sup && m.projects[p].slug == slug && (
            #[trigger] m.projects[p].worktrees[w]).name == name,
{
    if rebound(m, sup, slug, name, id) is Some {
        lemma_slug_place(m.projects, slug, 0);
        let p = crate::runtime::slug_place(m.projects, slug, 0)->Some_0;
        lemma_name_place(m.projects[p].worktrees, name, 0);
        let w = crate::runtime::name_place(m.projects[p].worktrees, name, 0)->Some_0;
        let (q, v) = crate::runtime::located(m, slug, name)->Some_0;
        assert(q == p);
        assert(m.projects[p].worktrees[w].name == name);
    }
}

proof fn lemma_slug_place(ps: Seq<ProjectModel>, slug: Seq<char>, from: int)
    requires
        0 <= from <= ps.len(),
    ensures
        crate::runtime::slug_place(ps, slug, from) matches Some(i) ==> from <= i < ps.len()
            && ps[i].slug == slug,
    decreases ps.len() - from,
{
    if from < ps.len() && ps[from].slug != slug {
        lemma_slug_place(ps, slug, from + 1);
    }
}

proof fn lemma_name_place(ws: Seq<WorktreeModel>, name: Seq<char>, from: int)
    requires
        0 <= from <= ws.len(),
    ensures
        crate::runtime::name_place(ws, name, from) matches Some(i) ==> from <= i < ws.len()
            && ws[i].name == name,
    decreases ws.len() - from,
{
    if from < ws.len() && ws[from].name != name {
        lemma_name_place(ws, name, from + 1);
    }
}

/// Work goes out as it was asked for, and its answer comes back to the project that it
/// was asked for: a worktree that was added joins that project, one that was removed
/// leaves it, worktrees that were listed are imported into it, and statuses are its.
pub proof fn law_answers_come_back_to_the_project_asked_for(
    m: LinkModel,
    p: usize,
    w: usize,
    repo: String,
    name: String,
    dest: String,
    gone: Option<String>,
    paths: Vec<(usize, String)>,
    entry: WorktreeEntry,
    list: Vec<WorktreeEntry>,
    found: Vec<(usize, Option<PrStatus>)>,
    fresh: u64,
    r: Received,
)
    ensures
        ({
            let n = m.next_request;
            let (wait, req) = add_work(p, repo, name);
            let ok: OpResult = Ok(OpOk::WorktreeAdded(entry));
            &&& req == (OpRequest::WorktreeAdd { repo_path: repo, branch: name })
            &&& message_means(
                op_asked(m, wait),
                SupervisorMsg::OpResult { request_id: n, result: ok },
                fresh,
                r,
            ) ==> (r matches Received::Post(Action::WorktreeAdded { project_idx, worktree })
                && project_idx == p && worktree@.path == entry.path@)
        }),
        ({
            let n = m.next_request;
            let (wait, req) = remove_work(p, w, repo, dest, gone);
            let ok: OpResult = Ok(OpOk::WorktreeRemoved);
            &&& req == (OpRequest::WorktreeRemove {
                repo_path: repo,
                dest_path: dest,
                branch: gone,
            })
            &&& message_means(
                op_asked(m, wait),
                SupervisorMsg::OpResult { request_id: n, result: ok },
                fresh,
                r,
            ) ==> r == Received::Post(Action::WorktreeRemoved { project_idx: p, worktree_idx: w })
        }),
        ({
            let n = m.next_request;
            let (wait, req) = import_work(p, repo);
            let ok: OpResult = Ok(OpOk::Worktrees(list));
            &&& req == (OpRequest::ListWorktrees { repo_path: repo })
            &&& message_means(
                op_asked(m, wait),
                SupervisorMsg::OpResult { request_id: n, result: ok },
                fresh,
                r,
            ) ==> (r matches Received::Post(Action::WorktreesImported { project_idx, entries })
                && project_idx == p && entries@.len() == list@.len() && forall|i: int|
                0 <= i < list@.len() ==> (#[trigger] entries@[i])@.path == list@[i].path@
                    && entries@[i]@.branch == text::opt_text(list@[i].branch))
        }),
        ({
            let n = m.next_request;
            let (wait, req) = pr_work(p, repo, paths);
            let ok: OpResult = Ok(OpOk::PrStatuses(found));
            &&& req == (OpRequest::FetchPr { repo_path: repo, worktrees: paths })
            &&& message_means(
                op_asked(m, wait),
                SupervisorMsg::OpResult { request_id: n, result: ok },
                fresh,
                r,
            ) ==> r == Received::Post(
                Action::PrStatusesFetched { project_idx: p, statuses: found },
            )
        }),
{
    let (wait, req) = import_work(p, repo);
    let ok: OpResult = Ok(OpOk::Worktrees(list));
    if message_means(
        op_asked(m, wait),
        SupervisorMsg::OpResult { request_id: m.next_request, result: ok },
        fresh,
        r,
    ) {
        let made = r->Post_0->WorktreesImported_entries;
        let models = crate::app::worktree_models(made@);
        assert(models.len() == made@.len());
        assert forall|i: int| 0 <= i < list@.len() implies (#[trigger] made@[i])@.path
            == list@[i].path@ && made@[i]@.branch == text::opt_text(list@[i].branch) by {
            assert(models[i] == made@[i]@);
        }
    }
}

/// Opening a project asks whether its path is a repository, and the answer comes back
/// with the script, the choice to import and the supervisor that were given; a listing
/// is asked for by its path and comes back as it is.
pub proof fn law_opening_and_listing_are_answered(
    m: LinkModel,
    sup: SupervisorId,
    repo: String,
    script: Option<String>,
    import: bool,
    info: RepoInfo,
    path: Option<String>,
    fresh: u64,
    r: Received,
)
    ensures
        ({
            let n = m.next_request;
            let (wait, req) = open_work(sup, repo, script, import);
            let ok: OpResult = Ok(OpOk::Validated(info));
            &&& req == (OpRequest::Validate { repo_path: repo })
            &&& message_means(
                op_asked(m, wait),
                SupervisorMsg::OpResult { request_id: n, result: ok },
                fresh,
                r,
            ) ==> r == Received::Post(
                Action::ProjectValidated {
                    supervisor: sup,
                    canonical_path: info.canonical_path,
                    repo_name: info.repo_name,
                    head_branch: info.head_branch,
                    setup_script: script,
                    import_existing: import,
                },
            )
        }),
        list_work(path).1 == (OpRequest::ListDir { path }),
        list_work(path).0 is ListDir,
{
}

/// The directory that the state shows lists every supervisor under its number and name,
/// in order, and calls just those connected that are.
pub proof fn law_the_directory_lists_every_supervisor(s: Seq<EntryModel>, id: SupervisorId)
    ensures
        directory_of(s).entries.len() == s.len(),
        forall|i: int|
            0 <= i < s.len() ==> (#[trigger] directory_of(s).entries[i]) == (s[i].id, s[i].name),
        directory_of(s).connected.contains(id) <==> exists|i: int|
            0 <= i < s.len() && (#[trigger] s[i]).id == id && s[i].connected,
{
    lemma_ups_have(s, s.len(), id);
}

proof fn lemma_ups_have(s: Seq<EntryModel>, n: nat, id: SupervisorId)
    requires
        n <= s.len(),
    ensures
        ups(s, n).contains(id) <==> exists|i: int|
            0 <= i < n && (#[trigger] s[i]).id == id && s[i].connected,
    decreases n,
{
    if n > 0 {
        let before = ups(s, (n - 1) as nat);
        lemma_ups_have(s, (n - 1) as nat, id);
        if s[n - 1].connected {
            let now = ups(s, n);
            assert(now == before.push(s[n - 1].id));
            assert(now[now.len() - 1] == s[n - 1].id);
            if before.contains(id) {
                let j = choose|j: int| 0 <= j < before.len() && before[j] == id;
                assert(now[j] == id);
            }
            if now.contains(id) && s[n - 1].id != id {
                let j = choose|j: int| 0 <= j < now.len() && now[j] == id;
                assert(before[j] == id);
            }
        }
    }
}

/// A worktree that a supervisor reports is named after its branch, and after its directory
/// where it is on none; it starts without tabs.
pub proof fn law_reported_worktrees_are_named_after_their_branch(e: WorktreeEntry)
    ensures
        entry_worktree(e).path == e.path@,
        entry_worktree(e).sessions.len() == 0,
        entry_worktree(e).active_tab is None,
        e.branch matches Some(b) ==> entry_worktree(e).name == b@ && entry_worktree(e).branch
            == Some(b@),
        e.branch is None ==> entry_worktree(e).branch is None,
        e.branch is None ==> (crate::paths::last_name(e.path@) matches Some(n)
            ==> entry_worktree(e).name == n),
{
}

/// The tag of a release is the text under `tag_name`; what has none is refused, and so is
/// what is no JSON.
pub proof fn law_a_release_goes_by_its_tag(json: Option<serde_json::Value>, tag: Seq<char>)
    ensures
        described_tag(json) == Err::<Seq<char>, ReleaseError>(ReleaseError::NotJson)
            <==> json is None,
        described_tag(json) == Ok::<Seq<char>, ReleaseError>(tag) <==> (json matches Some(v) && (
        member_of(v, "tag_name"@) matches Some(m) && string_in(m) == Some(tag))),
{
}

} // verus!
