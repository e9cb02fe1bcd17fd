//! The client's side of a supervisor connection: which requests are open, which
//! session is which, and what the supervisor's messages mean.

use crate::app::{
    local, Action, DirectoryModel, SupervisorDirectory, SupervisorId, Worktree, WorktreeModel,
};
use crate::config::RemoteConfig;
use crate::ipc::{
    ClientMsg, HandshakeReq, HandshakeResp, OpOk, OpRequest, OpResult, SessionMeta, SupervisorMsg,
    WorktreeEntry, PROTOCOL_VERSION,
};
use crate::paths;
use crate::session::SessionId;
use crate::text;
use std::collections::HashMap;
use vstd::prelude::*;

verus! {

broadcast use vstd::std_specs::hash::group_hash_axioms;

// ---------------------------------------------------------------------------
// Results of work
// ---------------------------------------------------------------------------

/// What to do with the result of a piece of work that a supervisor was asked
/// for.
#[derive(Debug)]
pub enum PendingOp {
    OpenProject { supervisor: SupervisorId, setup_script: Option<String>, import_existing: bool },
    ImportWorktrees { project_idx: usize },
    AddWorktree { project_idx: usize },
    RemoveWorktree { project_idx: usize, worktree_idx: usize },
    FetchPr { project_idx: usize },
    /// Open-project directory browser listing.
    ListDir,
}

/// The worktree that a supervisor's entry describes: named after its branch,
/// else after its directory.
pub open spec fn entry_worktree(e: WorktreeEntry) -> WorktreeModel {
    WorktreeModel {
        name: match e.branch {
            Some(b) => b@,
            None => match paths::last_name(e.path@) {
                Some(n) => n,
                None => "worktree"@,
            },
        },
        path: e.path@,
        branch: text::opt_text(e.branch),
        sessions: seq![],
        active_tab: None,
    }
}

/// Build a local `Worktree` from a wire entry (branch name, else the directory
/// basename).
pub fn worktree_from_entry(e: WorktreeEntry) -> (r: Worktree)
    ensures
        r@ == entry_worktree(e),
{
    let name = match &e.branch {
        Some(b) => b.clone(),
        None => match paths::file_name(e.path.as_str()) {
            Some(n) => n,
            None => text::owned("worktree"),
        },
    };
    let r = Worktree {
        name,
        path: e.path,
        branch: e.branch,
        sessions: Vec::new(),
        active_tab: None,
    };
    assert(r@.sessions =~= seq![]);
    r
}

/// The worktrees that a supervisor's entries describe.
pub open spec fn entry_worktrees(entries: Seq<WorktreeEntry>) -> Seq<WorktreeModel> {
    Seq::new(entries.len(), |i: int| entry_worktree(entries[i]))
}

fn worktrees_from(entries: Vec<WorktreeEntry>) -> (r: Vec<Worktree>)
    ensures
        crate::app::worktree_models(r@) == entry_worktrees(entries@),
{
    let ghost want = entry_worktrees(entries@);
    let mut out: Vec<Worktree> = Vec::new();
    let mut i: usize = 0;
    while i < entries.len()
        invariant
            i <= entries.len(),
            want == entry_worktrees(entries@),
            crate::app::worktree_models(out@) =~= want.take(i as int),
        decreases entries.len() - i,
    {
        let ghost before = out@;
        let e = WorktreeEntry {
            path: entries[i].path.clone(),
            branch: text::clone_opt(&entries[i].branch),
        };
        assert(entry_worktree(e) == want[i as int]);
        out.push(worktree_from_entry(e));
        assert(crate::app::worktree_models(out@) =~= crate::app::worktree_models(before).push(
            want[i as int],
        ));
        assert(want.take(i + 1) =~= want.take(i as int).push(want[i as int]));
        i += 1;
    }
    assert(want.take(want.len() as int) =~= want);
    out
}

/// What a failed piece of work is called in front of its message.
pub open spec fn op_label(p: PendingOp) -> Seq<char> {
    match p {
        PendingOp::OpenProject { .. } => "open: "@,
        PendingOp::ImportWorktrees { .. } => "import: "@,
        PendingOp::AddWorktree { .. } => "worktree: "@,
        PendingOp::RemoveWorktree { .. } => "remove worktree: "@,
        PendingOp::FetchPr { .. } => ""@,
        PendingOp::ListDir => "list dir: "@,
    }
}

/// Whether `r` is what the result of a piece of work means. A result of another
/// sort than was asked for means nothing.
pub open spec fn op_means(p: PendingOp, result: OpResult, r: Option<Action>) -> bool {
    match result {
        Err(e) => match p {
            PendingOp::FetchPr { project_idx } => r == Some(
                Action::PrFetchFailed { project_idx, message: e },
            ),
            _ => r matches Some(Action::OperationFailed(msg)) && msg@ == op_label(p) + e@,
        },
        Ok(ok) => match (p, ok) {
            (
                PendingOp::OpenProject { supervisor, setup_script, import_existing },
                OpOk::Validated(info),
            ) => r == Some(
                Action::ProjectValidated {
                    supervisor,
                    canonical_path: info.canonical_path,
                    repo_name: info.repo_name,
                    head_branch: info.head_branch,
                    setup_script,
                    import_existing,
                },
            ),
            (PendingOp::ListDir, OpOk::DirListing { dir, parent, entries }) => r == Some(
                Action::DirListed { dir, parent, entries },
            ),
            (PendingOp::ImportWorktrees { project_idx }, OpOk::Worktrees(entries)) => {
                r matches Some(Action::WorktreesImported { project_idx: p, entries: made }) && p
                    == project_idx && crate::app::worktree_models(made@) == entry_worktrees(
                    entries@,
                )
            },
            (PendingOp::AddWorktree { project_idx }, OpOk::WorktreeAdded(entry)) => {
                r matches Some(Action::WorktreeAdded { project_idx: p, worktree }) && p
                    == project_idx && worktree@ == entry_worktree(entry)
            },
            (
                PendingOp::RemoveWorktree { project_idx, worktree_idx },
                OpOk::WorktreeRemoved,
            ) => r == Some(Action::WorktreeRemoved { project_idx, worktree_idx }),
            (PendingOp::FetchPr { project_idx }, OpOk::PrStatuses(statuses)) => r == Some(
                Action::PrStatusesFetched { project_idx, statuses },
            ),
            _ => r is None,
        },
    }
}

/// Turn an `OpResult` + its pending continuation into the `Action` to post.
/// Returns `None` when the response kind doesn't match the request.
pub fn op_result_to_action(pending: PendingOp, result: OpResult) -> (r: Option<Action>)
    ensures
        op_means(pending, result, r),
{
    match result {
        Err(e) => {
            let label = match pending {
                PendingOp::FetchPr { project_idx } => {
                    return Some(Action::PrFetchFailed { project_idx, message: e });
                },
                PendingOp::OpenProject { .. } => "open: ",
                PendingOp::ImportWorktrees { .. } => "import: ",
                PendingOp::AddWorktree { .. } => "worktree: ",
                PendingOp::RemoveWorktree { .. } => "remove worktree: ",
                PendingOp::ListDir => "list dir: ",
            };
            Some(Action::OperationFailed(text::concat2(label, e.as_str())))
        },
        Ok(ok) => match (pending, ok) {
            (
                PendingOp::OpenProject { supervisor, setup_script, import_existing },
                OpOk::Validated(info),
            ) => Some(
                Action::ProjectValidated {
                    supervisor,
                    canonical_path: info.canonical_path,
                    repo_name: info.repo_name,
                    head_branch: info.head_branch,
                    setup_script,
                    import_existing,
                },
            ),
            (PendingOp::ListDir, OpOk::DirListing { dir, parent, entries }) => Some(
                Action::DirListed { dir, parent, entries },
            ),
            (PendingOp::ImportWorktrees { project_idx }, OpOk::Worktrees(entries)) => Some(
                Action::WorktreesImported { project_idx, entries: worktrees_from(entries) },
            ),
            (PendingOp::AddWorktree { project_idx }, OpOk::WorktreeAdded(entry)) => Some(
                Action::WorktreeAdded { project_idx, worktree: worktree_from_entry(entry) },
            ),
            (
                PendingOp::RemoveWorktree { project_idx, worktree_idx },
                OpOk::WorktreeRemoved,
            ) => Some(Action::WorktreeRemoved { project_idx, worktree_idx }),
            (PendingOp::FetchPr { project_idx }, OpOk::PrStatuses(statuses)) => Some(
                Action::PrStatusesFetched { project_idx, statuses },
            ),
            _ => None,
        },
    }
}

// ---------------------------------------------------------------------------
// One connection
// ---------------------------------------------------------------------------

/// Where a session that was asked for goes, and its size.
#[derive(Copy, Clone, Debug)]
pub struct PendingSpawn {
    pub dest: (usize, usize),
    pub rows: u16,
    pub cols: u16,
}

/// The client end of one supervisor connection: its sessions by the number that
/// the supervisor knows them by, and the requests that are open.
pub struct SupervisorClient {
    sup_id: SupervisorId,
    /// From the supervisor's number of a session to the client's own.
    sessions: HashMap<u64, SessionId>,
    pending_spawns: HashMap<u64, PendingSpawn>,
    pending_ops: HashMap<u64, PendingOp>,
    next_request: u64,
    /// Resumed sessions reported by the supervisor at handshake. Empty after
    /// `drain_initial_sessions` is called.
    initial_sessions: Vec<SessionMeta>,
}

/// A connection in the abstract.
pub struct LinkModel {
    pub supervisor: SupervisorId,
    pub sessions: Map<u64, SessionId>,
    pub spawns: Map<u64, PendingSpawn>,
    pub ops: Map<u64, PendingOp>,
    pub next_request: u64,
    pub initial: Seq<SessionMeta>,
}

impl View for SupervisorClient {
    type V = LinkModel;

    closed spec fn view(&self) -> LinkModel {
        LinkModel {
            supervisor: self.sup_id,
            sessions: self.sessions@,
            spawns: self.pending_spawns@,
            ops: self.pending_ops@,
            next_request: self.next_request,
            initial: self.initial_sessions@,
        }
    }
}

/// The number of the request behind `n`.
pub open spec fn next_number(n: u64) -> u64 {
    if n == u64::MAX {
        0
    } else {
        (n + 1) as u64
    }
}

/// The connection once a piece of work was asked for.
pub open spec fn op_asked(m: LinkModel, p: PendingOp) -> LinkModel {
    LinkModel {
        ops: m.ops.insert(m.next_request, p),
        next_request: next_number(m.next_request),
        ..m
    }
}

/// What is to be done about a message from the supervisor.
#[derive(Debug)]
pub enum Received {
    /// Nothing.
    Nothing,
    /// The program hears of it.
    Post(Action),
    /// A session was opened: it gets a screen of that size, and the program
    /// hears of it.
    Opened { wire: u64, rows: u16, cols: u16, action: Action },
    /// Output of a session, by the client's own number.
    Output { session: SessionId, bytes: Vec<u8> },
    /// A session ended: its screen goes, and the program hears of it.
    Ended { wire: u64, action: Action },
    /// The connection is over, and the program hears of it.
    Closed(Action),
}

/// What opening a project asks of a supervisor, and what it waits for.
pub open spec fn open_work(
    supervisor: SupervisorId,
    repo_path: String,
    setup_script: Option<String>,
    import_existing: bool,
) -> (PendingOp, OpRequest) {
    (
        PendingOp::OpenProject { supervisor, setup_script, import_existing },
        OpRequest::Validate { repo_path },
    )
}

/// What listing a directory asks of a supervisor, and what it waits for.
pub open spec fn list_work(path: Option<String>) -> (PendingOp, OpRequest) {
    (PendingOp::ListDir, OpRequest::ListDir { path })
}

/// What importing worktrees asks of a supervisor, and what it waits for.
pub open spec fn import_work(project_idx: usize, repo_path: String) -> (PendingOp, OpRequest) {
    (PendingOp::ImportWorktrees { project_idx }, OpRequest::ListWorktrees { repo_path })
}

/// What adding a worktree asks of a supervisor, and what it waits for.
pub open spec fn add_work(project_idx: usize, repo_path: String, branch: String) -> (
    PendingOp,
    OpRequest,
) {
    (PendingOp::AddWorktree { project_idx }, OpRequest::WorktreeAdd { repo_path, branch })
}

/// What removing a worktree asks of a supervisor, and what it waits for.
pub open spec fn remove_work(
    project_idx: usize,
    worktree_idx: usize,
    repo_path: String,
    dest_path: String,
    branch: Option<String>,
) -> (PendingOp, OpRequest) {
    (
        PendingOp::RemoveWorktree { project_idx, worktree_idx },
        OpRequest::WorktreeRemove { repo_path, dest_path, branch },
    )
}

/// What asking for PR statuses asks of a supervisor, and what it waits for.
pub open spec fn pr_work(
    project_idx: usize,
    repo_path: String,
    worktrees: Vec<(usize, String)>,
) -> (PendingOp, OpRequest) {
    (PendingOp::FetchPr { project_idx }, OpRequest::FetchPr { repo_path, worktrees })
}

/// What the connection comes to when a message arrives, with `fresh` as the
/// number of a session that it opens.
pub open spec fn link_after(m: LinkModel, msg: SupervisorMsg, fresh: SessionId) -> LinkModel {
    match msg {
        SupervisorMsg::Spawned { request_id, id } => if m.spawns.contains_key(request_id) {
            LinkModel {
                spawns: m.spawns.remove(request_id),
                sessions: m.sessions.insert(id, fresh),
                ..m
            }
        } else {
            m
        },
        SupervisorMsg::SpawnFailed { request_id, error: _ } => LinkModel {
            spawns: m.spawns.remove(request_id),
            ..m
        },
        SupervisorMsg::Exited { id } => LinkModel { sessions: m.sessions.remove(id), ..m },
        SupervisorMsg::OpResult { request_id, result: _ } => LinkModel {
            ops: m.ops.remove(request_id),
            ..m
        },
        _ => m,
    }
}

/// Whether `r` is what is to be done about a message.
pub open spec fn message_means(
    m: LinkModel,
    msg: SupervisorMsg,
    fresh: SessionId,
    r: Received,
) -> bool {
    match msg {
        SupervisorMsg::Spawned { request_id, id } => if m.spawns.contains_key(request_id) {
            let p = m.spawns[request_id];
            r == Received::Opened {
                wire: id,
                rows: p.rows,
                cols: p.cols,
                action: Action::SessionSpawned { session: fresh, dest: p.dest },
            }
        } else {
            r is Nothing
        },
        SupervisorMsg::SpawnFailed { request_id: _, error } => {
            r matches Received::Post(Action::OperationFailed(t)) && t@ == "spawn: "@ + error@
        },
        SupervisorMsg::OutputDump { id, bytes } => if m.sessions.contains_key(id) {
            r == Received::Output { session: m.sessions[id], bytes }
        } else {
            r is Nothing
        },
        SupervisorMsg::OutputDelta { id, bytes } => if m.sessions.contains_key(id) {
            r == Received::Output { session: m.sessions[id], bytes }
        } else {
            r is Nothing
        },
        SupervisorMsg::Exited { id } => if m.sessions.contains_key(id) {
            r == Received::Ended { wire: id, action: Action::SessionExited(m.sessions[id]) }
        } else {
            r is Nothing
        },
        SupervisorMsg::Detached { reason } => r == Received::Closed(
            Action::SupervisorLost(m.supervisor, reason),
        ),
        SupervisorMsg::Usage(report) => r == Received::Post(
            Action::UsageReceived(m.supervisor, report),
        ),
        SupervisorMsg::OpResult { request_id, result } => if m.ops.contains_key(request_id) {
            match r {
                Received::Post(a) => op_means(m.ops[request_id], result, Some(a)),
                Received::Nothing => op_means(m.ops[request_id], result, None),
                _ => false,
            }
        } else {
            r is Nothing
        },
    }
}

impl SupervisorClient {
    /// A connection whose handshake is done.
    pub fn new(sup_id: SupervisorId, initial_sessions: Vec<SessionMeta>) -> (r: SupervisorClient)
        ensures
            r@ == (LinkModel {
                supervisor: sup_id,
                sessions: Map::empty(),
                spawns: Map::empty(),
                ops: Map::empty(),
                next_request: 1,
                initial: initial_sessions@,
            }),
    {
        SupervisorClient {
            sup_id,
            sessions: HashMap::new(),
            pending_spawns: HashMap::new(),
            pending_ops: HashMap::new(),
            next_request: 1,
            initial_sessions,
        }
    }

    /// Take the list of pre-existing sessions reported during the handshake,
    /// leaving the slot empty.
    pub fn drain_initial_sessions(&mut self) -> (r: Vec<SessionMeta>)
        ensures
            r@ == old(self)@.initial,
            final(self)@ == (LinkModel { initial: seq![], ..old(self)@ }),
    {
        let mut out: Vec<SessionMeta> = Vec::new();
        std::mem::swap(&mut out, &mut self.initial_sessions);
        assert(self@.initial =~= seq![]);
        out
    }

    /// Registers a session that the supervisor already has, under the client's
    /// number `global`; the message asks for its screen.
    pub fn adopt(&mut self, meta: &SessionMeta, global: SessionId) -> (r: ClientMsg)
        ensures
            r == (ClientMsg::Attach { id: meta.id }),
            final(self)@ == (LinkModel {
                sessions: old(self)@.sessions.insert(meta.id, global),
                ..old(self)@
            }),
    {
        self.sessions.insert(meta.id, global);
        ClientMsg::Attach { id: meta.id }
    }

    /// This connection's supervisor id (for tagging Actions client-side).
    pub fn supervisor_id(&self) -> (r: SupervisorId)
        ensures
            r == self@.supervisor,
    {
        self.sup_id
    }

    fn take_number(&mut self) -> (r: u64)
        ensures
            r == old(self)@.next_request,
            final(self)@ == (LinkModel {
                next_request: next_number(old(self)@.next_request),
                ..old(self)@
            }),
    {
        let n: u64 = self.next_request;
        self.next_request = if n == u64::MAX {
            0
        } else {
            n + 1
        };
        n
    }

    /// The request for a session. The answer brings `Action::SessionSpawned`.
    pub fn request_spawn(
        &mut self,
        project_slug: String,
        worktree_name: String,
        rows: u16,
        cols: u16,
        cwd: String,
        initial_command: Option<String>,
        dest: (usize, usize),
    ) -> (r: ClientMsg)
        ensures
            r == (ClientMsg::Spawn {
                request_id: old(self)@.next_request,
                project_slug,
                worktree_name,
                rows,
                cols,
                cwd,
                initial_command,
            }),
            final(self)@ == (LinkModel {
                spawns: old(self)@.spawns.insert(
                    old(self)@.next_request,
                    PendingSpawn { dest, rows, cols },
                ),
                next_request: next_number(old(self)@.next_request),
                ..old(self)@
            }),
    {
        let request_id: u64 = self.take_number();
        self.pending_spawns.insert(request_id, PendingSpawn { dest, rows, cols });
        ClientMsg::Spawn {
            request_id,
            project_slug,
            worktree_name,
            rows,
            cols,
            cwd,
            initial_command,
        }
    }

    pub fn kill(&self, id: u64) -> (r: ClientMsg)
        ensures
            r == (ClientMsg::Kill { id }),
    {
        ClientMsg::Kill { id }
    }

    pub fn shutdown_supervisor(&self) -> (r: ClientMsg)
        ensures
            r == ClientMsg::Shutdown,
    {
        ClientMsg::Shutdown
    }

    pub fn subscribe_usage(&self) -> (r: ClientMsg)
        ensures
            r == ClientMsg::SubscribeUsage,
    {
        ClientMsg::SubscribeUsage
    }

    pub fn unsubscribe_usage(&self) -> (r: ClientMsg)
        ensures
            r == ClientMsg::UnsubscribeUsage,
    {
        ClientMsg::UnsubscribeUsage
    }

    /// Allocate a `request_id`, record the continuation, and frame the `Op`.
    fn send_op(&mut self, pending: PendingOp, req: OpRequest) -> (r: ClientMsg)
        ensures
            r == (ClientMsg::Op { request_id: old(self)@.next_request, req }),
            final(self)@ == op_asked(old(self)@, pending),
    {
        let request_id: u64 = self.take_number();
        self.pending_ops.insert(request_id, pending);
        ClientMsg::Op { request_id, req }
    }

    /// Validate a path as a git repo (supervisor-side). The answer brings
    /// `Action::ProjectValidated`; the reducer then derives the slug and
    /// persists the project (config logic stays client-side).
    pub fn request_open_project(
        &mut self,
        supervisor: SupervisorId,
        repo_path: String,
        setup_script: Option<String>,
        import_existing: bool,
    ) -> (r: ClientMsg)
        ensures
            r == (ClientMsg::Op {
                request_id: old(self)@.next_request,
                req: open_work(supervisor, repo_path, setup_script, import_existing).1,
            }),
            final(self)@ == op_asked(
                old(self)@,
                open_work(supervisor, repo_path, setup_script, import_existing).0,
            ),
    {
        self.send_op(
            PendingOp::OpenProject { supervisor, setup_script, import_existing },
            OpRequest::Validate { repo_path },
        )
    }

    /// List a directory on this supervisor for the open-project browser.
    pub fn request_list_dir(&mut self, path: Option<String>) -> (r: ClientMsg)
        ensures
            r == (ClientMsg::Op {
                request_id: old(self)@.next_request,
                req: list_work(path).1,
            }),
            final(self)@ == op_asked(old(self)@, list_work(path).0),
    {
        self.send_op(PendingOp::ListDir, OpRequest::ListDir { path })
    }

    pub fn request_import_worktrees(&mut self, project_idx: usize, repo_path: String) -> (r:
        ClientMsg)
        ensures
            r == (ClientMsg::Op {
                request_id: old(self)@.next_request,
                req: import_work(project_idx, repo_path).1,
            }),
            final(self)@ == op_asked(old(self)@, import_work(project_idx, repo_path).0),
    {
        self.send_op(
            PendingOp::ImportWorktrees { project_idx },
            OpRequest::ListWorktrees { repo_path },
        )
    }

    pub fn request_add_worktree(
        &mut self,
        project_idx: usize,
        repo_path: String,
        branch: String,
    ) -> (r: ClientMsg)
        ensures
            r == (ClientMsg::Op {
                request_id: old(self)@.next_request,
                req: add_work(project_idx, repo_path, branch).1,
            }),
            final(self)@ == op_asked(old(self)@, add_work(project_idx, repo_path, branch).0),
    {
        self.send_op(
            PendingOp::AddWorktree { project_idx },
            OpRequest::WorktreeAdd { repo_path, branch },
        )
    }

    pub fn request_remove_worktree(
        &mut self,
        project_idx: usize,
        worktree_idx: usize,
        repo_path: String,
        dest_path: String,
        branch: Option<String>,
    ) -> (r: ClientMsg)
        ensures
            r == (ClientMsg::Op {
                request_id: old(self)@.next_request,
                req: remove_work(project_idx, worktree_idx, repo_path, dest_path, branch).1,
            }),
            final(self)@ == op_asked(
                old(self)@,
                remove_work(project_idx, worktree_idx, repo_path, dest_path, branch).0,
            ),
    {
        self.send_op(
            PendingOp::RemoveWorktree { project_idx, worktree_idx },
            OpRequest::WorktreeRemove { repo_path, dest_path, branch },
        )
    }

    pub fn request_fetch_pr(
        &mut self,
        project_idx: usize,
        repo_path: String,
        worktrees: Vec<(usize, String)>,
    ) -> (r: ClientMsg)
        ensures
            r == (ClientMsg::Op {
                request_id: old(self)@.next_request,
                req: pr_work(project_idx, repo_path, worktrees).1,
            }),
            final(self)@ == op_asked(old(self)@, pr_work(project_idx, repo_path, worktrees).0),
    {
        self.send_op(
            PendingOp::FetchPr { project_idx },
            OpRequest::FetchPr { repo_path, worktrees },
        )
    }

    /// Takes a message from the supervisor. `fresh` is the client's number for a
    /// session that it opens; it is used up exactly where one was opened.
    pub fn received(&mut self, msg: SupervisorMsg, fresh: SessionId) -> (r: Received)
        ensures
            final(self)@ == link_after(old(self)@, msg, fresh),
            message_means(old(self)@, msg, fresh, r),
    {
        match msg {
            SupervisorMsg::Spawned { request_id, id } => {
                match self.pending_spawns.remove(&request_id) {
                    Some(p) => {
                        self.sessions.insert(id, fresh);
                        Received::Opened {
                            wire: id,
                            rows: p.rows,
                            cols: p.cols,
                            action: Action::SessionSpawned { session: fresh, dest: p.dest },
                        }
                    },
                    None => {
                        assert(self@.spawns =~= old(self)@.spawns);
                        Received::Nothing
                    },
                }
            },
            SupervisorMsg::SpawnFailed { request_id, error } => {
                let _ = self.pending_spawns.remove(&request_id);
                Received::Post(
                    Action::OperationFailed(text::concat2("spawn: ", error.as_str())),
                )
            },
            SupervisorMsg::OutputDump { id, bytes } | SupervisorMsg::OutputDelta { id, bytes } => {
                match self.sessions.get(&id) {
                    Some(session) => Received::Output { session: *session, bytes },
                    None => Received::Nothing,
                }
            },
            SupervisorMsg::Exited { id } => {
                match self.sessions.remove(&id) {
                    Some(global) => Received::Ended {
                        wire: id,
                        action: Action::SessionExited(global),
                    },
                    None => Received::Nothing,
                }
            },
            SupervisorMsg::Detached { reason } => Received::Closed(
                Action::SupervisorLost(self.sup_id, reason),
            ),
            SupervisorMsg::Usage(report) => Received::Post(
                Action::UsageReceived(self.sup_id, report),
            ),
            SupervisorMsg::OpResult { request_id, result } => {
                match self.pending_ops.remove(&request_id) {
                    Some(pending) => match op_result_to_action(pending, result) {
                        Some(a) => Received::Post(a),
                        None => Received::Nothing,
                    },
                    None => Received::Nothing,
                }
            },
        }
    }
}

/// The answer to a piece of work is taken once: a second one for the same
/// request means nothing.
pub proof fn law_answers_are_taken_once(
    m: LinkModel,
    request_id: u64,
    first: OpResult,
    second: OpResult,
    fresh: SessionId,
    r: Received,
)
    requires
        message_means(
            link_after(m, SupervisorMsg::OpResult { request_id, result: first }, fresh),
            SupervisorMsg::OpResult { request_id, result: second },
            fresh,
            r,
        ),
    ensures
        r is Nothing,
{
}

/// A session that was opened under a fresh number is reported by that number
/// when it ends.
pub proof fn law_sessions_keep_their_number(
    m: LinkModel,
    request_id: u64,
    id: u64,
    fresh: SessionId,
    later: SessionId,
    r: Received,
)
    requires
        m.spawns.contains_key(request_id),
        message_means(
            link_after(m, SupervisorMsg::Spawned { request_id, id }, fresh),
            SupervisorMsg::Exited { id },
            later,
            r,
        ),
    ensures
        r == (Received::Ended { wire: id, action: Action::SessionExited(fresh) }),
{
}

// ---------------------------------------------------------------------------
// The handshake
// ---------------------------------------------------------------------------

/// What the client says first.
pub fn handshake_request(client_pid: u32) -> (r: HandshakeReq)
    ensures
        r == (HandshakeReq { protocol: PROTOCOL_VERSION, client_pid }),
{
    HandshakeReq { protocol: PROTOCOL_VERSION, client_pid }
}

/// The message for a supervisor that speaks another protocol.
pub open spec fn mismatch_message(theirs: u32) -> Seq<char> {
    "supervisor protocol v"@ + text::decimal(theirs as nat) + ", client v"@ + text::decimal(
        PROTOCOL_VERSION as nat,
    ) + " — run `:restart-supervisor` from another imbuia"@
}

/// What the supervisor's reply comes to: its sessions, or why there is no
/// connection.
pub fn handshake_outcome(resp: HandshakeResp) -> (r: Result<Vec<SessionMeta>, String>)
    ensures
        match resp {
            HandshakeResp::Accepted { supervisor_pid: _, sessions } => r == Ok::<
                Vec<SessionMeta>,
                String,
            >(sessions),
            HandshakeResp::VersionMismatch { supervisor_protocol } => r matches Err(e) && e@
                == mismatch_message(supervisor_protocol),
        },
{
    match resp {
        HandshakeResp::Accepted { supervisor_pid: _, sessions } => Ok(sessions),
        HandshakeResp::VersionMismatch { supervisor_protocol } => {
            let mut s = text::concat3(
                "supervisor protocol v",
                text::to_decimal(supervisor_protocol as u64).as_str(),
                ", client v",
            );
            s.push_str(text::to_decimal(PROTOCOL_VERSION as u64).as_str());
            s.push_str(" — run `:restart-supervisor` from another imbuia");
            Err(s)
        },
    }
}

// ---------------------------------------------------------------------------
// All connections
// ---------------------------------------------------------------------------

/// One supervisor that is configured.
#[derive(Debug)]
pub struct SupervisorEntry {
    pub id: SupervisorId,
    pub name: String,
    /// Remote URL (`host:port`) to (re)dial; `None` for the local supervisor.
    pub url: Option<String>,
    pub connected: bool,
}

/// A configured supervisor in the abstract.
pub struct EntryModel {
    pub id: SupervisorId,
    pub name: Seq<char>,
    pub url: Option<Seq<char>>,
    pub connected: bool,
}

impl View for SupervisorEntry {
    type V = EntryModel;

    open spec fn view(&self) -> EntryModel {
        EntryModel {
            id: self.id,
            name: self.name@,
            url: text::opt_text(self.url),
            connected: self.connected,
        }
    }
}

/// The entries of a list.
pub open spec fn entry_models(v: Seq<SupervisorEntry>) -> Seq<EntryModel> {
    Seq::new(v.len(), |i: int| v[i]@)
}

/// All supervisors: the always-present local one plus every configured remote.
/// The reducer-facing [`SupervisorDirectory`] is derived from this.
#[derive(Debug)]
pub struct Supervisors {
    entries: Vec<SupervisorEntry>,
}

impl View for Supervisors {
    type V = Seq<EntryModel>;

    closed spec fn view(&self) -> Seq<EntryModel> {
        entry_models(self.entries@)
    }
}

/// Where the first entry for `id` from `from` on stands.
pub open spec fn entry_place(s: Seq<EntryModel>, id: SupervisorId, from: int) -> Option<int>
    decreases s.len() - from,
{
    if from < 0 || from >= s.len() {
        None
    } else if s[from].id == id {
        Some(from)
    } else {
        entry_place(s, id, from + 1)
    }
}

/// Whether a supervisor is connected.
pub open spec fn up(s: Seq<EntryModel>, id: SupervisorId) -> bool {
    match entry_place(s, id, 0) {
        Some(i) => s[i].connected,
        None => false,
    }
}

/// The entries with a supervisor's connection up or down.
pub open spec fn with_connected(s: Seq<EntryModel>, id: SupervisorId, connected: bool) -> Seq<
    EntryModel,
> {
    match entry_place(s, id, 0) {
        Some(i) => s.update(i, EntryModel { connected, ..s[i] }),
        None => s,
    }
}

/// The entries when the local supervisor is connected and no remote is yet. The
/// remotes are numbered from 1 in the order of the config.
pub open spec fn seeded(remotes: Seq<(Seq<char>, Seq<char>)>) -> Seq<EntryModel> {
    Seq::new(
        remotes.len() + 1,
        |i: int|
            if i == 0 {
                EntryModel {
                    id: crate::app::local_id(),
                    name: "local"@,
                    url: None,
                    connected: true,
                }
            } else {
                EntryModel {
                    id: SupervisorId(i as u32),
                    name: remotes[i - 1].0,
                    url: Some(remotes[i - 1].1),
                    connected: false,
                }
            },
    )
}

/// The remotes among the first `n` entries that are not connected.
pub open spec fn remotes_down(s: Seq<EntryModel>, n: nat) -> Seq<(SupervisorId, Seq<char>)>
    decreases n,
{
    if n == 0 {
        seq![]
    } else {
        let e = s[n - 1];
        let before = remotes_down(s, (n - 1) as nat);
        match e.url {
            Some(u) => if e.connected {
                before
            } else {
                before.push((e.id, u))
            },
            None => before,
        }
    }
}

/// The supervisors among the first `n` entries that are connected.
pub open spec fn ups(s: Seq<EntryModel>, n: nat) -> Seq<SupervisorId>
    decreases n,
{
    if n == 0 {
        seq![]
    } else if s[n - 1].connected {
        ups(s, (n - 1) as nat).push(s[n - 1].id)
    } else {
        ups(s, (n - 1) as nat)
    }
}

/// The directory that the entries make.
pub open spec fn directory_of(s: Seq<EntryModel>) -> DirectoryModel {
    DirectoryModel {
        entries: Seq::new(s.len(), |i: int| (s[i].id, s[i].name)),
        connected: ups(s, s.len()),
    }
}

/// The numbers and addresses in a list.
pub open spec fn addressed(v: Seq<(SupervisorId, String)>) -> Seq<(SupervisorId, Seq<char>)> {
    Seq::new(v.len(), |i: int| (v[i].0, v[i].1@))
}

/// The names and addresses of remotes.
pub open spec fn remote_urls(v: Seq<(String, RemoteConfig)>) -> Seq<(Seq<char>, Seq<char>)> {
    Seq::new(v.len(), |i: int| (v[i].0@, v[i].1.url@))
}

impl Supervisors {
    /// The local supervisor, connected, and an entry for every remote as
    /// **disconnected**; remotes are dialed afterwards.
    pub fn seed(remotes: &Vec<(String, RemoteConfig)>) -> (r: Supervisors)
        requires
            remotes@.len() < u32::MAX,
        ensures
            r@ == seeded(remote_urls(remotes@)),
    {
        let ghost want = seeded(remote_urls(remotes@));
        let mut entries: Vec<SupervisorEntry> = Vec::new();
        entries.push(
            SupervisorEntry { id: local(), name: text::owned("local"), url: None, connected: true },
        );
        let mut i: usize = 0;
        assert(entry_models(entries@) =~= want.take(1));
        while i < remotes.len()
            invariant
                i <= remotes.len(),
                remotes@.len() < u32::MAX,
                want == seeded(remote_urls(remotes@)),
                entry_models(entries@) =~= want.take(i + 1),
            decreases remotes.len() - i,
        {
            let ghost before = entries@;
            entries.push(
                SupervisorEntry {
                    id: SupervisorId((i + 1) as u32),
                    name: remotes[i].0.clone(),
                    url: Some(remotes[i].1.url.clone()),
                    connected: false,
                },
            );
            assert(entry_models(entries@) =~= entry_models(before).push(want[i + 1]));
            assert(want.take(i + 2) =~= want.take(i + 1).push(want[i + 1]));
            i += 1;
        }
        assert(want.take(want.len() as int) =~= want);
        Supervisors { entries }
    }

    fn find(&self, id: SupervisorId) -> (r: Option<usize>)
        ensures
            match r {
                Some(i) => entry_place(self@, id, 0) == Some(i as int) && i < self.entries@.len(),
                None => entry_place(self@, id, 0) is None,
            },
    {
        let mut i: usize = 0;
        while i < self.entries.len()
            invariant
                i <= self.entries.len(),
                entry_place(self@, id, 0) == entry_place(self@, id, i as int),
            decreases self.entries.len() - i,
        {
            if self.entries[i].id == id {
                return Some(i);
            }
            i += 1;
        }
        None
    }

    pub fn name_of(&self, id: SupervisorId) -> (r: String)
        ensures
            r@ == directory_of(self@).name_of(id),
    {
        proof {
            lemma_places_agree(self@, id, 0);
        }
        match self.find(id) {
            Some(i) => {
                assert(self@[i as int] == self.entries@[i as int]@);
                self.entries[i].name.clone()
            },
            None => text::owned("local"),
        }
    }

    pub fn is_connected(&self, id: SupervisorId) -> (r: bool)
        ensures
            r == up(self@, id),
    {
        match self.find(id) {
            Some(i) => {
                assert(self@[i as int] == self.entries@[i as int]@);
                self.entries[i].connected
            },
            None => false,
        }
    }

    /// The configured URL for a remote `id`, if any (`None` for local/unknown).
    pub fn url_of(&self, id: SupervisorId) -> (r: Option<String>)
        ensures
            text::opt_text(r) == (match entry_place(self@, id, 0) {
                Some(i) => self@[i].url,
                None => None,
            }),
    {
        match self.find(id) {
            Some(i) => {
                assert(self@[i as int] == self.entries@[i as int]@);
                text::clone_opt(&self.entries[i].url)
            },
            None => None,
        }
    }

    /// A supervisor's connection is up (after a background dial / reconnect).
    pub fn set_client(&mut self, id: SupervisorId)
        ensures
            final(self)@ == with_connected(old(self)@, id, true),
    {
        if let Some(i) = self.find(id) {
            self.entries[i].connected = true;
            assert(self@ =~= with_connected(old(self)@, id, true));
        }
    }

    /// A supervisor's connection is gone (it died / detached); reconnect re-dials.
    pub fn mark_disconnected(&mut self, id: SupervisorId)
        ensures
            final(self)@ == with_connected(old(self)@, id, false),
    {
        if let Some(i) = self.find(id) {
            self.entries[i].connected = false;
            assert(self@ =~= with_connected(old(self)@, id, false));
        }
    }

    /// `(id, url)` for every configured remote not currently connected — the
    /// set the runtime dials in the background at startup and on `:reconnect`.
    pub fn disconnected_remotes(&self) -> (r: Vec<(SupervisorId, String)>)
        ensures
            addressed(r@) == remotes_down(self@, self@.len()),
    {
        let mut out: Vec<(SupervisorId, String)> = Vec::new();
        let mut i: usize = 0;
        assert(addressed(out@) =~= seq![]);
        while i < self.entries.len()
            invariant
                i <= self.entries.len(),
                addressed(out@) == remotes_down(self@, i as nat),
            decreases self.entries.len() - i,
        {
            let ghost before = out@;
            let e = &self.entries[i];
            assert(self@[i as int] == e@);
            if let Some(u) = &e.url {
                if !e.connected {
                    out.push((e.id, u.clone()));
                    assert(addressed(out@) =~= addressed(before).push((e.id, u@)));
                }
            }
            i += 1;
        }
        out
    }

    /// Every currently-connected supervisor (for usage fan-out, rebind).
    pub fn connected(&self) -> (r: Vec<SupervisorId>)
        ensures
            r@ == ups(self@, self@.len()),
    {
        let mut out: Vec<SupervisorId> = Vec::new();
        let mut i: usize = 0;
        while i < self.entries.len()
            invariant
                i <= self.entries.len(),
                out@ == ups(self@, i as nat),
            decreases self.entries.len() - i,
        {
            assert(self@[i as int] == self.entries@[i as int]@);
            if self.entries[i].connected {
                out.push(self.entries[i].id);
            }
            i += 1;
        }
        out
    }

    /// id↔name + connected-set projection for `AppState`.
    pub fn directory(&self) -> (r: SupervisorDirectory)
        ensures
            r@ == directory_of(self@),
    {
        let ghost want = directory_of(self@).entries;
        let mut entries: Vec<(SupervisorId, String)> = Vec::new();
        let mut i: usize = 0;
        while i < self.entries.len()
            invariant
                i <= self.entries.len(),
                want == directory_of(self@).entries,
                crate::app::named_ids(entries@) =~= want.take(i as int),
            decreases self.entries.len() - i,
        {
            let ghost before = entries@;
            assert(self@[i as int] == self.entries@[i as int]@);
            entries.push((self.entries[i].id, self.entries[i].name.clone()));
            assert(crate::app::named_ids(entries@) =~= crate::app::named_ids(before).push(
                want[i as int],
            ));
            assert(want.take(i + 1) =~= want.take(i as int).push(want[i as int]));
            i += 1;
        }
        assert(want.take(want.len() as int) =~= want);
        SupervisorDirectory { entries, connected: self.connected() }
    }
}

proof fn lemma_places_agree(s: Seq<EntryModel>, id: SupervisorId, from: int)
    requires
        0 <= from,
    ensures
        directory_of(s).place(id, from) == entry_place(s, id, from),
    decreases s.len() - from,
{
    if from < s.len() && s[from].id != id {
        lemma_places_agree(s, id, from + 1);
    }
}

/// A supervisor that is listed is connected once its connection is up, and not
/// once it is gone.
pub proof fn law_connections_are_remembered(s: Seq<EntryModel>, id: SupervisorId, connected: bool)
    requires
        entry_place(s, id, 0) is Some,
    ensures
        up(with_connected(s, id, connected), id) == connected,
{
    let i = entry_place(s, id, 0)->Some_0;
    lemma_first_place(s, id, 0);
    let t = with_connected(s, id, connected);
    lemma_place_is(t, id, i, 0);
}

proof fn lemma_first_place(s: Seq<EntryModel>, id: SupervisorId, from: int)
    requires
        0 <= from,
        entry_place(s, id, from) is Some,
    ensures
        ({
            let i = entry_place(s, id, from)->Some_0;
            &&& from <= i < s.len()
            &&& s[i].id == id
            &&& forall|j: int| from <= j < i ==> (#[trigger] s[j]).id != id
        }),
    decreases s.len() - from,
{
    if s[from].id != id {
        lemma_first_place(s, id, from + 1);
    }
}

proof fn lemma_place_is(s: Seq<EntryModel>, id: SupervisorId, i: int, from: int)
    requires
        0 <= from <= i < s.len(),
        s[i].id == id,
        forall|j: int| from <= j < i ==> (#[trigger] s[j]).id != id,
    ensures
        entry_place(s, id, from) == Some(i),
    decreases i - from,
{
    if from < i {
        assert(s[from].id != id);
        lemma_place_is(s, id, i, from + 1);
    }
}

} // verus!
