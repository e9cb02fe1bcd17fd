//! What the client and a supervisor say to each other, and how messages are
//! framed: a 4-byte big-endian length, then the message.

use crate::app::PrStatus;
use crate::paths;
use crate::session::SessionId;
use crate::text;
use vstd::prelude::*;

verus! {

pub const PROTOCOL_VERSION: u32 = 1;

/// The longest message that is framed: 8 MiB.
pub const MAX_FRAME: u32 = 8_388_608;

/// The most that one clipboard upload may hold: 4 MiB.
pub const MAX_UPLOAD_BYTES: usize = 4_194_304;

#[derive(Debug, Clone)]
pub struct SessionMeta {
    pub id: SessionId,
    pub project_slug: String,
    pub worktree_name: String,
    pub cwd: String,
    pub rows: u16,
    pub cols: u16,
}

#[derive(Debug, Clone, Copy, PartialEq, Eq, Structural)]
pub struct HandshakeReq {
    pub protocol: u32,
    pub client_pid: u32,
}

#[derive(Debug, Clone)]
pub enum HandshakeResp {
    Accepted { supervisor_pid: u32, sessions: Vec<SessionMeta> },
    VersionMismatch { supervisor_protocol: u32 },
}

/// Work that a supervisor does on its own host.
#[derive(Debug, Clone)]
pub enum OpRequest {
    Validate { repo_path: String },
    ListDir { path: Option<String> },
    ListWorktrees { repo_path: String },
    WorktreeAdd { repo_path: String, branch: String },
    WorktreeRemove { repo_path: String, dest_path: String, branch: Option<String> },
    FetchPr { repo_path: String, worktrees: Vec<(usize, String)> },
}

/// What a validated path turned out to be.
#[derive(Debug, Clone)]
pub struct RepoInfo {
    pub canonical_path: String,
    pub repo_name: String,
    pub head_branch: Option<String>,
}

/// One worktree as a supervisor reports it.
#[derive(Debug, Clone)]
pub struct WorktreeEntry {
    pub path: String,
    pub branch: Option<String>,
}

/// One directory in a listing.
#[derive(Debug, Clone)]
pub struct DirEntry {
    pub name: String,
    pub is_repo: bool,
}

/// What the work gave.
#[derive(Debug, Clone)]
pub enum OpOk {
    Validated(RepoInfo),
    DirListing { dir: String, parent: Option<String>, entries: Vec<DirEntry> },
    Worktrees(Vec<WorktreeEntry>),
    WorktreeAdded(WorktreeEntry),
    WorktreeRemoved,
    PrStatuses(Vec<(usize, Option<PrStatus>)>),
}

pub type OpResult = Result<OpOk, String>;

#[derive(Debug, Clone)]
pub enum ClientMsg {
    Spawn {
        request_id: u64,
        project_slug: String,
        worktree_name: String,
        rows: u16,
        cols: u16,
        cwd: String,
        initial_command: Option<String>,
    },
    /// Already-encoded keystroke / mouse / paste bytes to write to the PTY.
    WriteBytes { id: SessionId, bytes: Vec<u8> },
    Resize { id: SessionId, rows: u16, cols: u16 },
    Kill { id: SessionId },
    /// Re-request a fresh `OutputDump` for the given session (e.g. after attach).
    Attach { id: SessionId },
    /// Kill all PTYs and exit the supervisor cleanly.
    Shutdown,
    /// Start emitting `Usage` frames at ~1 Hz. Idempotent.
    SubscribeUsage,
    /// Stop emitting `Usage` frames.
    UnsubscribeUsage,
    /// Do a piece of work and answer with `OpResult`.
    Op { request_id: u64, req: OpRequest },
}

#[derive(Debug)]
pub enum SupervisorMsg {
    Spawned { request_id: u64, id: SessionId },
    SpawnFailed { request_id: u64, error: String },
    /// Snapshot of the current screen — sent in response to `Attach` or right
    /// after a successful `Spawn`.
    OutputDump { id: SessionId, bytes: Vec<u8> },
    /// Live PTY output bytes since the last frame.
    OutputDelta { id: SessionId, bytes: Vec<u8> },
    Exited { id: SessionId },
    /// Sent right before the supervisor closes the socket on this client
    /// (another client stole the slot, or shutdown was requested).
    Detached { reason: String },
    /// Periodic snapshot of resource usage. Emitted while subscribed.
    Usage(UsageReport),
    /// The answer to an `Op`.
    OpResult { request_id: u64, result: OpResult },
}

/// Snapshot of process resource usage across all supervised sessions.
#[derive(Debug)]
pub struct UsageReport {
    pub sessions: Vec<SessionUsage>,
    /// Supervisor process itself (memory + cpu).
    pub supervisor: ProcessNode,
    /// Client (TUI) process — supplied at handshake. `None` if the
    /// supervisor couldn't sample the PID this tick.
    pub client: Option<ProcessNode>,
    pub ts_ms: u64,
    /// Number of logical CPU cores on the host.
    pub cpu_count: u32,
}

#[derive(Debug)]
pub struct SessionUsage {
    pub session_id: SessionId,
    pub project_slug: String,
    pub worktree_name: String,
    /// Tree rooted at the PTY's direct child (the user's shell).
    pub root: ProcessNode,
}

/// One process in a session's descendant tree.
#[derive(Debug)]
pub struct ProcessNode {
    pub pid: u32,
    pub name: String,
    /// Resident set size in bytes (includes shared pages — OS limitation).
    pub rss_bytes: u64,
    /// % of a single CPU core (matches `top` / `htop` convention), as the bits
    /// of the single-precision number.
    pub cpu_bits: u32,
    pub children: Vec<ProcessNode>,
}

/// The resident bytes of a process and all its descendants.
pub open spec fn rss_of(node: ProcessNode) -> nat
    decreases node,
{
    node.rss_bytes as nat + rss_of_all(node.children@)
}

/// The resident bytes of several processes and all their descendants.
pub open spec fn rss_of_all(nodes: Seq<ProcessNode>) -> nat
    decreases nodes,
{
    if nodes.len() == 0 {
        0
    } else {
        rss_of(nodes[0]) + rss_of_all(nodes.subrange(1, nodes.len() as int))
    }
}

impl ProcessNode {
    /// Sum rss_bytes across this node + every descendant.
    pub fn total_rss(&self) -> (r: u64)
        requires
            rss_of(*self) <= u64::MAX,
        ensures
            r == rss_of(*self),
    {
        match self.checked_total_rss() {
            Some(n) => n,
            None => u64::MAX,
        }
    }

    /// As `total_rss`, for any tree: none where the sum cannot be counted.
    pub fn checked_total_rss(&self) -> (r: Option<u64>)
        ensures
            r == if rss_of(*self) <= u64::MAX {
                Some(rss_of(*self) as u64)
            } else {
                None::<u64>
            },
        decreases self,
    {
        let mut sum: u64 = self.rss_bytes;
        let mut i: usize = 0;
        assert(self.children@.subrange(0, self.children@.len() as int) =~= self.children@);
        while i < self.children.len()
            invariant
                i <= self.children.len(),
                sum + rss_of_all(
                    self.children@.subrange(i as int, self.children@.len() as int),
                ) == rss_of(*self),
            decreases self.children.len() - i,
        {
            let ghost rest = self.children@.subrange(i as int, self.children@.len() as int);
            proof {
                assert(rest[0] == self.children[i as int]);
                assert(rest.subrange(1, rest.len() as int) =~= self.children@.subrange(
                    i + 1,
                    self.children@.len() as int,
                ));
            }
            let child = &self.children[i];
            assert(decreases_to!(self.children@ => self.children@[i as int]));
            let below: u64 = match child.checked_total_rss() {
                Some(n) => n,
                None => return None,
            };
            if below > u64::MAX - sum {
                return None;
            }
            sum = sum + below;
            i += 1;
        }
        Some(sum)
    }
}

// ---------------------------------------------------------------------------
// Frames
// ---------------------------------------------------------------------------

/// A length as four bytes, the highest first.
pub open spec fn length_bytes(n: u32) -> Seq<u8> {
    seq![
        (n / 16777216) as u8,
        (n / 65536 % 256) as u8,
        (n / 256 % 256) as u8,
        (n % 256) as u8,
    ]
}

/// The length that four bytes say, the highest first.
pub open spec fn length_in(header: Seq<u8>) -> int {
    header[0] * 16777216 + header[1] * 65536 + header[2] * 256 + header[3]
}

/// A message with its length in front; none when it is too long.
pub fn write_frame(payload: &Vec<u8>) -> (r: Option<Vec<u8>>)
    ensures
        r is Some <==> payload@.len() <= MAX_FRAME,
        r matches Some(f) ==> f@ == length_bytes(payload@.len() as u32) + payload@,
{
    if payload.len() > MAX_FRAME as usize {
        return None;
    }
    let n: u32 = payload.len() as u32;
    let mut out: Vec<u8> = Vec::new();
    out.push((n / 16777216) as u8);
    out.push((n / 65536 % 256) as u8);
    out.push((n / 256 % 256) as u8);
    out.push((n % 256) as u8);
    assert(out@ =~= length_bytes(n));
    let mut i: usize = 0;
    while i < payload.len()
        invariant
            i <= payload.len(),
            n == payload@.len(),
            out@ == length_bytes(n) + payload@.take(i as int),
        decreases payload.len() - i,
    {
        out.push(payload[i]);
        i += 1;
    }
    assert(payload@.take(payload@.len() as int) =~= payload@);
    Some(out)
}

/// The length of the message that follows a header; none when it is too long to
/// be one.
pub fn read_frame_len(header: &[u8; 4]) -> (r: Option<u32>)
    ensures
        r is Some <==> length_in(header@) <= MAX_FRAME,
        r matches Some(n) ==> n == length_in(header@),
{
    let n: u32 = header[0] as u32 * 16777216 + header[1] as u32 * 65536 + header[2] as u32 * 256
        + header[3] as u32;
    if n > MAX_FRAME {
        None
    } else {
        Some(n)
    }
}

/// A reader learns from a frame's header how long its message is, so that frames
/// that follow each other come apart again.
pub proof fn law_frames_come_apart(payload: Seq<u8>, rest: Seq<u8>)
    requires
        payload.len() <= MAX_FRAME,
    ensures
        ({
            let stream = length_bytes(payload.len() as u32) + payload + rest;
            &&& length_in(stream.take(4)) == payload.len()
            &&& stream.subrange(4, 4 + payload.len() as int) == payload
            &&& stream.skip(4 + payload.len() as int) == rest
        }),
{
    let n = payload.len() as u32;
    let stream = length_bytes(n) + payload + rest;
    assert(stream.take(4) =~= length_bytes(n));
    assert(stream.subrange(4, 4 + payload.len() as int) =~= payload);
    assert(stream.skip(4 + payload.len() as int) =~= rest);
}

// ---------------------------------------------------------------------------
// Where the supervisor's files lie
// ---------------------------------------------------------------------------

/// The socket's path, from the variables that may name its directory.
pub open spec fn socket_path(
    runtime: Option<Seq<char>>,
    cache: Option<Seq<char>>,
    home: Option<Seq<char>>,
) -> Seq<char> {
    let base = match runtime {
        Some(d) => d,
        None => match cache {
            Some(d) => d,
            None => match home {
                Some(h) => paths::joined(h, ".cache"@),
                None => "."@,
            },
        },
    };
    paths::joined(paths::joined(base, "imbuia"@), "sock"@)
}

/// Resolve the Unix-domain-socket path used by the supervisor.
///
/// Prefers `$XDG_RUNTIME_DIR/imbuia/sock` (Linux convention), then
/// `$XDG_CACHE_HOME/imbuia/sock`, then `~/.cache/imbuia/sock`.
pub fn resolve_socket_path(
    runtime: Option<String>,
    cache: Option<String>,
    home: Option<String>,
) -> (r: String)
    ensures
        r@ == socket_path(text::opt_text(runtime), text::opt_text(cache), text::opt_text(home)),
{
    let base = match runtime {
        Some(d) => d,
        None => match cache {
            Some(d) => d,
            None => match home {
                Some(h) => paths::join(h.as_str(), ".cache"),
                None => text::owned("."),
            },
        },
    };
    let dir = paths::join(base.as_str(), "imbuia");
    paths::join(dir.as_str(), "sock")
}

/// The file beside the socket that holds the supervisor's process number.
pub fn pidfile_path(sock: &str) -> (r: String)
    ensures
        r@ == paths::renamed(sock@, "supervisor.pid"@),
        forall|dir: Seq<char>, last: Seq<char>|
            sock@ == #[trigger] paths::file_in(dir, last) && paths::tidy_dir(dir)
                && paths::is_file_name(last) ==> r@ == paths::file_in(dir, "supervisor.pid"@),
{
    proof {
        reveal_strlit("supervisor.pid");
    }
    paths::with_file_name(sock, "supervisor.pid")
}

/// The supervisor's log, beside the socket.
pub fn supervisor_log_path(sock: &str) -> (r: String)
    ensures
        r@ == paths::renamed(sock@, "supervisor.log"@),
        forall|dir: Seq<char>, last: Seq<char>|
            sock@ == #[trigger] paths::file_in(dir, last) && paths::tidy_dir(dir)
                && paths::is_file_name(last) ==> r@ == paths::file_in(dir, "supervisor.log"@),
{
    proof {
        reveal_strlit("supervisor.log");
    }
    paths::with_file_name(sock, "supervisor.log")
}

} // verus!
