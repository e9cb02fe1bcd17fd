//! The supervisor's state: what each session has printed, who is attached, and
//! what a client's messages ask for.

use crate::client::next_number;
use crate::emulator::{
    cuts_none, dims, fresh, reshaped, roomy, shown_by, taken_in, whole, Terminal, SCROLLBACK,
};
use crate::input::{fed, fresh_tracker, prelude_text, push_bytes, KbdTracker};
use crate::ipc::{
    ClientMsg, HandshakeReq, HandshakeResp, OpRequest, SessionMeta, SupervisorMsg,
    PROTOCOL_VERSION,
};
use crate::paths;
use crate::screen::{contents_formatted, drawn, mode_prelude, mode_sequences, modes};
use crate::session::SessionId;
use crate::text;
use std::collections::VecDeque;
use vstd::prelude::*;
use vstd::utf8::encode_utf8;
use vt100::Screen;

verus! {

// ---------------------------------------------------------------------------
// The replay log
// ---------------------------------------------------------------------------

/// Per-session cap on the raw-byte replay log. Sized so a packed text dump
/// of vt100's 10k scrollback fits with headroom for ANSI escapes. Eviction
/// drops from the front; see [`push_output_log`].
pub const OUTPUT_LOG_CAP: usize = 2_097_152;

/// How far behind the cut a newline is looked for.
pub const NEWLINE_WINDOW: usize = 4096;

/// Raw-byte replay buffer with a "we've evicted bytes" flag. Once truncated,
/// a dump prefers the screen's formatted contents over the (now possibly
/// mid-escape) buffer — sacrificing scrollback history to avoid color smears
/// from replaying into the middle of a CSI sequence.
#[derive(Debug)]
pub struct OutputLog {
    pub buf: VecDeque<u8>,
    pub truncated: bool,
}

/// A log in the abstract.
pub struct LogModel {
    pub buf: Seq<u8>,
    pub truncated: bool,
}

impl View for OutputLog {
    type V = LogModel;

    open spec fn view(&self) -> LogModel {
        LogModel { buf: self.buf@, truncated: self.truncated }
    }
}

impl Default for OutputLog {
    fn default() -> (r: OutputLog)
        ensures
            r@ == (LogModel { buf: seq![], truncated: false }),
    {
        let r = OutputLog { buf: VecDeque::new(), truncated: false };
        assert(r@.buf =~= seq![]);
        r
    }
}

/// Where the first newline stands among the bytes from `from` up to `to`.
pub open spec fn newline_at(s: Seq<u8>, from: int, to: int) -> Option<int>
    decreases to - from,
{
    if from >= to {
        None
    } else if s[from] == 10 {
        Some(from)
    } else {
        newline_at(s, from + 1, to)
    }
}

/// The log with a chunk behind it. What is over the cap goes from the front, and
/// with it what is left of the line that was cut, if that ends soon; if it does
/// not, the log is marked.
pub open spec fn logged(log: LogModel, chunk: Seq<u8>) -> LogModel {
    let all = log.buf + chunk;
    if all.len() <= OUTPUT_LOG_CAP {
        LogModel { buf: all, ..log }
    } else {
        let kept = all.skip(all.len() - OUTPUT_LOG_CAP);
        match newline_at(kept, 0, NEWLINE_WINDOW as int) {
            Some(at) => LogModel { buf: kept.skip(at + 1), ..log },
            None => LogModel { buf: kept, truncated: true },
        }
    }
}

fn drop_front(buf: &mut VecDeque<u8>, n: usize)
    requires
        n <= old(buf)@.len(),
    ensures
        final(buf)@ == old(buf)@.skip(n as int),
{
    let mut i: usize = 0;
    assert(buf@ =~= old(buf)@.skip(0));
    while i < n
        invariant
            i <= n <= old(buf)@.len(),
            buf@ == old(buf)@.skip(i as int),
        decreases n - i,
    {
        let _ = buf.pop_front();
        assert(buf@ =~= old(buf)@.skip(i + 1));
        i += 1;
    }
}

fn append(buf: &mut VecDeque<u8>, chunk: &[u8])
    ensures
        final(buf)@ == old(buf)@ + chunk@,
{
    let mut i: usize = 0;
    assert(buf@ =~= old(buf)@ + chunk@.take(0));
    while i < chunk.len()
        invariant
            i <= chunk.len(),
            buf@ == old(buf)@ + chunk@.take(i as int),
        decreases chunk.len() - i,
    {
        buf.push_back(chunk[i]);
        assert(buf@ =~= old(buf)@ + chunk@.take(i + 1));
        i += 1;
    }
    assert(chunk@.take(chunk@.len() as int) =~= chunk@);
}

fn find_newline(buf: &VecDeque<u8>, window: usize) -> (r: Option<usize>)
    requires
        window <= buf@.len(),
    ensures
        match r {
            Some(i) => i < window && newline_at(buf@, 0, window as int) == Some(i as int),
            None => newline_at(buf@, 0, window as int) is None,
        },
{
    let mut i: usize = 0;
    while i < window
        invariant
            i <= window <= buf@.len(),
            newline_at(buf@, 0, window as int) == newline_at(buf@, i as int, window as int),
        decreases window - i,
    {
        if buf[i] == 10 {
            return Some(i);
        }
        i += 1;
    }
    None
}

/// Append `chunk` to the per-session replay log, evicting from the front to
/// stay within [`OUTPUT_LOG_CAP`]. After enforcing the cap, advance the head
/// to the next newline (within a small window) so replay doesn't start mid
/// escape sequence; if no newline is found in-window, mark the log truncated
/// so a dump falls back to the screen's formatted contents.
pub fn push_output_log(log: &mut OutputLog, chunk: &[u8])
    ensures
        final(log)@ == logged(old(log)@, chunk@),
{
    append(&mut log.buf, chunk);
    let n: usize = log.buf.len();
    if n > OUTPUT_LOG_CAP {
        let ghost all = log.buf@;
        drop_front(&mut log.buf, n - OUTPUT_LOG_CAP);
        match find_newline(&log.buf, NEWLINE_WINDOW) {
            Some(at) => drop_front(&mut log.buf, at + 1),
            None => {
                log.truncated = true;
            },
        }
    }
}

proof fn lemma_newline(s: Seq<u8>, from: int, to: int)
    requires
        0 <= from,
        to <= s.len(),
    ensures
        newline_at(s, from, to) matches Some(i) ==> from <= i < to && s[i] == 10,
    decreases to - from,
{
    if from < to && s[from] != 10 {
        lemma_newline(s, from + 1, to);
    }
}

/// The log never grows over its cap, and holds the end of what was printed.
pub proof fn law_logs_hold_the_latest(log: LogModel, chunk: Seq<u8>)
    ensures
        logged(log, chunk).buf.len() <= OUTPUT_LOG_CAP,
        exists|n: int|
            0 <= n <= (log.buf + chunk).len() && logged(log, chunk).buf == #[trigger] (log.buf
                + chunk).skip(n),
{
    let all = log.buf + chunk;
    if all.len() <= OUTPUT_LOG_CAP {
        assert(all.skip(0) =~= all);
    } else {
        let cut = all.len() - OUTPUT_LOG_CAP;
        let kept = all.skip(cut);
        lemma_newline(kept, 0, NEWLINE_WINDOW as int);
        match newline_at(kept, 0, NEWLINE_WINDOW as int) {
            Some(at) => {
                assert(kept.skip(at + 1) =~= all.skip(cut + at + 1));
            },
            None => {
                assert(logged(log, chunk).buf == all.skip(cut));
            },
        }
    }
}

/// A log that was cut but is not marked starts at the start of a line.
pub proof fn law_cut_logs_start_at_a_line(log: LogModel, chunk: Seq<u8>)
    requires
        (log.buf + chunk).len() > OUTPUT_LOG_CAP,
        !logged(log, chunk).truncated,
    ensures
        exists|n: int|
            0 < n <= (log.buf + chunk).len() && logged(log, chunk).buf == #[trigger] (log.buf
                + chunk).skip(n) && (log.buf + chunk)[n - 1] == 10,
{
    let all = log.buf + chunk;
    let cut = all.len() - OUTPUT_LOG_CAP;
    let kept = all.skip(cut);
    lemma_newline(kept, 0, NEWLINE_WINDOW as int);
    let at = newline_at(kept, 0, NEWLINE_WINDOW as int)->Some_0;
    assert(kept.skip(at + 1) =~= all.skip(cut + at + 1));
    assert(all[cut + at] == kept[at]);
}

// ---------------------------------------------------------------------------
// Dumps
// ---------------------------------------------------------------------------

/// What an attaching client is sent for a session: the modes and the keyboard
/// protocol in force, then everything that was printed; the visible contents
/// alone where the log is empty or marked.
pub open spec fn dumped(screen: Screen, kbd: Seq<char>, log: LogModel) -> Seq<u8> {
    encode_utf8(mode_sequences(modes(screen))) + encode_utf8(kbd) + (if log.buf.len() == 0
        || log.truncated {
        drawn(screen)
    } else {
        log.buf
    })
}

/// Replay every PTY byte we've buffered so the client's local vt100 parser
/// rebuilds visible screen *and* scrollback. Always prefixed with a mode
/// prelude (alt-screen / mouse / DECCKM / bracketed paste) derived from the
/// screen's *current* state — its formatted contents don't hold those toggles,
/// and even the raw log can start after their original emission once the buffer
/// rolls over.
///
/// Falls back to the formatted contents if the log is empty (fresh session)
/// or hard-truncated (no newline boundary inside the scan window, so replay
/// could land mid-CSI).
pub fn output_dump(screen: &Screen, kbd: &KbdTracker, log: &OutputLog) -> (r: Vec<u8>)
    ensures
        r@ == dumped(*screen, prelude_text(kbd@), log@),
{
    let mut out = mode_prelude(screen);
    push_bytes(&mut out, kbd.prelude().as_slice());
    if log.buf.len() == 0 || log.truncated {
        push_bytes(&mut out, contents_formatted(screen).as_slice());
    } else {
        let ghost lead = out@;
        let mut i: usize = 0;
        assert(out@ =~= lead + log.buf@.take(0));
        while i < log.buf.len()
            invariant
                i <= log.buf@.len(),
                out@ == lead + log.buf@.take(i as int),
            decreases log.buf@.len() - i,
        {
            out.push(log.buf[i]);
            assert(out@ =~= lead + log.buf@.take(i + 1));
            i += 1;
        }
        assert(log.buf@.take(log.buf@.len() as int) =~= log.buf@);
    }
    out
}

/// What a session's output is fed into.
pub struct Output {
    pub terminal: Terminal,
    pub kbd: KbdTracker,
    pub log: OutputLog,
}

/// Whether `after` is `before` once it took the bytes in: the screen, the keyboard
/// protocol and the log all see the same bytes.
pub open spec fn output_after(before: Output, bytes: Seq<u8>, after: Output) -> bool {
    &&& after.terminal == taken_in(before.terminal, bytes)
    &&& after.kbd@ == fed(before.kbd@, bytes)
    &&& after.log@ == logged(before.log@, bytes)
}

impl Output {
    /// The state of a session that has printed nothing yet.
    pub fn new(rows: u16, cols: u16) -> (r: Output)
        requires
            roomy(rows, cols),
        ensures
            r.terminal.wf(),
            r.terminal == (Terminal {
                emulator: fresh(rows, cols, SCROLLBACK),
                plain: true,
                sure: true,
            }),
            dims(r.terminal.emulator) == (rows, cols),
            r.kbd@ == fresh_tracker(),
            r.log@ == (LogModel { buf: seq![], truncated: false }),
    {
        Output {
            terminal: Terminal::new(rows, cols),
            kbd: KbdTracker::default(),
            log: OutputLog::default(),
        }
    }

    /// Takes in what the session printed.
    pub fn take_in(&mut self, bytes: &[u8])
        requires
            old(self).terminal.wf(),
            whole(old(self).terminal.emulator),
        ensures
            final(self).terminal.wf(),
            output_after(*old(self), bytes@, *final(self)),
            dims(final(self).terminal.emulator) == dims(old(self).terminal.emulator),
            whole(final(self).terminal.emulator),
    {
        self.terminal.take_in(bytes);
        self.kbd.feed(bytes);
        push_output_log(&mut self.log, bytes);
    }

    /// Takes in what the session printed if the screen is sure to hold no cut
    /// character, and says whether it did.
    pub fn try_take_in(&mut self, bytes: &[u8]) -> (r: bool)
        requires
            old(self).terminal.wf(),
        ensures
            final(self).terminal.wf(),
            r == old(self).terminal.sure,
            dims(final(self).terminal.emulator) == dims(old(self).terminal.emulator),
            r ==> output_after(*old(self), bytes@, *final(self)),
            !r ==> *final(self) == *old(self),
    {
        if !self.terminal.sure {
            return false;
        }
        self.take_in(bytes);
        true
    }

    /// Gives the screen another size.
    pub fn resize(&mut self, rows: u16, cols: u16)
        requires
            old(self).terminal.wf(),
            roomy(rows, cols),
        ensures
            final(self).terminal.wf(),
            *final(self) == (Output {
                terminal: reshaped(old(self).terminal, rows, cols),
                ..*old(self)
            }),
            dims(final(self).terminal.emulator) == (rows, cols),
            whole(old(self).terminal.emulator) && cuts_none(old(self).terminal.emulator, cols)
                ==> whole(final(self).terminal.emulator),
    {
        self.terminal.resize(rows, cols);
    }

    /// What an attaching client is sent.
    pub fn dump(&self) -> (r: Vec<u8>)
        ensures
            r@ == dumped(shown_by(self.terminal.emulator), prelude_text(self.kbd@), self.log@),
    {
        output_dump(self.terminal.screen(), &self.kbd, &self.log)
    }
}

// ---------------------------------------------------------------------------
// Spawning
// ---------------------------------------------------------------------------

/// What is typed into a fresh shell to run a command: the command, and a newline
/// unless it ends in one.
pub open spec fn typed_in(command: Seq<char>) -> Seq<u8> {
    let b = encode_utf8(command);
    if b.len() > 0 && b.last() == 10 {
        b
    } else {
        b.push(10)
    }
}

/// What is typed into a fresh shell to run a command.
pub fn initial_input(command: &str) -> (r: Vec<u8>)
    ensures
        r@ == typed_in(command@),
{
    let mut out: Vec<u8> = Vec::new();
    push_bytes(&mut out, command.as_bytes());
    assert(out@ =~= encode_utf8(command@));
    let n: usize = out.len();
    if n == 0 || out[n - 1] != 10 {
        out.push(10);
    }
    out
}

/// Whether a session starts in the supervisor's own directory: where none was
/// given, or `.`.
pub fn starts_here(cwd: &str) -> (r: bool)
    ensures
        r == (cwd@.len() == 0 || paths::same_way(cwd@, "."@)),
{
    cwd.is_empty() || paths::same_path(cwd, ".")
}

/// The user's shell, or the one that is always there.
pub fn shell_or_default(shell: Option<String>) -> (r: String)
    ensures
        r@ == (match shell {
            Some(s) => s@,
            None => "/bin/sh"@,
        }),
{
    match shell {
        Some(s) => s,
        None => text::owned("/bin/sh"),
    }
}

/// What a client is told of a session that it asked for.
pub fn spawn_reply(request_id: u64, result: Result<SessionId, String>) -> (r: SupervisorMsg)
    ensures
        r == (match result {
            Ok(id) => SupervisorMsg::Spawned { request_id, id },
            Err(error) => SupervisorMsg::SpawnFailed { request_id, error },
        }),
{
    match result {
        Ok(id) => SupervisorMsg::Spawned { request_id, id },
        Err(error) => SupervisorMsg::SpawnFailed { request_id, error },
    }
}

// ---------------------------------------------------------------------------
// The registry
// ---------------------------------------------------------------------------

/// The sessions there are, and who is attached.
pub struct Registry {
    sessions: Vec<SessionMeta>,
    next_id: SessionId,
    /// Set when the active client subscribed to usage frames. The sampler
    /// polls this and exits when it goes false.
    usage_subscribed: bool,
    /// True while a usage sampler is alive. Prevents double-spawn.
    usage_thread_alive: bool,
    /// PID of the currently-attached client (from handshake).
    active_client_pid: Option<u32>,
    /// Counts the clients that attached.
    generation: u64,
}

/// A registry in the abstract.
pub struct RegistryModel {
    pub sessions: Seq<SessionMeta>,
    pub next_id: SessionId,
    pub usage_subscribed: bool,
    pub usage_thread_alive: bool,
    pub active_client_pid: Option<u32>,
    pub generation: u64,
}

impl View for Registry {
    type V = RegistryModel;

    closed spec fn view(&self) -> RegistryModel {
        RegistryModel {
            sessions: self.sessions@,
            next_id: self.next_id,
            usage_subscribed: self.usage_subscribed,
            usage_thread_alive: self.usage_thread_alive,
            active_client_pid: self.active_client_pid,
            generation: self.generation,
        }
    }
}

/// Where the first session with that number from `from` on stands.
pub open spec fn meta_place(s: Seq<SessionMeta>, id: SessionId, from: int) -> Option<int>
    decreases s.len() - from,
{
    if from < 0 || from >= s.len() {
        None
    } else if s[from].id == id {
        Some(from)
    } else {
        meta_place(s, id, from + 1)
    }
}

/// Whether there is a session with that number.
pub open spec fn has_session(m: RegistryModel, id: SessionId) -> bool {
    meta_place(m.sessions, id, 0) is Some
}

/// The registry once a client has attached: it takes the place of the one
/// before.
pub open spec fn attached(m: RegistryModel, pid: u32) -> RegistryModel {
    RegistryModel {
        active_client_pid: Some(pid),
        generation: next_number(m.generation),
        ..m
    }
}

/// The registry once a client has gone: nothing changes if another has taken its
/// place meanwhile.
pub open spec fn detached(m: RegistryModel, generation: u64) -> RegistryModel {
    if m.generation == generation {
        RegistryModel { active_client_pid: None, usage_subscribed: false, ..m }
    } else {
        m
    }
}

/// What a client's message asks the supervisor to do.
#[derive(Debug)]
pub enum Deed {
    Nothing,
    Spawn {
        request_id: u64,
        project_slug: String,
        worktree_name: String,
        rows: u16,
        cols: u16,
        cwd: String,
        initial_command: Option<String>,
    },
    Write { id: SessionId, bytes: Vec<u8> },
    Resize { id: SessionId, rows: u16, cols: u16 },
    Kill(SessionId),
    /// Send what the session shows.
    Dump(SessionId),
    /// Start to sample usage.
    StartSampler,
    Work { request_id: u64, req: OpRequest },
    Shutdown,
}

/// What a message asks for: nothing that concerns a session which is not there.
pub open spec fn asked(m: RegistryModel, msg: ClientMsg) -> Deed {
    match msg {
        ClientMsg::Spawn {
            request_id,
            project_slug,
            worktree_name,
            rows,
            cols,
            cwd,
            initial_command,
        } => Deed::Spawn {
            request_id,
            project_slug,
            worktree_name,
            rows,
            cols,
            cwd,
            initial_command,
        },
        ClientMsg::WriteBytes { id, bytes } => if has_session(m, id) {
            Deed::Write { id, bytes }
        } else {
            Deed::Nothing
        },
        ClientMsg::Resize { id, rows, cols } => if has_session(m, id) {
            Deed::Resize { id, rows, cols }
        } else {
            Deed::Nothing
        },
        ClientMsg::Kill { id } => if has_session(m, id) {
            Deed::Kill(id)
        } else {
            Deed::Nothing
        },
        ClientMsg::Attach { id } => if has_session(m, id) {
            Deed::Dump(id)
        } else {
            Deed::Nothing
        },
        ClientMsg::SubscribeUsage => if m.usage_thread_alive {
            Deed::Nothing
        } else {
            Deed::StartSampler
        },
        ClientMsg::UnsubscribeUsage => Deed::Nothing,
        ClientMsg::Shutdown => Deed::Shutdown,
        ClientMsg::Op { request_id, req } => Deed::Work { request_id, req },
    }
}

/// The registry after a message.
pub open spec fn after_message(m: RegistryModel, msg: ClientMsg) -> RegistryModel {
    match msg {
        ClientMsg::SubscribeUsage => RegistryModel {
            usage_subscribed: true,
            usage_thread_alive: true,
            ..m
        },
        ClientMsg::UnsubscribeUsage => RegistryModel { usage_subscribed: false, ..m },
        _ => m,
    }
}

impl Registry {
    pub fn new() -> (r: Registry)
        ensures
            r@ == (RegistryModel {
                sessions: seq![],
                next_id: 1,
                usage_subscribed: false,
                usage_thread_alive: false,
                active_client_pid: None,
                generation: 0,
            }),
    {
        let r = Registry {
            sessions: Vec::new(),
            next_id: 1,
            usage_subscribed: false,
            usage_thread_alive: false,
            active_client_pid: None,
            generation: 0,
        };
        assert(r@.sessions =~= seq![]);
        r
    }

    /// The sessions there are.
    pub fn sessions(&self) -> (r: &Vec<SessionMeta>)
        ensures
            r@ == self@.sessions,
    {
        &self.sessions
    }

    /// The client that is attached, if any.
    pub fn active_client_pid(&self) -> (r: Option<u32>)
        ensures
            r == self@.active_client_pid,
    {
        self.active_client_pid
    }

    fn find(&self, id: SessionId) -> (r: Option<usize>)
        ensures
            match r {
                Some(i) => meta_place(self@.sessions, id, 0) == Some(i as int) && i
                    < self@.sessions.len(),
                None => meta_place(self@.sessions, id, 0) is None,
            },
    {
        let mut i: usize = 0;
        while i < self.sessions.len()
            invariant
                i <= self.sessions.len(),
                meta_place(self@.sessions, id, 0) == meta_place(self@.sessions, id, i as int),
            decreases self.sessions.len() - i,
        {
            if self.sessions[i].id == id {
                return Some(i);
            }
            i += 1;
        }
        None
    }

    /// What a client that asks to attach is told: it must speak this protocol.
    pub fn greet(&self, req: HandshakeReq, supervisor_pid: u32) -> (r: HandshakeResp)
        ensures
            if req.protocol == PROTOCOL_VERSION {
                r matches HandshakeResp::Accepted { supervisor_pid: p, sessions } && p
                    == supervisor_pid && sessions@ == self@.sessions
            } else {
                r == HandshakeResp::VersionMismatch { supervisor_protocol: PROTOCOL_VERSION }
            },
    {
        if req.protocol != PROTOCOL_VERSION {
            return HandshakeResp::VersionMismatch { supervisor_protocol: PROTOCOL_VERSION };
        }
        let mut sessions: Vec<SessionMeta> = Vec::new();
        let mut i: usize = 0;
        while i < self.sessions.len()
            invariant
                i <= self.sessions.len(),
                sessions@ =~= self.sessions@.take(i as int),
            decreases self.sessions.len() - i,
        {
            let s = &self.sessions[i];
            sessions.push(
                SessionMeta {
                    id: s.id,
                    project_slug: s.project_slug.clone(),
                    worktree_name: s.worktree_name.clone(),
                    cwd: s.cwd.clone(),
                    rows: s.rows,
                    cols: s.cols,
                },
            );
            i += 1;
        }
        assert(sessions@ =~= self.sessions@);
        HandshakeResp::Accepted { supervisor_pid, sessions }
    }

    /// A client attaches. The number stands for its turn.
    pub fn attach(&mut self, client_pid: u32) -> (r: u64)
        ensures
            final(self)@ == attached(old(self)@, client_pid),
            r == final(self)@.generation,
    {
        self.active_client_pid = Some(client_pid);
        self.generation = if self.generation == u64::MAX {
            0
        } else {
            self.generation + 1
        };
        self.generation
    }

    /// The client whose turn that was is gone.
    pub fn detach(&mut self, generation: u64)
        ensures
            final(self)@ == detached(old(self)@, generation),
    {
        if self.generation == generation {
            self.usage_subscribed = false;
            self.active_client_pid = None;
        }
    }

    /// Registers a session and gives it its number.
    pub fn register(
        &mut self,
        project_slug: String,
        worktree_name: String,
        cwd: String,
        rows: u16,
        cols: u16,
    ) -> (r: SessionId)
        ensures
            r == old(self)@.next_id,
            final(self)@ == (RegistryModel {
                sessions: old(self)@.sessions.push(
                    SessionMeta { id: r, project_slug, worktree_name, cwd, rows, cols },
                ),
                next_id: next_number(r),
                ..old(self)@
            }),
    {
        let id: u64 = self.next_id;
        self.next_id = if id == u64::MAX {
            0
        } else {
            id + 1
        };
        self.sessions.push(SessionMeta { id, project_slug, worktree_name, cwd, rows, cols });
        id
    }

    /// A session's process ended: it is forgotten, and the client that is
    /// attached, if any, is to hear of it.
    pub fn session_ended(&mut self, id: SessionId) -> (tell: bool)
        ensures
            tell == (old(self)@.active_client_pid is Some),
            final(self)@ == (RegistryModel {
                sessions: match meta_place(old(self)@.sessions, id, 0) {
                    Some(i) => old(self)@.sessions.remove(i),
                    None => old(self)@.sessions,
                },
                ..old(self)@
            }),
    {
        if let Some(i) = self.find(id) {
            let _ = self.sessions.remove(i);
        }
        self.active_client_pid.is_some()
    }

    /// Takes a client's message, and says what it asks for.
    pub fn handle(&mut self, msg: ClientMsg) -> (r: Deed)
        ensures
            r == asked(old(self)@, msg),
            final(self)@ == after_message(old(self)@, msg),
    {
        match msg {
            ClientMsg::Spawn {
                request_id,
                project_slug,
                worktree_name,
                rows,
                cols,
                cwd,
                initial_command,
            } => Deed::Spawn {
                request_id,
                project_slug,
                worktree_name,
                rows,
                cols,
                cwd,
                initial_command,
            },
            ClientMsg::WriteBytes { id, bytes } => if self.find(id).is_some() {
                Deed::Write { id, bytes }
            } else {
                Deed::Nothing
            },
            ClientMsg::Resize { id, rows, cols } => if self.find(id).is_some() {
                Deed::Resize { id, rows, cols }
            } else {
                Deed::Nothing
            },
            ClientMsg::Kill { id } => if self.find(id).is_some() {
                Deed::Kill(id)
            } else {
                Deed::Nothing
            },
            ClientMsg::Attach { id } => if self.find(id).is_some() {
                Deed::Dump(id)
            } else {
                Deed::Nothing
            },
            ClientMsg::SubscribeUsage => {
                self.usage_subscribed = true;
                if self.usage_thread_alive {
                    Deed::Nothing
                } else {
                    self.usage_thread_alive = true;
                    Deed::StartSampler
                }
            },
            ClientMsg::UnsubscribeUsage => {
                self.usage_subscribed = false;
                Deed::Nothing
            },
            ClientMsg::Shutdown => Deed::Shutdown,
            ClientMsg::Op { request_id, req } => Deed::Work { request_id, req },
        }
    }

    /// Whether the sampler goes on: it ends where nobody is attached or nobody
    /// subscribed, and from then on counts as gone.
    pub fn sampler_goes_on(&mut self) -> (r: bool)
        ensures
            r == (old(self)@.usage_subscribed && old(self)@.active_client_pid is Some),
            final(self)@ == (RegistryModel {
                usage_thread_alive: if r {
                    old(self)@.usage_thread_alive
                } else {
                    false
                },
                ..old(self)@
            }),
    {
        if !self.usage_subscribed || self.active_client_pid.is_none() {
            self.usage_thread_alive = false;
            return false;
        }
        true
    }

    /// The sampler has ended by itself: the next client that subscribes gets
    /// another one.
    pub fn sampler_ended(&mut self)
        ensures
            final(self)@ == (RegistryModel { usage_thread_alive: false, ..old(self)@ }),
    {
        self.usage_thread_alive = false;
    }
}

/// A client that attaches takes the place of the one before: that the one before
/// goes changes nothing any more.
pub proof fn law_the_latest_client_stays(m: RegistryModel, first: u32, second: u32)
    ensures
        ({
            let m1 = attached(m, first);
            let m2 = attached(m1, second);
            detached(m2, m1.generation) == m2
        }),
{
}

/// Every session's number is below the next one, and no two are the same.
pub open spec fn numbered(m: RegistryModel) -> bool {
    &&& forall|i: int|
        0 <= i < m.sessions.len() ==> (#[trigger] m.sessions[i]).id < m.next_id
    &&& forall|i: int, j: int|
        0 <= i < j < m.sessions.len() ==> (#[trigger] m.sessions[i]).id != (
        #[trigger] m.sessions[j]).id
}

/// A session that is registered has a number of its own, and can be written to.
pub proof fn law_new_sessions_have_their_own_number(m: RegistryModel, meta: SessionMeta)
    requires
        numbered(m),
        m.next_id < u64::MAX,
        meta.id == m.next_id,
    ensures
        ({
            let after = RegistryModel {
                sessions: m.sessions.push(meta),
                next_id: next_number(m.next_id),
                ..m
            };
            numbered(after) && has_session(after, meta.id)
        }),
{
    let s = m.sessions.push(meta);
    let after = RegistryModel { sessions: s, next_id: next_number(m.next_id), ..m };
    assert forall|i: int| 0 <= i < s.len() implies (#[trigger] s[i]).id < after.next_id by {
        if i < m.sessions.len() {
            assert(s[i] == m.sessions[i]);
        }
    }
    assert forall|i: int, j: int| 0 <= i < j < s.len() implies (#[trigger] s[i]).id != (
    #[trigger] s[j]).id by {
        assert(s[i] == m.sessions[i]);
        if j < m.sessions.len() {
            assert(s[j] == m.sessions[j]);
        }
    }
    lemma_place_found(s, meta.id, s.len() - 1, 0);
}

proof fn lemma_place_found(s: Seq<SessionMeta>, id: SessionId, at: int, from: int)
    requires
        0 <= from <= at < s.len(),
        s[at].id == id,
    ensures
        meta_place(s, id, from) is Some,
    decreases at - from,
{
    if s[from].id != id {
        lemma_place_found(s, id, at, from + 1);
    }
}

/// The sampler is asked for at most once while one is alive, and a client that
/// subscribes always has one.
pub proof fn law_one_sampler_at_a_time(m: RegistryModel)
    ensures
        after_message(m, ClientMsg::SubscribeUsage).usage_thread_alive,
        asked(after_message(m, ClientMsg::SubscribeUsage), ClientMsg::SubscribeUsage)
            == Deed::Nothing,
{
}

} // verus!
