//! What git is asked, and what its answers mean. Calls are described here and
//! made elsewhere; an answer is what git printed, or why it failed.

use crate::text;
use vstd::prelude::*;

verus! {

/// Cap, in seconds, for cheap git invocations (rev-parse, symbolic-ref, branch,
/// worktree list). These finish in milliseconds; the timeout is the "something
/// is wedged" cutoff so a poll-loop worker can't pin.
pub const GIT_TIMEOUT_SECS: u64 = 30;

/// Longer cap, in seconds, for git ops that touch the working tree on disk
/// (`worktree add` / `remove`). A monorepo's checkout/delete can take minutes on
/// slow filesystems; the cap is still a safety net for wedged hooks or frozen
/// NFS, not a productive wait.
pub const GIT_LONG_TIMEOUT_SECS: u64 = 600;

/// A git invocation: its arguments, and whether it gets the longer cap.
#[derive(Debug)]
pub struct GitCall {
    pub args: Vec<String>,
    pub long: bool,
}

/// An invocation in the abstract.
pub struct CallModel {
    pub args: Seq<Seq<char>>,
    pub long: bool,
}

impl View for GitCall {
    type V = CallModel;

    open spec fn view(&self) -> CallModel {
        CallModel { args: text::texts(self.args@), long: self.long }
    }
}

impl GitCall {
    /// How many seconds the invocation may take.
    pub fn timeout_secs(&self) -> (r: u64)
        ensures
            r == (if self.long {
                GIT_LONG_TIMEOUT_SECS
            } else {
                GIT_TIMEOUT_SECS
            }),
    {
        if self.long {
            GIT_LONG_TIMEOUT_SECS
        } else {
            GIT_TIMEOUT_SECS
        }
    }
}

fn args2(a: &str, b: &str) -> (r: Vec<String>)
    ensures
        text::texts(r@) == seq![a@, b@],
{
    let mut v: Vec<String> = Vec::new();
    v.push(text::owned(a));
    v.push(text::owned(b));
    assert(text::texts(v@) =~= seq![a@, b@]);
    v
}

fn with_arg(args: Vec<String>, a: &str) -> (r: Vec<String>)
    ensures
        text::texts(r@) == text::texts(args@).push(a@),
{
    let mut v = args;
    let ghost before = v@;
    v.push(text::owned(a));
    assert(text::texts(v@) =~= text::texts(before).push(a@));
    v
}

// ---------------------------------------------------------------------------
// Answers
// ---------------------------------------------------------------------------

/// What an invocation that ran comes to: what it printed, trimmed, or a message
/// that names the arguments, how it ended and what it complained of.
pub open spec fn answer(
    args: Seq<Seq<char>>,
    success: bool,
    status: Seq<char>,
    out: Seq<char>,
    err: Seq<char>,
) -> Result<Seq<char>, Seq<char>> {
    if success {
        Ok(text::trimmed(out))
    } else {
        Err(
            "git "@ + text::join(args, " "@) + " failed ("@ + status + "): "@ + text::trimmed(err),
        )
    }
}

/// An answer in the abstract.
pub open spec fn answer_view(r: Result<String, String>) -> Result<Seq<char>, Seq<char>> {
    match r {
        Ok(s) => Ok(s@),
        Err(e) => Err(e@),
    }
}

/// What an invocation that ran comes to.
pub fn git_answer(
    args: &Vec<String>,
    success: bool,
    status: &str,
    out: &str,
    err: &str,
) -> (r: Result<String, String>)
    ensures
        answer_view(r) == answer(text::texts(args@), success, status@, out@, err@),
{
    if success {
        return Ok(text::trim(out));
    }
    let mut s = text::concat3("git ", text::join_with(args, " ").as_str(), " failed (");
    s.push_str(status);
    s.push_str("): ");
    s.push_str(text::trim(err).as_str());
    Err(s)
}

/// The message for an invocation that could not be run to its end.
pub fn git_not_run(args: &Vec<String>, reason: &str) -> (r: String)
    ensures
        r@ == "git "@ + text::join(text::texts(args@), " "@) + ": "@ + reason@,
{
    let mut s = text::concat3("git ", text::join_with(args, " ").as_str(), ": ");
    s.push_str(reason);
    s
}

/// Returns Ok(()) if git says that `path` is inside a work tree.
pub fn validate_repo(path: &str, answered: &str) -> (r: Result<(), String>)
    ensures
        match r {
            Ok(_) => answered@ == "true"@,
            Err(e) => answered@ != "true"@ && e@ == path@ + " is not inside a git work tree"@,
        },
{
    if text::same(answered, "true") {
        Ok(())
    } else {
        Err(text::concat2(path, " is not inside a git work tree"))
    }
}

/// The question that `validate_repo` has the answer to.
pub fn validate_call() -> (r: GitCall)
    ensures
        r@ == (CallModel { args: seq!["rev-parse"@, "--is-inside-work-tree"@], long: false }),
{
    GitCall { args: args2("rev-parse", "--is-inside-work-tree"), long: false }
}

/// The question that `head_branch` has the answer to.
pub fn head_call() -> (r: GitCall)
    ensures
        r@ == (CallModel {
            args: seq!["symbolic-ref"@, "--quiet"@, "--short"@, "HEAD"@],
            long: false,
        }),
{
    let args = with_arg(with_arg(args2("symbolic-ref", "--quiet"), "--short"), "HEAD");
    let r = GitCall { args, long: false };
    assert(r@.args =~= seq!["symbolic-ref"@, "--quiet"@, "--short"@, "HEAD"@]);
    r
}

/// Returns the current HEAD branch name, or `None` if HEAD is detached, which
/// git says by failing.
pub fn head_branch(success: bool, out: &str) -> (r: Option<String>)
    ensures
        text::opt_text(r) == (if success {
            Some(text::trimmed(out@))
        } else {
            None
        }),
{
    if success {
        Some(text::trim(out))
    } else {
        None
    }
}

/// The lines that say something, trimmed: the first `n` of them.
pub open spec fn names(lines: Seq<Seq<char>>, n: nat) -> Seq<Seq<char>>
    decreases n,
{
    if n == 0 {
        seq![]
    } else {
        let name = text::trimmed(lines[n - 1]);
        let before = names(lines, (n - 1) as nat);
        if name.len() == 0 {
            before
        } else {
            before.push(name)
        }
    }
}

/// The remote to base new branches on, of those that git listed: `origin` if
/// present, else the first, else none.
pub open spec fn remote_in(out: Seq<char>) -> Option<Seq<char>> {
    let all = names(text::lines(out), text::lines(out).len());
    if all.len() == 0 {
        None
    } else if all.contains("origin"@) {
        Some("origin"@)
    } else {
        Some(all[0])
    }
}

/// The remote to base new branches on: `origin` if present, else the first
/// configured remote, else `None` (local-only repo).
pub fn default_remote(out: &str) -> (r: Option<String>)
    ensures
        text::opt_text(r) == remote_in(out@),
{
    let lines = text::lines_of(out);
    let ghost all = text::lines(out@);
    let mut first: Option<String> = None;
    let mut i: usize = 0;
    while i < lines.len()
        invariant
            i <= lines.len(),
            text::texts(lines@) == all,
            all == text::lines(out@),
            !names(all, i as nat).contains("origin"@),
            match first {
                Some(f) => names(all, i as nat).len() > 0 && names(all, i as nat)[0] == f@,
                None => names(all, i as nat).len() == 0,
            },
        decreases lines.len() - i,
    {
        let name = text::trim(lines[i].as_str());
        let ghost before = names(all, i as nat);
        assert(all[i as int] == lines@[i as int]@);
        if !name.as_str().is_empty() {
            if text::same(name.as_str(), "origin") {
                proof {
                    assert(before.push(name@)[before.len() as int] == "origin"@);
                    lemma_names_stay(all, (i + 1) as nat, all.len(), before.len() as int);
                }
                return Some(name);
            }
            assert forall|k: int| 0 <= k < before.push(name@).len() implies #[trigger] before.push(
                name@,
            )[k] != "origin"@ by {
                if k < before.len() {
                    assert(before.contains(before[k]));
                }
            }
            if first.is_none() {
                first = Some(name);
            }
        }
        i += 1;
    }
    first
}

proof fn lemma_names_stay(lines: Seq<Seq<char>>, n: nat, m: nat, k: int)
    requires
        n <= m,
        0 <= k < names(lines, n).len(),
    ensures
        k < names(lines, m).len(),
        names(lines, m)[k] == names(lines, n)[k],
    decreases m,
{
    if n < m {
        lemma_names_stay(lines, n, (m - 1) as nat, k);
    }
}

// ---------------------------------------------------------------------------
// Adding a worktree
// ---------------------------------------------------------------------------

/// How far the adding of a worktree has come.
#[derive(Copy, Clone, Debug, PartialEq, Eq, Structural)]
pub enum AddPhase {
    /// The branch is tried as one that exists.
    Direct,
    /// The remotes are asked for.
    Remotes,
    /// The remote is fetched.
    Fetch,
    /// The remote's HEAD is asked for.
    Head,
    /// The remote's HEAD is set.
    SetHead,
    /// The remote's HEAD is asked for once more.
    HeadAgain,
    /// The branch is created.
    Create,
    Done,
}

/// The adding of a worktree at `dest` for `branch`. If `branch` doesn't exist
/// locally, it is created — based on the default remote's HEAD branch (e.g.
/// `origin/main`) after a fetch, so new worktrees start from the freshest
/// upstream code rather than the local clone's possibly-stale HEAD. Falls back
/// to current HEAD when the repo has no remote or the fetch fails (offline).
#[derive(Debug)]
pub struct WorktreeAdd {
    pub phase: AddPhase,
    pub dest: String,
    pub branch: String,
    pub remote: String,
    /// Where the new branch starts; the local HEAD where there is none.
    pub start: Option<String>,
    /// Why the branch could not be created.
    pub failure: Option<String>,
}

/// The adding of a worktree in the abstract.
pub struct AddModel {
    pub phase: AddPhase,
    pub dest: Seq<char>,
    pub branch: Seq<char>,
    pub remote: Seq<char>,
    pub start: Option<Seq<char>>,
    pub failure: Option<Seq<char>>,
}

impl View for WorktreeAdd {
    type V = AddModel;

    open spec fn view(&self) -> AddModel {
        AddModel {
            phase: self.phase,
            dest: self.dest@,
            branch: self.branch@,
            remote: self.remote@,
            start: text::opt_text(self.start),
            failure: text::opt_text(self.failure),
        }
    }
}

/// What git is asked next.
pub open spec fn add_call(m: AddModel) -> Option<CallModel> {
    match m.phase {
        AddPhase::Direct => Some(
            CallModel { args: seq!["worktree"@, "add"@, m.dest, m.branch], long: true },
        ),
        AddPhase::Remotes => Some(CallModel { args: seq!["remote"@], long: false }),
        AddPhase::Fetch => Some(CallModel { args: seq!["fetch"@, m.remote], long: true }),
        AddPhase::Head | AddPhase::HeadAgain => Some(
            CallModel {
                args: seq!["rev-parse"@, "--abbrev-ref"@, m.remote + "/HEAD"@],
                long: false,
            },
        ),
        AddPhase::SetHead => Some(
            CallModel { args: seq!["remote"@, "set-head"@, m.remote, "--auto"@], long: false },
        ),
        AddPhase::Create => Some(
            CallModel {
                args: match m.start {
                    Some(s) => seq![
                        "worktree"@,
                        "add"@,
                        "--no-track"@,
                        "-b"@,
                        m.branch,
                        m.dest,
                        s,
                    ],
                    None => seq!["worktree"@, "add"@, "-b"@, m.branch, m.dest],
                },
                long: true,
            },
        ),
        AddPhase::Done => None,
    }
}

/// What follows from git's answer.
pub open spec fn add_answered(m: AddModel, r: Result<Seq<char>, Seq<char>>) -> AddModel {
    let local = AddModel { phase: AddPhase::Create, start: None, ..m };
    match m.phase {
        AddPhase::Direct => match r {
            Ok(_) => AddModel { phase: AddPhase::Done, ..m },
            Err(_) => AddModel { phase: AddPhase::Remotes, ..m },
        },
        AddPhase::Remotes => match r {
            Ok(out) => match remote_in(out) {
                Some(remote) => AddModel { phase: AddPhase::Fetch, remote, ..m },
                None => local,
            },
            Err(_) => local,
        },
        AddPhase::Fetch => match r {
            Ok(_) => AddModel { phase: AddPhase::Head, ..m },
            Err(_) => local,
        },
        AddPhase::Head => match r {
            Ok(s) => AddModel { phase: AddPhase::Create, start: Some(s), ..m },
            Err(_) => AddModel { phase: AddPhase::SetHead, ..m },
        },
        AddPhase::SetHead => match r {
            Ok(_) => AddModel { phase: AddPhase::HeadAgain, ..m },
            Err(_) => local,
        },
        AddPhase::HeadAgain => match r {
            Ok(s) => AddModel { phase: AddPhase::Create, start: Some(s), ..m },
            Err(_) => local,
        },
        AddPhase::Create => AddModel {
            phase: AddPhase::Done,
            failure: match r {
                Ok(_) => None,
                Err(e) => Some(e),
            },
            ..m
        },
        AddPhase::Done => m,
    }
}

/// The adding before git was asked anything.
pub open spec fn add_begun(dest: Seq<char>, branch: Seq<char>) -> AddModel {
    AddModel {
        phase: AddPhase::Direct,
        dest,
        branch,
        remote: seq![],
        start: None,
        failure: None,
    }
}

/// Begins to add a worktree at `dest` for `branch`.
pub fn worktree_add(dest: String, branch: String) -> (r: WorktreeAdd)
    ensures
        r@ == add_begun(dest@, branch@),
{
    let r = WorktreeAdd {
        phase: AddPhase::Direct,
        dest,
        branch,
        remote: String::new(),
        start: None,
        failure: None,
    };
    assert(r@.remote =~= seq![]);
    r
}

impl WorktreeAdd {
    /// What git is asked next.
    pub fn call(&self) -> (r: Option<GitCall>)
        ensures
            crate::app::opt_view(r) == add_call(self@),
    {
        let ghost want = add_call(self@);
        let call = match self.phase {
            AddPhase::Direct => GitCall {
                args: with_arg(
                    with_arg(args2("worktree", "add"), self.dest.as_str()),
                    self.branch.as_str(),
                ),
                long: true,
            },
            AddPhase::Remotes => {
                let none: Vec<String> = Vec::new();
                GitCall { args: with_arg(none, "remote"), long: false }
            },
            AddPhase::Fetch => GitCall { args: args2("fetch", self.remote.as_str()), long: true },
            AddPhase::Head | AddPhase::HeadAgain => {
                let head = text::concat2(self.remote.as_str(), "/HEAD");
                GitCall {
                    args: with_arg(args2("rev-parse", "--abbrev-ref"), head.as_str()),
                    long: false,
                }
            },
            AddPhase::SetHead => GitCall {
                args: with_arg(
                    with_arg(args2("remote", "set-head"), self.remote.as_str()),
                    "--auto",
                ),
                long: false,
            },
            AddPhase::Create => {
                let args = match &self.start {
                    Some(s) => {
                        let a = with_arg(with_arg(args2("worktree", "add"), "--no-track"), "-b");
                        let b = with_arg(with_arg(a, self.branch.as_str()), self.dest.as_str());
                        with_arg(b, s.as_str())
                    },
                    None => {
                        let a = with_arg(args2("worktree", "add"), "-b");
                        with_arg(with_arg(a, self.branch.as_str()), self.dest.as_str())
                    },
                };
                GitCall { args, long: true }
            },
            AddPhase::Done => return None,
        };
        assert(call@.args =~= want->Some_0.args);
        Some(call)
    }

    /// Takes git's answer to the call.
    pub fn answered(&mut self, r: Result<String, String>)
        ensures
            final(self)@ == add_answered(old(self)@, answer_view(r)),
    {
        match self.phase {
            AddPhase::Direct => {
                self.phase = match r {
                    Ok(_) => AddPhase::Done,
                    Err(_) => AddPhase::Remotes,
                };
            },
            AddPhase::Remotes => {
                let remote = match r {
                    Ok(out) => default_remote(out.as_str()),
                    Err(_) => None,
                };
                match remote {
                    Some(remote) => {
                        self.remote = remote;
                        self.phase = AddPhase::Fetch;
                    },
                    None => self.start_locally(),
                }
            },
            AddPhase::Fetch => {
                match r {
                    Ok(_) => {
                        self.phase = AddPhase::Head;
                    },
                    Err(_) => self.start_locally(),
                }
            },
            AddPhase::Head => {
                match r {
                    Ok(s) => {
                        self.start = Some(s);
                        self.phase = AddPhase::Create;
                    },
                    Err(_) => {
                        self.phase = AddPhase::SetHead;
                    },
                }
            },
            AddPhase::SetHead => {
                match r {
                    Ok(_) => {
                        self.phase = AddPhase::HeadAgain;
                    },
                    Err(_) => self.start_locally(),
                }
            },
            AddPhase::HeadAgain => {
                match r {
                    Ok(s) => {
                        self.start = Some(s);
                        self.phase = AddPhase::Create;
                    },
                    Err(_) => self.start_locally(),
                }
            },
            AddPhase::Create => {
                self.phase = AddPhase::Done;
                self.failure = match r {
                    Ok(_) => None,
                    Err(e) => Some(e),
                };
            },
            AddPhase::Done => {},
        }
    }

    fn start_locally(&mut self)
        ensures
            final(self)@ == (AddModel { phase: AddPhase::Create, start: None, ..old(self)@ }),
    {
        self.phase = AddPhase::Create;
        self.start = None;
    }
}

/// How many calls the adding may still make.
pub open spec fn calls_left(phase: AddPhase) -> nat {
    match phase {
        AddPhase::Direct => 7,
        AddPhase::Remotes => 6,
        AddPhase::Fetch => 5,
        AddPhase::Head => 4,
        AddPhase::SetHead => 3,
        AddPhase::HeadAgain => 2,
        AddPhase::Create => 1,
        AddPhase::Done => 0,
    }
}

/// Every answer brings the adding nearer to its end, and it ends exactly where
/// nothing is left to ask.
pub proof fn law_adding_comes_to_an_end(m: AddModel, r: Result<Seq<char>, Seq<char>>)
    ensures
        m.phase !is Done ==> calls_left(add_answered(m, r).phase) < calls_left(m.phase),
        add_call(m) is None <==> m.phase is Done,
{
}

/// A branch that exists is checked out and nothing else is asked; what the new
/// worktree is called and where it goes never changes.
pub proof fn law_existing_branches_are_taken(m: AddModel, r: Result<Seq<char>, Seq<char>>)
    ensures
        m.phase is Direct && r is Ok ==> add_answered(m, r).phase is Done && add_answered(
            m,
            r,
        ).failure == m.failure,
        add_answered(m, r).dest == m.dest,
        add_answered(m, r).branch == m.branch,
{
}

/// Without a remote, or with one that cannot be fetched, a new branch starts
/// from the local HEAD.
pub proof fn law_offline_branches_start_locally(m: AddModel, r: Result<Seq<char>, Seq<char>>)
    requires
        m.phase is Fetch || m.phase is Remotes,
        r is Err,
    ensures
        add_call(add_answered(m, r)) == Some(
            CallModel { args: seq!["worktree"@, "add"@, "-b"@, m.branch, m.dest], long: true },
        ),
{
}

// ---------------------------------------------------------------------------
// Removing a worktree
// ---------------------------------------------------------------------------

/// How far the removal of a worktree has come.
#[derive(Copy, Clone, Debug, PartialEq, Eq, Structural)]
pub enum RemovePhase {
    Remove,
    DeleteBranch,
    Done,
}

/// The removal of the worktree at `dest`, and of the local branch where there is
/// one. Uses `--force` so dirty worktrees are still removed — the user is the
/// one who asked for this. A branch that cannot be deleted fails nothing: the
/// worktree is already gone.
#[derive(Debug)]
pub struct WorktreeRemoval {
    pub phase: RemovePhase,
    pub dest: String,
    pub branch: Option<String>,
    pub failure: Option<String>,
}

/// A removal in the abstract.
pub struct RemovalModel {
    pub phase: RemovePhase,
    pub dest: Seq<char>,
    pub branch: Option<Seq<char>>,
    pub failure: Option<Seq<char>>,
}

impl View for WorktreeRemoval {
    type V = RemovalModel;

    open spec fn view(&self) -> RemovalModel {
        RemovalModel {
            phase: self.phase,
            dest: self.dest@,
            branch: text::opt_text(self.branch),
            failure: text::opt_text(self.failure),
        }
    }
}

/// What git is asked next.
pub open spec fn removal_call(m: RemovalModel) -> Option<CallModel> {
    match m.phase {
        RemovePhase::Remove => Some(
            CallModel { args: seq!["worktree"@, "remove"@, "--force"@, m.dest], long: true },
        ),
        RemovePhase::DeleteBranch => match m.branch {
            Some(b) => Some(CallModel { args: seq!["branch"@, "-D"@, b], long: false }),
            None => None,
        },
        RemovePhase::Done => None,
    }
}

/// What follows from git's answer.
pub open spec fn removal_answered(m: RemovalModel, r: Result<Seq<char>, Seq<char>>) -> RemovalModel {
    match m.phase {
        RemovePhase::Remove => match r {
            Ok(_) => RemovalModel {
                phase: if m.branch is Some {
                    RemovePhase::DeleteBranch
                } else {
                    RemovePhase::Done
                },
                ..m
            },
            Err(e) => RemovalModel { phase: RemovePhase::Done, failure: Some(e), ..m },
        },
        _ => RemovalModel { phase: RemovePhase::Done, ..m },
    }
}

/// Begins to remove the worktree at `dest`, and its branch where there is one.
pub fn worktree_remove(dest: String, branch: Option<String>) -> (r: WorktreeRemoval)
    ensures
        r@ == (RemovalModel {
            phase: RemovePhase::Remove,
            dest: dest@,
            branch: text::opt_text(branch),
            failure: None,
        }),
{
    WorktreeRemoval { phase: RemovePhase::Remove, dest, branch, failure: None }
}

impl WorktreeRemoval {
    /// What git is asked next.
    pub fn call(&self) -> (r: Option<GitCall>)
        ensures
            crate::app::opt_view(r) == removal_call(self@),
    {
        match self.phase {
            RemovePhase::Remove => {
                let args = with_arg(
                    with_arg(args2("worktree", "remove"), "--force"),
                    self.dest.as_str(),
                );
                let call = GitCall { args, long: true };
                assert(call@.args =~= seq!["worktree"@, "remove"@, "--force"@, self.dest@]);
                Some(call)
            },
            RemovePhase::DeleteBranch => match &self.branch {
                Some(b) => {
                    let call = GitCall {
                        args: with_arg(args2("branch", "-D"), b.as_str()),
                        long: false,
                    };
                    assert(call@.args =~= seq!["branch"@, "-D"@, b@]);
                    Some(call)
                },
                None => None,
            },
            RemovePhase::Done => None,
        }
    }

    /// Takes git's answer to the call.
    pub fn answered(&mut self, r: Result<String, String>)
        ensures
            final(self)@ == removal_answered(old(self)@, answer_view(r)),
    {
        if self.phase == RemovePhase::Remove {
            match r {
                Ok(_) => {
                    self.phase = if self.branch.is_some() {
                        RemovePhase::DeleteBranch
                    } else {
                        RemovePhase::Done
                    };
                },
                Err(e) => {
                    self.phase = RemovePhase::Done;
                    self.failure = Some(e);
                },
            }
        } else {
            self.phase = RemovePhase::Done;
        }
    }
}

/// A branch is deleted only once its worktree is gone, and whether that works
/// makes no difference to the outcome.
pub proof fn law_branches_go_after_their_worktree(m: RemovalModel, r: Result<Seq<char>, Seq<char>>)
    requires
        m.failure is None,
    ensures
        m.phase is Remove && r is Err ==> removal_call(removal_answered(m, r)) is None
            && removal_answered(m, r).failure is Some,
        m.phase is DeleteBranch ==> removal_answered(m, r).failure is None,
{
}

// ---------------------------------------------------------------------------
// Listing worktrees
// ---------------------------------------------------------------------------

/// One row from `git worktree list --porcelain`. `branch` is `None` for
/// detached HEAD worktrees (we still report them so the caller can decide).
#[derive(Debug)]
pub struct WorktreeListEntry {
    pub path: String,
    pub branch: Option<String>,
}

/// A row in the abstract: path and branch.
pub type EntryModel = (Seq<char>, Option<Seq<char>>);

impl View for WorktreeListEntry {
    type V = EntryModel;

    open spec fn view(&self) -> EntryModel {
        (self.path@, text::opt_text(self.branch))
    }
}

/// The rows in a list.
pub open spec fn entry_models(v: Seq<WorktreeListEntry>) -> Seq<EntryModel> {
    Seq::new(v.len(), |i: int| v[i]@)
}

/// A branch without `refs/heads/`.
pub open spec fn short_branch(b: Seq<char>) -> Seq<char> {
    match text::behind(b, "refs/heads/"@) {
        Some(s) => s,
        None => b,
    }
}

/// The rows that the first `n` lines tell of. A line that starts with
/// `worktree ` begins a row, and one that starts with `branch ` gives the branch
/// of the row that was begun last.
pub open spec fn listed(lines: Seq<Seq<char>>, n: nat) -> Seq<EntryModel>
    decreases n,
{
    if n == 0 {
        seq![]
    } else {
        let before = listed(lines, (n - 1) as nat);
        match text::behind(lines[n - 1], "worktree "@) {
            Some(path) => before.push((path, None)),
            None => match text::behind(lines[n - 1], "branch "@) {
                Some(b) => if before.len() == 0 {
                    before
                } else {
                    before.drop_last().push((before.last().0, Some(short_branch(b))))
                },
                None => before,
            },
        }
    }
}

/// The question that `list_worktrees` has the answer to.
pub fn list_call() -> (r: GitCall)
    ensures
        r@ == (CallModel { args: seq!["worktree"@, "list"@, "--porcelain"@], long: false }),
{
    let r = GitCall { args: with_arg(args2("worktree", "list"), "--porcelain"), long: false };
    assert(r@.args =~= seq!["worktree"@, "list"@, "--porcelain"@]);
    r
}

/// Every worktree in git's porcelain listing:
///
/// ```text
/// worktree /Users/me/proj
/// HEAD abcd
/// branch refs/heads/main
///
/// worktree /Users/me/proj-worktrees/feat
/// HEAD beef
/// branch refs/heads/feat
/// ```
pub fn list_worktrees(out: &str) -> (r: Vec<WorktreeListEntry>)
    ensures
        entry_models(r@) == listed(text::lines(out@), text::lines(out@).len()),
{
    let lines = text::lines_of(out);
    let ghost all = text::lines(out@);
    let mut entries: Vec<WorktreeListEntry> = Vec::new();
    let mut i: usize = 0;
    assert(entry_models(entries@) =~= seq![]);
    while i < lines.len()
        invariant
            i <= lines.len(),
            text::texts(lines@) == all,
            entry_models(entries@) == listed(all, i as nat),
        decreases lines.len() - i,
    {
        let line = lines[i].as_str();
        assert(all[i as int] == line@);
        let ghost before = entries@;
        if let Some(path) = text::strip_prefix(line, "worktree ") {
            entries.push(WorktreeListEntry { path, branch: None });
            assert(entry_models(entries@) =~= entry_models(before).push((path@, None)));
        } else if let Some(b) = text::strip_prefix(line, "branch ") {
            let short = match text::strip_prefix(b.as_str(), "refs/heads/") {
                Some(s) => s,
                None => b,
            };
            if let Some(mut last) = entries.pop() {
                last.branch = Some(short);
                entries.push(last);
                assert(entry_models(entries@) =~= entry_models(before).drop_last().push(
                    (entry_models(before).last().0, Some(short@)),
                ));
            }
        }
        i += 1;
    }
    entries
}

/// What git prints for a list of worktrees, line by line.
pub open spec fn porcelain(list: Seq<EntryModel>) -> Seq<Seq<char>>
    decreases list.len(),
{
    if list.len() == 0 {
        seq![]
    } else {
        let (path, branch) = list.last();
        porcelain(list.drop_last()) + seq![
            "worktree "@ + path,
            match branch {
                Some(b) => "branch refs/heads/"@ + b,
                None => "detached"@,
            },
            ""@,
        ]
    }
}

/// What git prints for a list of worktrees is read as that list.
pub proof fn law_listings_are_read_back(list: Seq<EntryModel>)
    ensures
        listed(porcelain(list), porcelain(list).len()) == list,
    decreases list.len(),
{
    if list.len() > 0 {
        let front = list.drop_last();
        let head = porcelain(front);
        let all = porcelain(list);
        let n = head.len();
        let (path, branch) = list.last();
        law_listings_are_read_back(front);
        lemma_listed_front(head, all, n);
        assert(all[n as int] == "worktree "@ + path);
        assert(all.len() == n + 3);
        let first = "worktree "@ + path;
        reveal_strlit("worktree ");
        reveal_strlit("branch ");
        reveal_strlit("branch refs/heads/");
        reveal_strlit("refs/heads/");
        reveal_strlit("detached");
        reveal_strlit("");
        assert(first.take(9) =~= "worktree "@);
        assert(first.skip(9) =~= path);
        assert(listed(all, n + 1) == front.push((path, None)));
        let second = all[n as int + 1];
        assert(second.len() >= 9 ==> second.take(9)[0] != 'w');
        assert("worktree "@[0] == 'w');
        match branch {
            Some(b) => {
                assert(second == "branch refs/heads/"@ + b);
                assert(second.take(7) =~= "branch "@);
                let long = second.skip(7);
                assert(long =~= "refs/heads/"@ + b);
                assert(long.take(11) =~= "refs/heads/"@);
                assert(long.skip(11) =~= b);
                assert(listed(all, n + 2) =~= front.push((path, branch)));
            },
            None => {
                assert(second.len() >= 7 ==> second.take(7)[0] == 'd');
                assert("branch "@[0] == 'b');
                assert(listed(all, n + 2) =~= front.push((path, branch)));
            },
        }
        assert(all[n as int + 2] == ""@);
        assert(listed(all, n + 3) =~= front.push((path, branch)));
        assert(front.push((path, branch)) =~= list);
    }
}

proof fn lemma_listed_front(head: Seq<Seq<char>>, all: Seq<Seq<char>>, n: nat)
    requires
        n <= head.len() <= all.len(),
        forall|i: int| 0 <= i < head.len() ==> head[i] == #[trigger] all[i],
    ensures
        listed(head, n) == listed(all, n),
    decreases n,
{
    if n > 0 {
        lemma_listed_front(head, all, (n - 1) as nat);
        assert(head[n - 1] == all[n - 1]);
    }
}

} // verus!
