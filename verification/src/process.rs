//! Process trees: which processes belong to a session, and what they use.

use crate::ipc::{ProcessNode, SessionMeta, SessionUsage, UsageReport};
use crate::text;
use vstd::prelude::*;

verus! {

/// A process as the system reports it.
#[derive(Debug)]
pub struct ProcInfo {
    pub pid: u32,
    pub parent: Option<u32>,
    pub name: String,
    pub rss_bytes: u64,
    /// % of a single CPU core, as the bits of the single-precision number.
    pub cpu_bits: u32,
}

/// A process tree in the abstract.
pub struct NodeModel {
    pub pid: u32,
    pub name: Seq<char>,
    pub rss_bytes: u64,
    pub cpu_bits: u32,
    pub children: Seq<NodeModel>,
}

/// What a tree stands for.
pub open spec fn node_model(n: ProcessNode) -> NodeModel
    decreases n,
{
    NodeModel {
        pid: n.pid,
        name: n.name@,
        rss_bytes: n.rss_bytes,
        cpu_bits: n.cpu_bits,
        children: node_models(n.children@),
    }
}

/// What a list of trees stands for.
pub open spec fn node_models(s: Seq<ProcessNode>) -> Seq<NodeModel>
    decreases s,
{
    if s.len() == 0 {
        seq![]
    } else {
        node_models(s.subrange(0, s.len() - 1)).push(node_model(s[s.len() - 1]))
    }
}

// ---------------------------------------------------------------------------
// Descent
// ---------------------------------------------------------------------------

/// The processes whose parent is `pid`, among the first `n`.
pub open spec fn kids(procs: Seq<ProcInfo>, pid: u32, n: nat) -> Seq<u32>
    decreases n,
{
    if n == 0 {
        seq![]
    } else {
        let before = kids(procs, pid, (n - 1) as nat);
        if procs[n - 1].parent == Some(pid) {
            before.push(procs[n - 1].pid)
        } else {
            before
        }
    }
}

/// Whether `pid` descends from `root` in at most `n` steps.
pub open spec fn descends(procs: Seq<ProcInfo>, root: u32, pid: u32, n: nat) -> bool
    decreases n,
{
    pid == root || (n > 0 && exists|i: int|
        0 <= i < procs.len() && (#[trigger] procs[i]).pid == pid && (
        procs[i].parent matches Some(q) && descends(procs, root, q, (n - 1) as nat)))
}

/// Whether `pid` is `root` or descends from it.
pub open spec fn belongs(procs: Seq<ProcInfo>, root: u32, pid: u32) -> bool {
    exists|n: nat| descends(procs, root, pid, n)
}

proof fn lemma_child_belongs(procs: Seq<ProcInfo>, root: u32, i: int)
    requires
        0 <= i < procs.len(),
        procs[i].parent matches Some(q) && belongs(procs, root, q),
    ensures
        belongs(procs, root, procs[i].pid),
{
    let q = procs[i].parent->Some_0;
    let n = choose|n: nat| descends(procs, root, q, n);
    assert(descends(procs, root, procs[i].pid, n + 1));
}

/// A list that holds `root` and with each process its children holds everything
/// that descends from `root`.
proof fn lemma_closed_lists_hold_all(
    procs: Seq<ProcInfo>,
    root: u32,
    list: Seq<u32>,
    pid: u32,
    n: nat,
)
    requires
        list.contains(root),
        forall|i: int|
            0 <= i < procs.len() && ((#[trigger] procs[i]).parent matches Some(q) && list.contains(
                q,
            )) ==> list.contains(procs[i].pid),
        descends(procs, root, pid, n),
    ensures
        list.contains(pid),
    decreases n,
{
    if pid != root {
        let i = choose|i: int|
            0 <= i < procs.len() && (#[trigger] procs[i]).pid == pid && (
            procs[i].parent matches Some(q) && descends(procs, root, q, (n - 1) as nat));
        lemma_closed_lists_hold_all(procs, root, list, procs[i].parent->Some_0, (n - 1) as nat);
        assert(list.contains(procs[i].pid));
    }
}

fn holds(list: &Vec<u32>, pid: u32) -> (r: bool)
    ensures
        r == list@.contains(pid),
{
    let mut i: usize = 0;
    while i < list.len()
        invariant
            i <= list.len(),
            forall|j: int| 0 <= j < i ==> list[j] != pid,
        decreases list.len() - i,
    {
        if list[i] == pid {
            return true;
        }
        i += 1;
    }
    false
}

/// How many of the first `n` processes are not in the list.
spec fn missing(procs: Seq<ProcInfo>, list: Seq<u32>, n: nat) -> nat
    decreases n,
{
    if n == 0 {
        0
    } else {
        missing(procs, list, (n - 1) as nat) + (if list.contains(procs[n - 1].pid) {
            0nat
        } else {
            1
        })
    }
}

proof fn lemma_missing_shrinks(procs: Seq<ProcInfo>, a: Seq<u32>, b: Seq<u32>, n: nat)
    requires
        n <= procs.len(),
        forall|x: u32| a.contains(x) ==> #[trigger] b.contains(x),
    ensures
        missing(procs, b, n) <= missing(procs, a, n),
        (exists|i: int|
            0 <= i < n && b.contains((#[trigger] procs[i]).pid) && !a.contains(procs[i].pid)) ==> missing(
            procs,
            b,
            n,
        ) < missing(procs, a, n),
    decreases n,
{
    if n > 0 {
        lemma_missing_shrinks(procs, a, b, (n - 1) as nat);
        let p = procs[n - 1].pid;
        assert(a.contains(p) ==> b.contains(p));
        if exists|i: int|
            0 <= i < n && b.contains((#[trigger] procs[i]).pid) && !a.contains(procs[i].pid) {
            let i = choose|i: int|
                0 <= i < n && b.contains((#[trigger] procs[i]).pid) && !a.contains(procs[i].pid);
            if i < n - 1 {
                assert(b.contains(procs[i].pid) && !a.contains(procs[i].pid));
            }
        }
    }
}

/// Every process that descends from `root`, and `root` itself.
pub fn descendants(procs: &Vec<ProcInfo>, root: u32) -> (r: Vec<u32>)
    ensures
        forall|pid: u32| #[trigger] r@.contains(pid) <==> belongs(procs@, root, pid),
{
    let mut list: Vec<u32> = Vec::new();
    list.push(root);
    let mut grew = true;
    proof {
        assert(list@[0] == root);
        assert(descends(procs@, root, root, 0));
        assert forall|pid: u32| #[trigger] list@.contains(pid) implies belongs(
            procs@,
            root,
            pid,
        ) by {
            assert(pid == root);
        }
    }
    while grew
        invariant
            list@.contains(root),
            forall|pid: u32| #[trigger] list@.contains(pid) ==> belongs(procs@, root, pid),
            !grew ==> forall|i: int|
                0 <= i < procs@.len() && ((#[trigger] procs@[i]).parent matches Some(q)
                    && list@.contains(q)) ==> list@.contains(procs@[i].pid),
        decreases missing(procs@, list@, procs@.len()) + (if grew { 1nat } else { 0 }),
    {
        grew = false;
        let ghost start = list@;
        let mut i: usize = 0;
        while i < procs.len()
            invariant
                i <= procs.len(),
                list@.contains(root),
                forall|pid: u32| #[trigger] list@.contains(pid) ==> belongs(procs@, root, pid),
                forall|x: u32| start.contains(x) ==> #[trigger] list@.contains(x),
                grew ==> exists|k: int|
                    0 <= k < procs@.len() && list@.contains((#[trigger] procs@[k]).pid)
                        && !start.contains(procs@[k].pid),
                !grew ==> list@ == start,
                !grew ==> forall|k: int|
                    0 <= k < i && ((#[trigger] procs@[k]).parent matches Some(q) && list@.contains(
                        q,
                    )) ==> list@.contains(procs@[k].pid),
            decreases procs.len() - i,
        {
            let p = &procs[i];
            if let Some(q) = p.parent {
                if holds(&list, q) && !holds(&list, p.pid) {
                    let ghost before = list@;
                    list.push(p.pid);
                    grew = true;
                    proof {
                        lemma_child_belongs(procs@, root, i as int);
                        assert forall|pid: u32| #[trigger] list@.contains(pid) implies belongs(
                            procs@,
                            root,
                            pid,
                        ) by {
                            if pid != p.pid {
                                let k = choose|k: int| 0 <= k < list@.len() && list@[k] == pid;
                                assert(before[k] == pid);
                                assert(before.contains(pid));
                            }
                        }
                        assert forall|x: u32| before.contains(x) implies #[trigger] list@.contains(
                            x,
                        ) by {
                            let k = choose|k: int| 0 <= k < before.len() && before[k] == x;
                            assert(list@[k] == x);
                        }
                        assert(list@[before.len() as int] == p.pid);
                        assert(before.contains(root));
                        assert(list@.contains(procs@[i as int].pid));
                        assert(!start.contains(procs@[i as int].pid)) by {
                            if start.contains(procs@[i as int].pid) {
                                assert(before.contains(procs@[i as int].pid));
                            }
                        }
                        assert forall|x: u32| start.contains(x) implies #[trigger] list@.contains(
                            x,
                        ) by {
                            assert(before.contains(x));
                        }
                    }
                }
            }
            i += 1;
        }
        proof {
            lemma_missing_shrinks(procs@, start, list@, procs@.len());
        }
    }
    proof {
        assert forall|pid: u32| #[trigger] list@.contains(pid) <==> belongs(
            procs@,
            root,
            pid,
        ) by {
            if belongs(procs@, root, pid) {
                let n = choose|n: nat| descends(procs@, root, pid, n);
                lemma_closed_lists_hold_all(procs@, root, list@, pid, n);
            }
        }
    }
    list
}

// ---------------------------------------------------------------------------
// Trees
// ---------------------------------------------------------------------------

/// Where the first process with that number from `from` on stands.
pub open spec fn proc_place(procs: Seq<ProcInfo>, pid: u32, from: int) -> Option<int>
    decreases procs.len() - from,
{
    if from < 0 || from >= procs.len() {
        None
    } else if procs[from].pid == pid {
        Some(from)
    } else {
        proc_place(procs, pid, from + 1)
    }
}

/// A process without its children; one that is gone uses nothing.
pub open spec fn bare_node(procs: Seq<ProcInfo>, pid: u32, children: Seq<NodeModel>) -> NodeModel {
    match proc_place(procs, pid, 0) {
        Some(i) => NodeModel {
            pid,
            name: procs[i].name@,
            rss_bytes: procs[i].rss_bytes,
            cpu_bits: procs[i].cpu_bits,
            children,
        },
        None => NodeModel { pid, name: "<gone>"@, rss_bytes: 0, cpu_bits: 0, children },
    }
}

/// The tree under a process, of the processes in `kept`, down to `depth`
/// generations.
pub open spec fn tree(procs: Seq<ProcInfo>, kept: Seq<u32>, pid: u32, depth: nat) -> NodeModel
    decreases depth, 0nat,
{
    bare_node(
        procs,
        pid,
        if depth == 0 {
            seq![]
        } else {
            forest(procs, kept, kids(procs, pid, procs.len()), (depth - 1) as nat)
        },
    )
}

/// The trees under the processes of a list that are in `kept`.
pub open spec fn forest(procs: Seq<ProcInfo>, kept: Seq<u32>, list: Seq<u32>, depth: nat) -> Seq<
    NodeModel,
>
    decreases depth, list.len() + 1,
{
    if list.len() == 0 {
        seq![]
    } else {
        let before = forest(procs, kept, list.drop_last(), depth);
        if kept.contains(list.last()) {
            before.push(tree(procs, kept, list.last(), depth))
        } else {
            before
        }
    }
}

fn find_proc(procs: &Vec<ProcInfo>, pid: u32) -> (r: Option<usize>)
    ensures
        match r {
            Some(i) => i < procs@.len() && proc_place(procs@, pid, 0) == Some(i as int),
            None => proc_place(procs@, pid, 0) is None,
        },
{
    let mut i: usize = 0;
    while i < procs.len()
        invariant
            i <= procs.len(),
            proc_place(procs@, pid, 0) == proc_place(procs@, pid, i as int),
        decreases procs.len() - i,
    {
        if procs[i].pid == pid {
            return Some(i);
        }
        i += 1;
    }
    None
}

fn kids_of(procs: &Vec<ProcInfo>, pid: u32) -> (r: Vec<u32>)
    ensures
        r@ == kids(procs@, pid, procs@.len()),
{
    let mut out: Vec<u32> = Vec::new();
    let mut i: usize = 0;
    while i < procs.len()
        invariant
            i <= procs.len(),
            out@ == kids(procs@, pid, i as nat),
        decreases procs.len() - i,
    {
        if let Some(q) = procs[i].parent {
            if q == pid {
                out.push(procs[i].pid);
            }
        }
        i += 1;
    }
    out
}

fn bare(procs: &Vec<ProcInfo>, pid: u32, children: Vec<ProcessNode>) -> (r: ProcessNode)
    ensures
        node_model(r) == bare_node(procs@, pid, node_models(children@)),
{
    match find_proc(procs, pid) {
        Some(i) => ProcessNode {
            pid,
            name: procs[i].name.clone(),
            rss_bytes: procs[i].rss_bytes,
            cpu_bits: procs[i].cpu_bits,
            children,
        },
        None => ProcessNode {
            pid,
            name: text::owned("<gone>"),
            rss_bytes: 0,
            cpu_bits: 0,
            children,
        },
    }
}

proof fn lemma_pushed_node(s: Seq<ProcessNode>, n: ProcessNode)
    ensures
        node_models(s.push(n)) == node_models(s).push(node_model(n)),
{
    assert(s.push(n).subrange(0, s.len() as int) =~= s);
}

/// Recursively materialize a [`ProcessNode`] for `pid`, with only those children
/// that are in `kept`.
pub fn build_tree(procs: &Vec<ProcInfo>, kept: &Vec<u32>, pid: u32, depth: usize) -> (r:
    ProcessNode)
    ensures
        node_model(r) == tree(procs@, kept@, pid, depth as nat),
    decreases depth,
{
    let mut children: Vec<ProcessNode> = Vec::new();
    assert(node_models(children@) =~= seq![]);
    if depth > 0 {
        let list = kids_of(procs, pid);
        let mut i: usize = 0;
        assert(list@.take(0) =~= seq![]);
        while i < list.len()
            invariant
                i <= list.len(),
                depth > 0,
                node_models(children@) == forest(
                    procs@,
                    kept@,
                    list@.take(i as int),
                    (depth - 1) as nat,
                ),
            decreases list.len() - i,
        {
            assert(list@.take(i + 1).drop_last() =~= list@.take(i as int));
            assert(list@.take(i + 1).last() == list@[i as int]);
            if holds(kept, list[i]) {
                let node = build_tree(procs, kept, list[i], depth - 1);
                proof {
                    lemma_pushed_node(children@, node);
                }
                children.push(node);
            }
            i += 1;
        }
        assert(list@.take(list@.len() as int) =~= list@);
    }
    bare(procs, pid, children)
}

/// Among the first `n` processes of a group list, those in the group `root` that
/// do not descend from it.
pub open spec fn orphans(
    procs: Seq<ProcInfo>,
    groups: Seq<(u32, u32)>,
    root: u32,
    n: nat,
) -> Seq<u32>
    decreases n,
{
    if n == 0 {
        seq![]
    } else {
        let before = orphans(procs, groups, root, (n - 1) as nat);
        let (pid, group) = groups[n - 1];
        if group == root && !belongs(procs, root, pid) {
            before.push(pid)
        } else {
            before
        }
    }
}

/// The trees of several processes, as they are kept.
pub open spec fn trees(procs: Seq<ProcInfo>, kept: Seq<u32>, list: Seq<u32>, depth: nat) -> Seq<
    NodeModel,
> {
    Seq::new(list.len(), |i: int| tree(procs, kept, list[i], depth))
}

/// Whether `t` is the tree of a session whose shell is `root`: everything that
/// descends from the shell, and beside the shell's own children each process of
/// its group that has lost its parent.
pub open spec fn is_session_tree(
    procs: Seq<ProcInfo>,
    groups: Seq<(u32, u32)>,
    root: u32,
    t: NodeModel,
) -> bool {
    exists|kept: Seq<u32>| #[trigger] session_tree(procs, groups, root, kept) == t && forall|
        pid: u32,
    | #[trigger]
        kept.contains(pid) <==> belongs(procs, root, pid)
}

/// The tree of a session where `kept` descend from its shell.
pub open spec fn session_tree(
    procs: Seq<ProcInfo>,
    groups: Seq<(u32, u32)>,
    root: u32,
    kept: Seq<u32>,
) -> NodeModel {
    let own = tree(procs, kept, root, procs.len());
    NodeModel {
        children: own.children + trees(
            procs,
            kept,
            orphans(procs, groups, root, groups.len()),
            procs.len(),
        ),
        ..own
    }
}

/// The tree of a session whose shell is `root`.
pub fn sample_session(procs: &Vec<ProcInfo>, groups: &Vec<(u32, u32)>, root: u32) -> (r:
    ProcessNode)
    ensures
        is_session_tree(procs@, groups@, root, node_model(r)),
{
    let kept = descendants(procs, root);
    let depth: usize = procs.len();
    let mut node = build_tree(procs, &kept, root, depth);
    let ghost own = node_model(node);
    let mut children: Vec<ProcessNode> = Vec::new();
    std::mem::swap(&mut children, &mut node.children);
    let ghost first = node_models(children@);
    assert(first == own.children);
    let mut i: usize = 0;
    let ghost lost = orphans(procs@, groups@, root, 0);
    assert(first + trees(procs@, kept@, orphans(procs@, groups@, root, 0), depth as nat) =~= first);
    while i < groups.len()
        invariant
            i <= groups.len(),
            depth == procs@.len(),
            forall|pid: u32| #[trigger] kept@.contains(pid) <==> belongs(procs@, root, pid),
            node_models(children@) == first + trees(
                procs@,
                kept@,
                orphans(procs@, groups@, root, i as nat),
                depth as nat,
            ),
        decreases groups.len() - i,
    {
        let (pid, group) = groups[i];
        let ghost before = orphans(procs@, groups@, root, i as nat);
        if group == root && !holds(&kept, pid) {
            let orphan = build_tree(procs, &kept, pid, depth);
            proof {
                lemma_pushed_node(children@, orphan);
                assert(trees(procs@, kept@, before.push(pid), depth as nat) =~= trees(
                    procs@,
                    kept@,
                    before,
                    depth as nat,
                ).push(node_model(orphan)));
                assert((first + trees(procs@, kept@, before, depth as nat)).push(
                    node_model(orphan),
                ) =~= first + trees(procs@, kept@, before.push(pid), depth as nat));
            }
            children.push(orphan);
        }
        i += 1;
    }
    let r = ProcessNode {
        pid: node.pid,
        name: node.name,
        rss_bytes: node.rss_bytes,
        cpu_bits: node.cpu_bits,
        children,
    };
    proof {
        assert(node_model(r) == session_tree(procs@, groups@, root, kept@));
    }
    r
}

// ---------------------------------------------------------------------------
// Reports
// ---------------------------------------------------------------------------

/// Whether `r` is the usage of those of the first `n` sessions whose shell is
/// known.
pub open spec fn are_usages(
    procs: Seq<ProcInfo>,
    groups: Seq<(u32, u32)>,
    sessions: Seq<(SessionMeta, Option<u32>)>,
    n: nat,
    r: Seq<SessionUsage>,
) -> bool
    decreases n,
{
    if n == 0 {
        r.len() == 0
    } else {
        let (meta, pid) = sessions[n - 1];
        match pid {
            Some(root) => {
                &&& r.len() > 0
                &&& r.last().session_id == meta.id
                &&& r.last().project_slug@ == meta.project_slug@
                &&& r.last().worktree_name@ == meta.worktree_name@
                &&& is_session_tree(procs, groups, root, node_model(r.last().root))
                &&& are_usages(procs, groups, sessions, (n - 1) as nat, r.drop_last())
            },
            None => are_usages(procs, groups, sessions, (n - 1) as nat, r),
        }
    }
}

fn session_usages(
    procs: &Vec<ProcInfo>,
    groups: &Vec<(u32, u32)>,
    sessions: &Vec<(SessionMeta, Option<u32>)>,
) -> (r: Vec<SessionUsage>)
    ensures
        are_usages(procs@, groups@, sessions@, sessions@.len(), r@),
{
    let mut out: Vec<SessionUsage> = Vec::new();
    let mut i: usize = 0;
    while i < sessions.len()
        invariant
            i <= sessions.len(),
            are_usages(procs@, groups@, sessions@, i as nat, out@),
        decreases sessions.len() - i,
    {
        if let Some(pid) = sessions[i].1 {
            let root = sample_session(procs, groups, pid);
            let ghost before = out@;
            out.push(
                SessionUsage {
                    session_id: sessions[i].0.id,
                    project_slug: sessions[i].0.project_slug.clone(),
                    worktree_name: sessions[i].0.worktree_name.clone(),
                    root,
                },
            );
            assert(out@.drop_last() =~= before);
        }
        i += 1;
    }
    out
}

/// A process by itself, where it is there.
pub open spec fn single(procs: Seq<ProcInfo>, pid: u32) -> Option<NodeModel> {
    if proc_place(procs, pid, 0) is Some {
        Some(bare_node(procs, pid, seq![]))
    } else {
        None
    }
}

/// A process by itself, where it is there.
pub fn sample_process(procs: &Vec<ProcInfo>, pid: u32) -> (r: Option<ProcessNode>)
    ensures
        match (r, single(procs@, pid)) {
            (Some(a), Some(b)) => node_model(a) == b,
            (None, None) => true,
            _ => false,
        },
{
    if find_proc(procs, pid).is_none() {
        return None;
    }
    let none: Vec<ProcessNode> = Vec::new();
    assert(node_models(none@) =~= seq![]);
    Some(bare(procs, pid, none))
}

/// What the supervisor and its sessions use: a report that names every session
/// whose shell is known, the supervisor itself, and the client where it was
/// found.
pub fn usage_report(
    procs: &Vec<ProcInfo>,
    groups: &Vec<(u32, u32)>,
    sessions: &Vec<(SessionMeta, Option<u32>)>,
    supervisor_pid: u32,
    client_pid: Option<u32>,
    ts_ms: u64,
    cpu_count: u32,
) -> (r: UsageReport)
    ensures
        are_usages(procs@, groups@, sessions@, sessions@.len(), r.sessions@),
        node_model(r.supervisor) == (match single(procs@, supervisor_pid) {
            Some(n) => n,
            None => NodeModel {
                pid: supervisor_pid,
                name: "imbuia"@,
                rss_bytes: 0,
                cpu_bits: 0,
                children: seq![],
            },
        }),
        match client_pid {
            Some(pid) => match (r.client, single(procs@, pid)) {
                (Some(a), Some(b)) => node_model(a) == b,
                (None, None) => true,
                _ => false,
            },
            None => r.client is None,
        },
        r.ts_ms == ts_ms,
        r.cpu_count == cpu_count,
{
    let sampled = session_usages(procs, groups, sessions);
    let supervisor = match sample_process(procs, supervisor_pid) {
        Some(n) => n,
        None => {
            let none: Vec<ProcessNode> = Vec::new();
            assert(node_models(none@) =~= seq![]);
            ProcessNode {
                pid: supervisor_pid,
                name: text::owned("imbuia"),
                rss_bytes: 0,
                cpu_bits: 0,
                children: none,
            }
        },
    };
    let client = match client_pid {
        Some(pid) => sample_process(procs, pid),
        None => None,
    };
    UsageReport { sessions: sampled, supervisor, client, ts_ms, cpu_count }
}

// ---------------------------------------------------------------------------
// Laws
// ---------------------------------------------------------------------------

/// A child of a process that belongs to a session belongs to it too.
pub proof fn law_children_belong_where_their_parent_does(
    procs: Seq<ProcInfo>,
    root: u32,
    i: int,
)
    requires
        0 <= i < procs.len(),
        procs[i].parent matches Some(q) && belongs(procs, root, q),
    ensures
        belongs(procs, root, procs[i].pid),
{
    lemma_child_belongs(procs, root, i);
}

/// Whether every process is of lower rank than its parent, as it is where no
/// process is its own ancestor.
pub open spec fn ranked(procs: Seq<ProcInfo>, rank: spec_fn(u32) -> nat) -> bool {
    forall|i: int|
        0 <= i < procs.len() ==> ((#[trigger] procs[i]).parent matches Some(q) ==> rank(
            procs[i].pid,
        ) < rank(q))
}

proof fn lemma_kids_have_a_parent(procs: Seq<ProcInfo>, pid: u32, n: nat, k: int)
    requires
        n <= procs.len(),
        0 <= k < kids(procs, pid, n).len(),
    ensures
        exists|i: int|
            0 <= i < procs.len() && (#[trigger] procs[i]).pid == kids(procs, pid, n)[k]
                && procs[i].parent == Some(pid),
    decreases n,
{
    let before = kids(procs, pid, (n - 1) as nat);
    if k < before.len() {
        lemma_kids_have_a_parent(procs, pid, (n - 1) as nat, k);
        assert(kids(procs, pid, n)[k] == before[k]);
    } else {
        assert(procs[n - 1].parent == Some(pid));
    }
}

proof fn lemma_forest_is_complete(
    procs: Seq<ProcInfo>,
    kept: Seq<u32>,
    rank: spec_fn(u32) -> nat,
    list: Seq<u32>,
    bound: nat,
    a: nat,
    b: nat,
)
    requires
        ranked(procs, rank),
        bound <= a,
        bound <= b,
        forall|k: int| 0 <= k < list.len() ==> rank(#[trigger] list[k]) <= bound,
    ensures
        forest(procs, kept, list, a) == forest(procs, kept, list, b),
    decreases bound, list.len() + 1,
{
    if list.len() > 0 {
        let front = list.drop_last();
        assert forall|k: int| 0 <= k < front.len() implies rank(#[trigger] front[k]) <= bound by {
            assert(front[k] == list[k]);
        }
        lemma_forest_is_complete(procs, kept, rank, front, bound, a, b);
        assert(rank(list[list.len() - 1]) <= bound);
        law_trees_are_complete(procs, kept, rank, list.last(), bound, a, b);
    }
}

/// Where no process is its own ancestor, trees are complete: more generations
/// than lie between the highest and the lowest show nothing more.
pub proof fn law_trees_are_complete(
    procs: Seq<ProcInfo>,
    kept: Seq<u32>,
    rank: spec_fn(u32) -> nat,
    pid: u32,
    bound: nat,
    a: nat,
    b: nat,
)
    requires
        ranked(procs, rank),
        rank(pid) <= bound,
        bound <= a,
        bound <= b,
    ensures
        tree(procs, kept, pid, a) == tree(procs, kept, pid, b),
    decreases bound, 0nat,
{
    let list = kids(procs, pid, procs.len());
    assert forall|k: int| 0 <= k < list.len() implies rank(#[trigger] list[k]) < rank(pid) by {
        lemma_kids_have_a_parent(procs, pid, procs.len(), k);
    }
    if bound == 0 {
        if list.len() > 0 {
            assert(rank(list[0]) < rank(pid));
        }
        assert(list =~= seq![]);
        assert(a > 0 ==> forest(procs, kept, list, (a - 1) as nat) =~= seq![]);
        assert(b > 0 ==> forest(procs, kept, list, (b - 1) as nat) =~= seq![]);
    } else {
        lemma_forest_is_complete(
            procs,
            kept,
            rank,
            list,
            (bound - 1) as nat,
            (a - 1) as nat,
            (b - 1) as nat,
        );
    }
}

} // verus!
