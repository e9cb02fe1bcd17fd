//! What the reports on resource use show, and how the popup that shows them moves.

use crate::app::{AppModel, CommandModel, SupervisorId, UsageModel};
use crate::event::{KeyCode, KeyEvent};
use crate::ipc::{ProcessNode, SessionMeta, SessionUsage, UsageReport};
use crate::process::{
    are_usages, belongs, forest, is_session_tree, kids, node_model, orphans, proc_place,
    session_tree, single, tree, trees, NodeModel, ProcInfo,
};
use crate::usage::{
    children_rows, client_sampled, law_reports_stay_sorted, lemma_report_place, report_place,
    reports_sorted, section, sections, session_at_cursor, session_rows, sessions_rows, usage_key,
    usage_received, usage_rows, with_report, RowModel,
};
use vstd::prelude::*;

verus! {

// ---------------------------------------------------------------------------
// Processes
// ---------------------------------------------------------------------------

/// Whether a process is the first in the list with that number.
pub open spec fn is_first(procs: Seq<ProcInfo>, i: int, pid: u32) -> bool {
    &&& 0 <= i < procs.len()
    &&& procs[i].pid == pid
    &&& forall|j: int| 0 <= j < i ==> (#[trigger] procs[j]).pid != pid
}

/// Whether a node shows what the system reported of its process: name, memory and
/// CPU.
pub open spec fn shows(procs: Seq<ProcInfo>, n: NodeModel) -> bool {
    forall|i: int| #[trigger]
        is_first(procs, i, n.pid) ==> n.name == procs[i].name@ && n.rss_bytes
            == procs[i].rss_bytes && n.cpu_bits == procs[i].cpu_bits
}

/// The node that a path leads to, child by child.
pub open spec fn node_at(t: NodeModel, path: Seq<int>) -> Option<NodeModel>
    decreases path.len(),
{
    if path.len() == 0 {
        Some(t)
    } else if 0 <= path[0] < t.children.len() {
        node_at(t.children[path[0]], path.skip(1))
    } else {
        None
    }
}

proof fn lemma_place(procs: Seq<ProcInfo>, pid: u32, from: int)
    requires
        0 <= from <= procs.len(),
    ensures
        match proc_place(procs, pid, from) {
            Some(i) => from <= i < procs.len() && procs[i].pid == pid && forall|j: int|
                from <= j < i ==> (#[trigger] procs[j]).pid != pid,
            None => forall|j: int| from <= j < procs.len() ==> (#[trigger] procs[j]).pid != pid,
        },
    decreases procs.len() - from,
{
    if from < procs.len() && procs[from].pid != pid {
        lemma_place(procs, pid, from + 1);
    }
}

proof fn lemma_tree_shows(procs: Seq<ProcInfo>, kept: Seq<u32>, pid: u32, depth: nat)
    ensures
        shows(procs, tree(procs, kept, pid, depth)),
        tree(procs, kept, pid, depth).pid == pid,
{
    lemma_place(procs, pid, 0);
    let n = tree(procs, kept, pid, depth);
    assert forall|i: int| #[trigger] is_first(procs, i, n.pid) implies n.name == procs[i].name@
        && n.rss_bytes == procs[i].rss_bytes && n.cpu_bits == procs[i].cpu_bits by {
        let at = proc_place(procs, pid, 0);
        if at is None {
            assert(procs[i].pid != pid);
        } else if at->Some_0 < i {
            assert(procs[at->Some_0].pid != pid);
        } else if i < at->Some_0 {
            assert(procs[i].pid != pid);
        }
    }
}

/// Each tree of a forest is that of a process of the list.
proof fn lemma_forest(procs: Seq<ProcInfo>, kept: Seq<u32>, list: Seq<u32>, depth: nat, k: int)
    requires
        0 <= k < forest(procs, kept, list, depth).len(),
    ensures
        exists|j: int|
            0 <= j < list.len() && kept.contains(list[j]) && forest(procs, kept, list, depth)[k]
                == tree(procs, kept, #[trigger] list[j], depth),
    decreases list.len(),
{
    let before = forest(procs, kept, list.drop_last(), depth);
    if k < before.len() {
        lemma_forest(procs, kept, list.drop_last(), depth, k);
        let j = choose|j: int|
            0 <= j < list.drop_last().len() && kept.contains(list.drop_last()[j]) && before[k]
                == tree(procs, kept, #[trigger] list.drop_last()[j], depth);
        assert(list[j] == list.drop_last()[j]);
    } else {
        assert(list[list.len() - 1] == list.last());
    }
}

proof fn lemma_paths_show(
    procs: Seq<ProcInfo>,
    kept: Seq<u32>,
    pid: u32,
    depth: nat,
    path: Seq<int>,
)
    requires
        node_at(tree(procs, kept, pid, depth), path) is Some,
    ensures
        shows(procs, node_at(tree(procs, kept, pid, depth), path)->Some_0),
    decreases path.len(),
{
    lemma_tree_shows(procs, kept, pid, depth);
    if path.len() > 0 {
        let list = kids(procs, pid, procs.len());
        let d = (depth - 1) as nat;
        lemma_forest(procs, kept, list, d, path[0]);
        let j = choose|j: int|
            0 <= j < list.len() && kept.contains(list[j]) && forest(procs, kept, list, d)[path[0]]
                == tree(procs, kept, #[trigger] list[j], d);
        lemma_paths_show(procs, kept, list[j], d, path.skip(1));
    }
}

/// Every node in the tree of a session shows what the system reported of the first
/// process with its number: its name, its memory and its CPU use.
pub proof fn law_every_node_shows_its_process(
    procs: Seq<ProcInfo>,
    groups: Seq<(u32, u32)>,
    root: u32,
    t: NodeModel,
    path: Seq<int>,
)
    requires
        is_session_tree(procs, groups, root, t),
        node_at(t, path) is Some,
    ensures
        t.pid == root,
        shows(procs, node_at(t, path)->Some_0),
{
    let kept = choose|kept: Seq<u32>| #[trigger]
        session_tree(procs, groups, root, kept) == t && forall|pid: u32| #[trigger]
            kept.contains(pid) <==> belongs(procs, root, pid);
    let own = tree(procs, kept, root, procs.len());
    lemma_tree_shows(procs, kept, root, procs.len());
    if path.len() == 0 {
        assert(shows(procs, t)) by {
            assert forall|i: int| #[trigger] is_first(procs, i, t.pid) implies t.name
                == procs[i].name@ && t.rss_bytes == procs[i].rss_bytes && t.cpu_bits
                == procs[i].cpu_bits by {
                assert(is_first(procs, i, own.pid));
            }
        }
    } else {
        let lost = orphans(procs, groups, root, groups.len());
        let k = path[0];
        if k < own.children.len() {
            assert(t.children[k] == own.children[k]);
            assert(node_at(own, path) == node_at(t, path));
            lemma_paths_show(procs, kept, root, procs.len(), path);
        } else {
            let pid = lost[k - own.children.len()];
            assert(t.children[k] == trees(procs, kept, lost, procs.len())[k - own.children.len()]);
            assert(t.children[k] == tree(procs, kept, pid, procs.len()));
            lemma_paths_show(procs, kept, pid, procs.len(), path.skip(1));
        }
    }
}

/// A process by itself is there if and only if the list has it, and shows what the
/// system reported of it; so do the supervisor and the client in a report.
pub proof fn law_single_processes_show_themselves(procs: Seq<ProcInfo>, pid: u32)
    ensures
        single(procs, pid) is Some <==> exists|i: int|
            0 <= i < procs.len() && (#[trigger] procs[i]).pid == pid,
        single(procs, pid) matches Some(n) ==> n.pid == pid && shows(procs, n) && n.children.len()
            == 0,
{
    lemma_place(procs, pid, 0);
    if proc_place(procs, pid, 0) is Some {
        lemma_tree_shows(procs, seq![], pid, 0);
        assert(procs[proc_place(procs, pid, 0)->Some_0].pid == pid);
        assert(tree(procs, seq![], pid, 0) == single(procs, pid)->Some_0);
    }
}

/// Whether a process of that number has that parent.
pub open spec fn is_child(procs: Seq<ProcInfo>, i: int, pid: u32, parent: u32) -> bool {
    0 <= i < procs.len() && procs[i].pid == pid && procs[i].parent == Some(parent)
}

/// Whether the list has a process of that number with that parent.
pub open spec fn has_parent(procs: Seq<ProcInfo>, pid: u32, parent: u32) -> bool {
    exists|i: int| #[trigger] is_child(procs, i, pid, parent)
}

proof fn lemma_kids_are_all(procs: Seq<ProcInfo>, pid: u32, n: nat)
    requires
        n <= procs.len(),
    ensures
        forall|i: int|
            0 <= i < n && (#[trigger] procs[i]).parent == Some(pid) ==> kids(
                procs,
                pid,
                n,
            ).contains(procs[i].pid),
        forall|k: int|
            #![trigger kids(procs, pid, n)[k]]
            0 <= k < kids(procs, pid, n).len() ==> has_parent(procs, kids(procs, pid, n)[k], pid),
    decreases n,
{
    if n > 0 {
        lemma_kids_are_all(procs, pid, (n - 1) as nat);
        let before = kids(procs, pid, (n - 1) as nat);
        let all = kids(procs, pid, n);
        assert forall|i: int|
            0 <= i < n && (#[trigger] procs[i]).parent == Some(pid) implies all.contains(
            procs[i].pid,
        ) by {
            if i < n - 1 {
                assert(before.contains(procs[i].pid));
                let k = choose|k: int| 0 <= k < before.len() && before[k] == procs[i].pid;
                assert(all[k] == procs[i].pid);
            } else {
                assert(all[before.len() as int] == procs[i].pid);
            }
        }
        assert forall|k: int|
            #![trigger all[k]]
            0 <= k < all.len() implies has_parent(procs, all[k], pid) by {
            if k < before.len() {
                assert(all[k] == before[k]);
            } else {
                assert(is_child(procs, n - 1, all[k], pid));
            }
        }
    }
}

proof fn lemma_forest_has(
    procs: Seq<ProcInfo>,
    kept: Seq<u32>,
    list: Seq<u32>,
    depth: nat,
    j: int,
)
    requires
        0 <= j < list.len(),
        kept.contains(list[j]),
    ensures
        forest(procs, kept, list, depth).contains(tree(procs, kept, list[j], depth)),
    decreases list.len(),
{
    let before = forest(procs, kept, list.drop_last(), depth);
    let all = forest(procs, kept, list, depth);
    let want = tree(procs, kept, list[j], depth);
    if j < list.len() - 1 {
        lemma_forest_has(procs, kept, list.drop_last(), depth, j);
        let k = choose|k: int| 0 <= k < before.len() && before[k] == want;
        assert(all[k] == want);
    } else {
        assert(all[before.len() as int] == want);
    }
}

/// Under the shell of a session stand all processes that it started, and nothing
/// else but processes of its group.
pub proof fn law_the_shell_has_its_children_under_it(
    procs: Seq<ProcInfo>,
    groups: Seq<(u32, u32)>,
    root: u32,
    t: NodeModel,
)
    requires
        is_session_tree(procs, groups, root, t),
    ensures
        forall|i: int, pid: u32| #[trigger]
            is_child(procs, i, pid, root) ==> exists|k: int|
                0 <= k < t.children.len() && (#[trigger] t.children[k]).pid == pid,
        forall|k: int|
            #![trigger t.children[k]]
            0 <= k < t.children.len() ==> has_parent(
                procs,
                t.children[k].pid,
                root,
            ) || groups.contains(
                (t.children[k].pid, root),
            ),
        forall|j: int|
            0 <= j < groups.len() && (#[trigger] groups[j]).1 == root && !belongs(
                procs,
                root,
                groups[j].0,
            ) ==> exists|k: int|
                0 <= k < t.children.len() && (#[trigger] t.children[k]).pid == groups[j].0,
{
    let kept = choose|kept: Seq<u32>| #[trigger]
        session_tree(procs, groups, root, kept) == t && forall|pid: u32| #[trigger]
            kept.contains(pid) <==> belongs(procs, root, pid);
    let own = tree(procs, kept, root, procs.len());
    let list = kids(procs, root, procs.len());
    let d = (procs.len() - 1) as nat;
    let lost = orphans(procs, groups, root, groups.len());
    lemma_kids_are_all(procs, root, procs.len());
    lemma_orphans(procs, groups, root, groups.len());
    assert(crate::process::descends(procs, root, root, 0));
    assert forall|i: int, pid: u32| #[trigger] is_child(procs, i, pid, root) implies exists|k: int|
        0 <= k < t.children.len() && (#[trigger] t.children[k]).pid == pid by {
        assert(list.contains(procs[i].pid));
        let j = choose|j: int| 0 <= j < list.len() && list[j] == pid;
        crate::process::law_children_belong_where_their_parent_does(procs, root, i);
        assert(kept.contains(pid));
        lemma_forest_has(procs, kept, list, d, j);
        lemma_tree_shows(procs, kept, pid, d);
        let k = choose|k: int|
            0 <= k < own.children.len() && own.children[k] == tree(procs, kept, pid, d);
        assert(t.children[k] == own.children[k]);
        assert(t.children[k].pid == pid);
    }
    assert forall|k: int|
        #![trigger t.children[k]]
        0 <= k < t.children.len() implies has_parent(procs, t.children[k].pid, root) || groups.contains(
        (t.children[k].pid, root),
    ) by {
        if k < own.children.len() {
            assert(t.children[k] == own.children[k]);
            lemma_forest(procs, kept, list, d, k);
            let j = choose|j: int|
                0 <= j < list.len() && kept.contains(list[j]) && forest(procs, kept, list, d)[k]
                    == tree(procs, kept, #[trigger] list[j], d);
            lemma_tree_shows(procs, kept, list[j], d);
            assert(has_parent(procs, list[j], root));
        } else {
            let pid = lost[k - own.children.len()];
            assert(t.children[k] == tree(procs, kept, pid, procs.len()));
            lemma_tree_shows(procs, kept, pid, procs.len());
            assert(groups.contains((pid, root)));
        }
    }
    assert forall|j: int|
        0 <= j < groups.len() && (#[trigger] groups[j]).1 == root && !belongs(
            procs,
            root,
            groups[j].0,
        ) implies exists|k: int|
        0 <= k < t.children.len() && (#[trigger] t.children[k]).pid == groups[j].0 by {
        let pid = groups[j].0;
        assert(lost.contains(pid));
        let i = choose|i: int| 0 <= i < lost.len() && lost[i] == pid;
        let k = own.children.len() + i;
        assert(t.children[k] == tree(procs, kept, pid, procs.len()));
        lemma_tree_shows(procs, kept, pid, procs.len());
    }
}

proof fn lemma_orphans(procs: Seq<ProcInfo>, groups: Seq<(u32, u32)>, root: u32, n: nat)
    requires
        n <= groups.len(),
    ensures
        forall|k: int|
            0 <= k < orphans(procs, groups, root, n).len() ==> groups.contains(
                (#[trigger] orphans(procs, groups, root, n)[k], root),
            ),
        forall|j: int|
            0 <= j < n && (#[trigger] groups[j]).1 == root && !belongs(procs, root, groups[j].0)
                ==> orphans(procs, groups, root, n).contains(groups[j].0),
    decreases n,
{
    if n > 0 {
        lemma_orphans(procs, groups, root, (n - 1) as nat);
        let before = orphans(procs, groups, root, (n - 1) as nat);
        let all = orphans(procs, groups, root, n);
        assert forall|k: int| 0 <= k < all.len() implies groups.contains(
            (#[trigger] all[k], root),
        ) by {
            if k < before.len() {
                assert(all[k] == before[k]);
            } else {
                assert(groups[n - 1] == (all[k], root));
            }
        }
        assert forall|j: int|
            0 <= j < n && (#[trigger] groups[j]).1 == root && !belongs(
                procs,
                root,
                groups[j].0,
            ) implies all.contains(groups[j].0) by {
            if j < n - 1 {
                assert(before.contains(groups[j].0));
                let k = choose|k: int| 0 <= k < before.len() && before[k] == groups[j].0;
                assert(all[k] == before[k]);
            } else {
                assert(all[before.len() as int] == groups[j].0);
            }
        }
    }
}

/// Whether a session's usage is in the list: under its number and names, with the
/// tree of its shell.
#[verifier::opaque]
pub open spec fn is_usage_of(
    procs: Seq<ProcInfo>,
    groups: Seq<(u32, u32)>,
    s: (SessionMeta, Option<u32>),
    u: SessionUsage,
) -> bool {
    &&& s.1 is Some
    &&& u.session_id == s.0.id
    &&& u.project_slug@ == s.0.project_slug@
    &&& u.worktree_name@ == s.0.worktree_name@
    &&& is_session_tree(procs, groups, s.1->Some_0, node_model(u.root))
}

/// A report holds the usage of every session whose shell is known, and of no other.
pub proof fn law_every_known_session_is_reported(
    procs: Seq<ProcInfo>,
    groups: Seq<(u32, u32)>,
    sessions: Seq<(SessionMeta, Option<u32>)>,
    n: nat,
    r: Seq<SessionUsage>,
)
    requires
        n <= sessions.len(),
        are_usages(procs, groups, sessions, n, r),
    ensures
        forall|i: int|
            0 <= i < n && (#[trigger] sessions[i]).1 is Some ==> exists|k: int|
                0 <= k < r.len() && is_usage_of(procs, groups, sessions[i], #[trigger] r[k]),
        forall|k: int|
            #![trigger r[k]]
            0 <= k < r.len() ==> exists|i: int|
                0 <= i < n && is_usage_of(procs, groups, #[trigger] sessions[i], r[k]),
    decreases n,
{
    if n > 0 {
        let m = (n - 1) as nat;
        let front = if sessions[n - 1].1 is Some {
            r.drop_last()
        } else {
            r
        };
        law_every_known_session_is_reported(procs, groups, sessions, m, front);
        assert forall|i: int| 0 <= i < n && (#[trigger] sessions[i]).1 is Some implies exists|k: int|
            0 <= k < r.len() && is_usage_of(procs, groups, sessions[i], #[trigger] r[k]) by {
            if i < m {
                let k = choose|k: int|
                    0 <= k < front.len() && is_usage_of(
                        procs,
                        groups,
                        sessions[i],
                        #[trigger] front[k],
                    );
                assert(r[k] == front[k]);
            } else {
                assert(is_usage_of(procs, groups, sessions[i], r[r.len() - 1])) by {
                    reveal(is_usage_of);
                }
            }
        }
        assert forall|k: int|
            #![trigger r[k]]
            0 <= k < r.len() implies exists|i: int|
            0 <= i < n && is_usage_of(procs, groups, #[trigger] sessions[i], r[k]) by {
            if k < front.len() {
                assert(r[k] == front[k]);
                let i = choose|i: int|
                    0 <= i < m && is_usage_of(procs, groups, #[trigger] sessions[i], front[k]);
                assert(is_usage_of(procs, groups, sessions[i], r[k]));
            } else {
                assert(is_usage_of(procs, groups, sessions[n - 1], r[k])) by {
                    reveal(is_usage_of);
                }
            }
        }
    }
}

// ---------------------------------------------------------------------------
// The popup
// ---------------------------------------------------------------------------

proof fn lemma_sessions_rows(
    all: Seq<SessionUsage>,
    expanded: Seq<u64>,
    n: nat,
    i: int,
)
    requires
        0 <= i < n <= all.len(),
    ensures
        sessions_rows(all, expanded, n).contains(
            RowModel::Session {
                session_id: all[i].session_id,
                usage: all[i],
                expanded: expanded.contains(all[i].session_id),
            },
        ),
    decreases n,
{
    let before = sessions_rows(all, expanded, (n - 1) as nat);
    let rows = sessions_rows(all, expanded, n);
    let row = RowModel::Session {
        session_id: all[i].session_id,
        usage: all[i],
        expanded: expanded.contains(all[i].session_id),
    };
    if i < n - 1 {
        lemma_sessions_rows(all, expanded, (n - 1) as nat, i);
        let k = choose|k: int| 0 <= k < before.len() && before[k] == row;
        assert(rows[k] == row);
    } else {
        let own = session_rows(all[i], expanded);
        assert(own[0] == row);
        assert(rows[before.len() as int] == own[0]);
    }
}

proof fn lemma_sections(popup: UsageModel, n: nat, r: int)
    requires
        0 <= r < n <= popup.reports.len(),
    ensures
        forall|row: RowModel|
            section(
                popup.reports[r].0,
                popup.reports[r].1,
                popup.supervisors,
                popup.expanded,
            ).contains(row) ==> #[trigger] sections(popup, n).contains(row),
    decreases n,
{
    let (id, report) = popup.reports[n - 1];
    let before = sections(popup, (n - 1) as nat);
    let last = section(id, report, popup.supervisors, popup.expanded);
    let all = sections(popup, n);
    assert(all == before + last);
    let mine = section(
        popup.reports[r].0,
        popup.reports[r].1,
        popup.supervisors,
        popup.expanded,
    );
    if r < n - 1 {
        lemma_sections(popup, (n - 1) as nat, r);
    }
    assert forall|row: RowModel| mine.contains(row) implies #[trigger] all.contains(row) by {
        if r < n - 1 {
            assert(before.contains(row));
            let k = choose|k: int| 0 <= k < before.len() && before[k] == row;
            assert(all[k] == row);
        } else {
            let k = choose|k: int| 0 <= k < last.len() && last[k] == row;
            assert(all[before.len() + k] == row);
        }
    }
}

/// The popup has a row for the name of every supervisor that reported, for each of
/// its sessions, for its own process, and for the client.
pub proof fn law_every_session_has_its_row(popup: UsageModel, r: int, i: int)
    requires
        0 <= r < popup.reports.len(),
    ensures
        ({
            let rows = usage_rows(popup);
            let report = popup.reports[r].1;
            &&& rows.contains(
                RowModel::SupervisorHeader {
                    name: popup.supervisors.name_of(popup.reports[r].0),
                },
            )
            &&& rows.contains(RowModel::Supervisor(report.supervisor))
            &&& 0 <= i < report.sessions@.len() ==> rows.contains(
                RowModel::Session {
                    session_id: report.sessions@[i].session_id,
                    usage: report.sessions@[i],
                    expanded: popup.expanded.contains(report.sessions@[i].session_id),
                },
            )
            &&& popup.client matches Some(node) ==> rows.last() == RowModel::Client(node)
        }),
{
    let rows = usage_rows(popup);
    let (id, report) = popup.reports[r];
    let part = section(id, report, popup.supervisors, popup.expanded);
    let all = sections(popup, popup.reports.len());
    lemma_sections(popup, popup.reports.len(), r);
    let own = sessions_rows(report.sessions@, popup.expanded, report.sessions@.len());
    assert(part[0] == RowModel::SupervisorHeader { name: popup.supervisors.name_of(id) });
    assert(part[part.len() - 1] == RowModel::Supervisor(report.supervisor));
    assert(part.contains(part[0]) && part.contains(part[part.len() - 1]));
    if 0 <= i < report.sessions@.len() {
        lemma_sessions_rows(report.sessions@, popup.expanded, report.sessions@.len(), i);
        let row = RowModel::Session {
            session_id: report.sessions@[i].session_id,
            usage: report.sessions@[i],
            expanded: popup.expanded.contains(report.sessions@[i].session_id),
        };
        let k = choose|k: int| 0 <= k < own.len() && own[k] == row;
        assert(part[k + 1] == row);
        assert(part.contains(row));
        assert(all.contains(row));
    }
    assert forall|row: RowModel| all.contains(row) implies rows.contains(row) by {
        let k = choose|k: int| 0 <= k < all.len() && all[k] == row;
        assert(rows[k] == row);
    }
    assert(all.contains(part[0]));
    assert(all.contains(part[part.len() - 1]));
}

/// The processes of a session are listed exactly while it is unfolded.
pub proof fn law_processes_show_while_unfolded(u: SessionUsage, expanded: Seq<u64>)
    ensures
        session_rows(u, expanded)[0] == (RowModel::Session {
            session_id: u.session_id,
            usage: u,
            expanded: expanded.contains(u.session_id),
        }),
        session_rows(u, expanded).skip(1) == (if expanded.contains(u.session_id) {
            children_rows(u.root.children@, 1)
        } else {
            seq![]
        }),
{
    let open = if expanded.contains(u.session_id) {
        children_rows(u.root.children@, 1)
    } else {
        seq![]
    };
    assert(session_rows(u, expanded).skip(1) =~= open);
}

/// Keys in the usage popup: down and up move by one row and never off the rows,
/// right unfolds and left folds the selected session and nothing else, and Esc and
/// `q` close the popup and end the reports.
pub proof fn law_usage_keys_move_and_fold(m: AppModel, k: KeyEvent)
    requires
        m.usage_popup is Some,
        usage_rows(m.usage_popup->Some_0).len() <= u16::MAX,
    ensures
        ({
            let popup = m.usage_popup->Some_0;
            let n = usage_rows(popup).len();
            let (after, cmds) = usage_key(m, k);
            let c = k.code;
            if c == KeyCode::Esc || c == KeyCode::Char('q') {
                after == (AppModel { usage_popup: None, ..m }) && cmds == seq![
                    CommandModel::UnsubscribeUsage,
                ]
            } else {
                &&& cmds.len() == 0
                &&& after.usage_popup matches Some(p) && {
                    &&& after == (AppModel { usage_popup: Some(p), ..m })
                    &&& p == (UsageModel { cursor: p.cursor, expanded: p.expanded, ..popup })
                    &&& (c == KeyCode::Char('j') || c == KeyCode::Down) && popup.cursor + 1 < n
                        ==> p.cursor == popup.cursor + 1
                    &&& (c == KeyCode::Char('j') || c == KeyCode::Down) && popup.cursor + 1 >= n
                        && n > 0 ==> p.cursor == n - 1
                    &&& (c == KeyCode::Char('k') || c == KeyCode::Up) && popup.cursor > 0
                        ==> p.cursor == popup.cursor - 1
                    &&& (c == KeyCode::Char('k') || c == KeyCode::Up) && popup.cursor == 0
                        ==> p.cursor == 0
                    &&& (c == KeyCode::Char('l') || c == KeyCode::Right || c == KeyCode::Enter)
                        ==> p.cursor == popup.cursor && forall|id: u64|
                        p.expanded.contains(id) <==> #[trigger] popup.expanded.contains(id)
                            || session_at_cursor(popup) == Some(id)
                    &&& (c == KeyCode::Char('h') || c == KeyCode::Left) ==> p.cursor
                        == popup.cursor && forall|id: u64|
                        p.expanded.contains(id) <==> #[trigger] popup.expanded.contains(id)
                            && session_at_cursor(popup) != Some(id)
                }
            }
        }),
{
    let popup = m.usage_popup->Some_0;
    match session_at_cursor(popup) {
        Some(id) => {
            lemma_with(popup.expanded, id);
            lemma_without(popup.expanded, id);
        },
        None => {},
    }
}

proof fn lemma_with(s: Seq<u64>, id: u64)
    ensures
        forall|x: u64|
            crate::session::with(s, id).contains(x) <==> #[trigger] s.contains(x) || x == id,
{
    let w = crate::session::with(s, id);
    assert forall|x: u64| w.contains(x) <==> #[trigger] s.contains(x) || x == id by {
        if !s.contains(id) {
            assert(w[s.len() as int] == id);
            if s.contains(x) {
                let k = choose|k: int| 0 <= k < s.len() && s[k] == x;
                assert(w[k] == x);
            }
            if w.contains(x) && x != id {
                let k = choose|k: int| 0 <= k < w.len() && w[k] == x;
                assert(s[k] == x);
            }
        }
    }
}

proof fn lemma_without(s: Seq<u64>, id: u64)
    ensures
        forall|x: u64|
            crate::session::without(s, id).contains(x) <==> #[trigger] s.contains(x) && x != id,
    decreases s.len(),
{
    if s.len() > 0 {
        let front = s.drop_last();
        lemma_without(front, id);
        let w = crate::session::without(s, id);
        let wf = crate::session::without(front, id);
        assert forall|x: u64| w.contains(x) <==> #[trigger] s.contains(x) && x != id by {
            assert(s.contains(x) <==> front.contains(x) || x == s.last()) by {
                if s.contains(x) {
                    let k = choose|k: int| 0 <= k < s.len() && s[k] == x;
                    if k < front.len() {
                        assert(front[k] == x);
                    }
                }
                if front.contains(x) {
                    let k = choose|k: int| 0 <= k < front.len() && front[k] == x;
                    assert(s[k] == x);
                }
                assert(s[s.len() - 1] == s.last());
            }
            if s.last() != id {
                assert(w[wf.len() as int] == s.last());
                if wf.contains(x) {
                    let k = choose|k: int| 0 <= k < wf.len() && wf[k] == x;
                    assert(w[k] == x);
                }
                if w.contains(x) {
                    let k = choose|k: int| 0 <= k < w.len() && w[k] == x;
                    if k < wf.len() {
                        assert(wf[k] == x);
                    }
                }
            }
        }
    }
}

/// The session that a row of the popup selects is the one it shows; the header of a
/// supervisor selects the session right below it, and other rows select none.
pub proof fn law_rows_select_their_session(popup: UsageModel)
    requires
        popup.cursor + 1 < usage_rows(popup).len(),
    ensures
        ({
            let rows = usage_rows(popup);
            let row = rows[popup.cursor as int];
            let below = rows[popup.cursor + 1];
            &&& row matches RowModel::Session { session_id, .. } ==> session_at_cursor(popup)
                == Some(session_id)
            &&& row is Process || row is Supervisor || row is Client ==> session_at_cursor(popup)
                is None
            &&& row is SupervisorHeader ==> (match below {
                RowModel::Session { session_id, .. } => session_at_cursor(popup) == Some(
                    session_id,
                ),
                _ => session_at_cursor(popup) is None,
            })
        }),
{
}

// ---------------------------------------------------------------------------
// Reports that arrive
// ---------------------------------------------------------------------------

proof fn lemma_rows_do_not_follow_the_cursor(p: UsageModel, cursor: u16, n: nat)
    requires
        n <= p.reports.len(),
    ensures
        sections((UsageModel { cursor, ..p }), n) == sections(p, n),
    decreases n,
{
    if n > 0 {
        lemma_rows_do_not_follow_the_cursor(p, cursor, (n - 1) as nat);
    }
}

/// A report that arrives while the popup is open is shown in place of its supervisor's
/// last one, and the others stay; the client's own sample is kept apart from them. Either
/// moves the cursor only where its row is gone. While the popup is closed nothing changes.
pub proof fn law_the_latest_report_is_shown(
    m: AppModel,
    id: SupervisorId,
    report: UsageReport,
    node: ProcessNode,
)
    requires
        m.usage_popup matches Some(p) ==> reports_sorted(p.reports),
    ensures
        m.usage_popup is None ==> usage_received(m, id, report) == m && client_sampled(m, node) == m,
        m.usage_popup matches Some(p) ==> ({
            let after = usage_received(m, id, report);
            let q = after.usage_popup->Some_0;
            &&& after == (AppModel { usage_popup: Some(q), ..m })
            &&& q == (UsageModel { reports: q.reports, cursor: q.cursor, ..p })
            &&& q.reports.contains((id, report))
            &&& forall|k: int|
                0 <= k < q.reports.len() ==> (#[trigger] q.reports[k]) == (id, report) || (
                q.reports[k].0 != id && p.reports.contains(q.reports[k]))
            &&& forall|k: int|
                0 <= k < p.reports.len() && (#[trigger] p.reports[k]).0 != id
                    ==> q.reports.contains(p.reports[k])
            &&& q.cursor <= p.cursor
            &&& p.cursor < usage_rows(q).len() <= u16::MAX ==> q.cursor == p.cursor
        }),
        m.usage_popup matches Some(p) ==> ({
            let after = client_sampled(m, node);
            let q = after.usage_popup->Some_0;
            &&& after == (AppModel { usage_popup: Some(q), ..m })
            &&& q == (UsageModel { client: Some(node), cursor: q.cursor, ..p })
            &&& q.cursor <= p.cursor
            &&& p.cursor < usage_rows(q).len() <= u16::MAX ==> q.cursor == p.cursor
        }),
{
    if let Some(p) = m.usage_popup {
        law_reports_stay_sorted(p.reports, id, report);
        let shown = UsageModel { reports: with_report(p.reports, id, report), ..p };
        let sampled = UsageModel { client: Some(node), ..p };
        let at = usage_received(m, id, report).usage_popup->Some_0.cursor;
        lemma_rows_do_not_follow_the_cursor(shown, at, shown.reports.len());
        let at = client_sampled(m, node).usage_popup->Some_0.cursor;
        lemma_rows_do_not_follow_the_cursor(sampled, at, sampled.reports.len());
        lemma_report_place(p.reports, id, 0);
        let i = report_place(p.reports, id, 0);
        let q = usage_received(m, id, report).usage_popup->Some_0;
        assert forall|k: int| 0 <= k < q.reports.len() implies (#[trigger] q.reports[k]) == (
            id,
            report,
        ) || (q.reports[k].0 != id && p.reports.contains(q.reports[k])) by {
            if i < p.reports.len() && p.reports[i].0 == id {
                if k != i {
                    assert(q.reports[k] == p.reports[k]);
                }
            } else if k < i {
                assert(q.reports[k] == p.reports[k]);
            } else if k > i {
                assert(q.reports[k] == p.reports[k - 1]);
            }
        }
    }
}

} // verus!
