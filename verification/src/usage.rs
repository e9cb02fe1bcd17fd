//! The resource-usage popup: its rows, its cursor and its keys.

use crate::app::{
    AppModel, AppState, Command, CommandModel, Commands, DirectoryModel, SupervisorId, UsageModel,
    UsagePopup,
};
use crate::event::{KeyCode, KeyEvent};
use crate::ipc::{ProcessNode, SessionUsage, UsageReport};
use crate::session::{with, without, SessionId};
use crate::sidebar::{quiet, Step};
use vstd::prelude::*;

verus! {

/// One row in the usage popup's flattened view.
#[derive(Debug)]
pub enum UsageRow<'a> {
    /// Section header naming a supervisor (`local` or a remote's name).
    SupervisorHeader { name: String },
    Session { session_id: SessionId, usage: &'a SessionUsage, expanded: bool },
    Process { depth: u16, node: &'a ProcessNode },
    /// A supervisor's own process (labelled by the preceding header).
    Supervisor(&'a ProcessNode),
    /// This client process (one row, after all supervisor sections).
    Client(&'a ProcessNode),
}

/// A row in the abstract.
pub enum RowModel {
    SupervisorHeader { name: Seq<char> },
    Session { session_id: SessionId, usage: SessionUsage, expanded: bool },
    Process { depth: u16, node: ProcessNode },
    Supervisor(ProcessNode),
    Client(ProcessNode),
}

impl<'a> View for UsageRow<'a> {
    type V = RowModel;

    open spec fn view(&self) -> RowModel {
        match *self {
            UsageRow::SupervisorHeader { name } => RowModel::SupervisorHeader { name: name@ },
            UsageRow::Session { session_id, usage, expanded } => RowModel::Session {
                session_id,
                usage: *usage,
                expanded,
            },
            UsageRow::Process { depth, node } => RowModel::Process { depth, node: *node },
            UsageRow::Supervisor(node) => RowModel::Supervisor(*node),
            UsageRow::Client(node) => RowModel::Client(*node),
        }
    }
}

/// The rows in a list.
pub open spec fn row_models<'a>(v: Seq<UsageRow<'a>>) -> Seq<RowModel> {
    Seq::new(v.len(), |i: int| v[i]@)
}

/// One level deeper, as far as a depth is counted.
pub open spec fn deeper(depth: u16) -> u16 {
    if depth < u16::MAX {
        (depth + 1) as u16
    } else {
        depth
    }
}

/// The rows of a process and all its descendants, each process before its
/// children.
pub open spec fn process_rows(node: ProcessNode, depth: u16) -> Seq<RowModel>
    decreases node,
{
    seq![RowModel::Process { depth, node }] + children_rows(node.children@, deeper(depth))
}

/// The rows of several processes and all their descendants.
pub open spec fn children_rows(nodes: Seq<ProcessNode>, depth: u16) -> Seq<RowModel>
    decreases nodes,
{
    if nodes.len() == 0 {
        seq![]
    } else {
        process_rows(nodes[0], depth) + children_rows(
            nodes.subrange(1, nodes.len() as int),
            depth,
        )
    }
}

/// The rows of a session: itself, and the processes under its shell where it is
/// unfolded.
pub open spec fn session_rows(su: SessionUsage, expanded: Seq<SessionId>) -> Seq<RowModel> {
    let open = expanded.contains(su.session_id);
    seq![RowModel::Session { session_id: su.session_id, usage: su, expanded: open }] + (if open {
        children_rows(su.root.children@, 1)
    } else {
        seq![]
    })
}

/// The rows of the first `n` sessions.
pub open spec fn sessions_rows(
    all: Seq<SessionUsage>,
    expanded: Seq<SessionId>,
    n: nat,
) -> Seq<RowModel>
    decreases n,
{
    if n == 0 {
        seq![]
    } else {
        sessions_rows(all, expanded, (n - 1) as nat) + session_rows(all[n - 1], expanded)
    }
}

/// The section of one supervisor: its name, its sessions, its own process.
pub open spec fn section(
    id: SupervisorId,
    report: UsageReport,
    dir: DirectoryModel,
    expanded: Seq<SessionId>,
) -> Seq<RowModel> {
    seq![RowModel::SupervisorHeader { name: dir.name_of(id) }] + sessions_rows(
        report.sessions@,
        expanded,
        report.sessions@.len(),
    ) + seq![RowModel::Supervisor(report.supervisor)]
}

/// The sections of the first `n` supervisors.
pub open spec fn sections(popup: UsageModel, n: nat) -> Seq<RowModel>
    decreases n,
{
    if n == 0 {
        seq![]
    } else {
        let (id, report) = popup.reports[n - 1];
        sections(popup, (n - 1) as nat) + section(id, report, popup.supervisors, popup.expanded)
    }
}

/// Every row: a section for each supervisor, then this process.
pub open spec fn usage_rows(popup: UsageModel) -> Seq<RowModel> {
    sections(popup, popup.reports.len()) + (match popup.client {
        Some(node) => seq![RowModel::Client(node)],
        None => seq![],
    })
}

fn push_children<'a>(rows: &mut Vec<UsageRow<'a>>, nodes: &'a Vec<ProcessNode>, depth: u16)
    ensures
        row_models(final(rows)@) == row_models(old(rows)@) + children_rows(nodes@, depth),
    decreases nodes, 0nat,
{
    let mut i: usize = 0;
    let n: usize = nodes.len();
    assert(nodes@.subrange(0, n as int) =~= nodes@);
    let ghost start = row_models(rows@);
    let ghost want = children_rows(nodes@, depth);
    let ghost done = Seq::<RowModel>::empty();
    assert(start + done =~= start);
    assert(done + want =~= want);
    while i < n
        invariant
            i <= n == nodes.len(),
            want == children_rows(nodes@, depth),
            row_models(rows@) == start + done,
            want == done + children_rows(nodes@.subrange(i as int, n as int), depth),
        decreases n - i,
    {
        let ghost rest = nodes@.subrange(i as int, n as int);
        assert(rest[0] == nodes[i as int]);
        assert(rest.subrange(1, rest.len() as int) =~= nodes@.subrange(i + 1, n as int));
        assert(decreases_to!(nodes@ => nodes@[i as int]));
        push_process_rows(rows, &nodes[i], depth);
        proof {
            let here = process_rows(nodes@[i as int], depth);
            assert(start + (done + here) =~= (start + done) + here);
            assert(done + (here + children_rows(nodes@.subrange(i + 1, n as int), depth)) =~= (done
                + here) + children_rows(nodes@.subrange(i + 1, n as int), depth));
            done = done + here;
        }
        i += 1;
    }
    assert(nodes@.subrange(n as int, n as int).len() == 0);
    assert(done + children_rows(nodes@.subrange(n as int, n as int), depth) =~= done);
}

/// Appends the rows of a process and all its descendants.
pub fn push_process_rows<'a>(rows: &mut Vec<UsageRow<'a>>, node: &'a ProcessNode, depth: u16)
    ensures
        row_models(final(rows)@) == row_models(old(rows)@) + process_rows(*node, depth),
    decreases node, 1nat,
{
    let ghost start = row_models(rows@);
    rows.push(UsageRow::Process { depth, node });
    assert(row_models(rows@) =~= start.push(RowModel::Process { depth, node: *node }));
    let below: u16 = if depth < u16::MAX {
        depth + 1
    } else {
        depth
    };
    push_children(rows, &node.children, below);
    assert(row_models(rows@) =~= start + process_rows(*node, depth));
}

fn push_session_rows<'a>(rows: &mut Vec<UsageRow<'a>>, su: &'a SessionUsage, popup: &UsagePopup)
    ensures
        row_models(final(rows)@) == row_models(old(rows)@) + session_rows(*su, popup@.expanded),
{
    let ghost start = row_models(rows@);
    let open = popup.expanded.contains(&su.session_id);
    rows.push(UsageRow::Session { session_id: su.session_id, usage: su, expanded: open });
    let ghost head = RowModel::Session {
        session_id: su.session_id,
        usage: *su,
        expanded: open,
    };
    assert(row_models(rows@) =~= start.push(head));
    if open {
        push_children(rows, &su.root.children, 1);
    }
    assert(row_models(rows@) =~= start + session_rows(*su, popup@.expanded));
}

fn push_section<'a>(
    rows: &mut Vec<UsageRow<'a>>,
    id: SupervisorId,
    report: &'a UsageReport,
    popup: &UsagePopup,
)
    ensures
        row_models(final(rows)@) == row_models(old(rows)@) + section(
            id,
            *report,
            popup@.supervisors,
            popup@.expanded,
        ),
{
    let ghost start = row_models(rows@);
    let name = popup.supervisors.name_of(id);
    let ghost head = RowModel::SupervisorHeader { name: name@ };
    rows.push(UsageRow::SupervisorHeader { name });
    assert(row_models(rows@) =~= start.push(head));
    let mut i: usize = 0;
    assert(row_models(rows@) =~= start + seq![head] + sessions_rows(
        report.sessions@,
        popup@.expanded,
        0,
    ));
    while i < report.sessions.len()
        invariant
            i <= report.sessions.len(),
            row_models(rows@) == start + seq![head] + sessions_rows(
                report.sessions@,
                popup@.expanded,
                i as nat,
            ),
        decreases report.sessions.len() - i,
    {
        push_session_rows(rows, &report.sessions[i], popup);
        proof {
            let a = sessions_rows(report.sessions@, popup@.expanded, i as nat);
            let b = session_rows(report.sessions@[i as int], popup@.expanded);
            assert(start + seq![head] + (a + b) =~= (start + seq![head] + a) + b);
        }
        i += 1;
    }
    let ghost before = row_models(rows@);
    rows.push(UsageRow::Supervisor(&report.supervisor));
    assert(row_models(rows@) =~= before.push(RowModel::Supervisor(report.supervisor)));
    assert(row_models(rows@) =~= start + section(id, *report, popup@.supervisors, popup@.expanded));
}

/// Flatten the popup state into the rows currently visible to the user. One
/// section per supervisor (its sessions + its own process), then a single
/// `Client` row sampled locally.
pub fn usage_visible_rows<'a>(popup: &'a UsagePopup) -> (r: Vec<UsageRow<'a>>)
    ensures
        row_models(r@) == usage_rows(popup@),
{
    let mut rows: Vec<UsageRow<'a>> = Vec::new();
    let mut i: usize = 0;
    assert(row_models(rows@) =~= sections(popup@, 0));
    while i < popup.reports.len()
        invariant
            i <= popup.reports.len(),
            row_models(rows@) == sections(popup@, i as nat),
        decreases popup.reports.len() - i,
    {
        push_section(&mut rows, popup.reports[i].0, &popup.reports[i].1, popup);
        i += 1;
    }
    let ghost before = row_models(rows@);
    if let Some(client) = &popup.client {
        rows.push(UsageRow::Client(client));
        assert(row_models(rows@) =~= before.push(RowModel::Client(*client)));
    }
    assert(row_models(rows@) =~= usage_rows(popup@));
    rows
}

/// How many rows show.
pub fn usage_visible_row_count(popup: &UsagePopup) -> (r: usize)
    ensures
        r == usage_rows(popup@).len(),
{
    let rows = usage_visible_rows(popup);
    assert(row_models(rows@).len() == rows@.len());
    rows.len()
}

/// The last row, as far as a cursor can say.
pub open spec fn last_row(popup: UsageModel) -> u16 {
    let n = usage_rows(popup).len();
    if n > 0 {
        ((n - 1) as usize) as u16
    } else {
        0
    }
}

fn max_cursor(popup: &UsagePopup) -> (r: u16)
    ensures
        r == last_row(popup@),
{
    let n: usize = usage_visible_row_count(popup);
    if n > 0 {
        (n - 1) as u16
    } else {
        0
    }
}

/// The popup with its cursor brought up to the last row.
pub open spec fn cursor_held(popup: UsageModel) -> UsageModel {
    UsageModel {
        cursor: if popup.cursor <= last_row(popup) {
            popup.cursor
        } else {
            last_row(popup)
        },
        ..popup
    }
}

fn hold_cursor(popup: &mut UsagePopup)
    ensures
        final(popup)@ == cursor_held(old(popup)@),
{
    let max: u16 = max_cursor(popup);
    if popup.cursor > max {
        popup.cursor = max;
    }
}

/// Of the reports, sorted by supervisor, that of `id` replaced or put in its
/// place.
pub open spec fn with_report(
    reports: Seq<(SupervisorId, UsageReport)>,
    id: SupervisorId,
    report: UsageReport,
) -> Seq<(SupervisorId, UsageReport)> {
    let i = report_place(reports, id, 0);
    if i < reports.len() && reports[i].0 == id {
        reports.update(i, (id, report))
    } else {
        reports.insert(i, (id, report))
    }
}

/// The first place from `from` on that does not come before `id`.
pub open spec fn report_place(
    reports: Seq<(SupervisorId, UsageReport)>,
    id: SupervisorId,
    from: int,
) -> int
    decreases reports.len() - from,
{
    if from < 0 || from >= reports.len() || reports[from].0.0 >= id.0 {
        from
    } else {
        report_place(reports, id, from + 1)
    }
}

/// Takes a report in.
pub fn add_report(popup: &mut UsagePopup, id: SupervisorId, report: UsageReport)
    ensures
        final(popup)@ == (UsageModel {
            reports: with_report(old(popup)@.reports, id, report),
            ..old(popup)@
        }),
{
    let mut i: usize = 0;
    while i < popup.reports.len() && popup.reports[i].0.0 < id.0
        invariant
            i <= popup.reports.len(),
            popup == old(popup),
            report_place(popup@.reports, id, 0) == report_place(popup@.reports, id, i as int),
        decreases popup.reports.len() - i,
    {
        i += 1;
    }
    assert(report_place(popup@.reports, id, 0) == i);
    if i < popup.reports.len() && popup.reports[i].0.0 == id.0 {
        popup.reports.set(i, (id, report));
    } else {
        popup.reports.insert(i, (id, report));
    }
}

/// Whether reports come sorted by supervisor, none of them twice.
pub open spec fn reports_sorted(reports: Seq<(SupervisorId, UsageReport)>) -> bool {
    forall|i: int, j: int|
        0 <= i < j < reports.len() ==> (#[trigger] reports[i]).0.0 < (#[trigger] reports[j]).0.0
}

pub proof fn lemma_report_place(reports: Seq<(SupervisorId, UsageReport)>, id: SupervisorId, from: int)
    requires
        0 <= from <= reports.len(),
    ensures
        from <= report_place(reports, id, from) <= reports.len(),
        forall|k: int|
            from <= k < report_place(reports, id, from) ==> (#[trigger] reports[k]).0.0 < id.0,
        report_place(reports, id, from) < reports.len() ==> reports[report_place(
            reports,
            id,
            from,
        )].0.0 >= id.0,
    decreases reports.len() - from,
{
    if from < reports.len() && reports[from].0.0 < id.0 {
        lemma_report_place(reports, id, from + 1);
    }
}

/// Reports stay sorted by supervisor, each supervisor's last one is kept, and a
/// new one does not touch the others.
pub proof fn law_reports_stay_sorted(
    reports: Seq<(SupervisorId, UsageReport)>,
    id: SupervisorId,
    report: UsageReport,
)
    requires
        reports_sorted(reports),
    ensures
        reports_sorted(with_report(reports, id, report)),
        with_report(reports, id, report).contains((id, report)),
        forall|k: int|
            0 <= k < reports.len() && (#[trigger] reports[k]).0 != id ==> with_report(
                reports,
                id,
                report,
            ).contains(reports[k]),
{
    lemma_report_place(reports, id, 0);
    let i = report_place(reports, id, 0);
    let now = with_report(reports, id, report);
    assert(now[i] == (id, report));
    assert forall|k: int| 0 <= k < reports.len() && (
    #[trigger] reports[k]).0 != id implies now.contains(reports[k]) by {
        if i < reports.len() && reports[i].0 == id {
            assert(now[k] == reports[k]);
        } else if k < i {
            assert(now[k] == reports[k]);
        } else {
            assert(now[k + 1] == reports[k]);
        }
    }
}

/// The first place from `from` on that holds the report of `id`.
pub open spec fn report_of(
    reports: Seq<(SupervisorId, UsageReport)>,
    id: SupervisorId,
    from: int,
) -> Option<int>
    decreases reports.len() - from,
{
    if from < 0 || from >= reports.len() {
        None
    } else if reports[from].0 == id {
        Some(from)
    } else {
        report_of(reports, id, from + 1)
    }
}

/// The reports without that of `id`.
pub open spec fn without_report(
    reports: Seq<(SupervisorId, UsageReport)>,
    id: SupervisorId,
) -> Seq<(SupervisorId, UsageReport)> {
    match report_of(reports, id, 0) {
        Some(i) => reports.remove(i),
        None => reports,
    }
}

/// The popup without the section of `id`.
pub open spec fn section_dropped(popup: UsageModel, id: SupervisorId) -> UsageModel {
    cursor_held(UsageModel { reports: without_report(popup.reports, id), ..popup })
}

/// Takes the section of `id` out of the popup.
pub fn drop_section(popup: &mut UsagePopup, id: SupervisorId)
    ensures
        final(popup)@ == section_dropped(old(popup)@, id),
{
    let mut i: usize = 0;
    while i < popup.reports.len() && popup.reports[i].0 != id
        invariant
            i <= popup.reports.len(),
            popup == old(popup),
            report_of(popup@.reports, id, 0) == report_of(popup@.reports, id, i as int),
        decreases popup.reports.len() - i,
    {
        i += 1;
    }
    if i < popup.reports.len() {
        let _ = popup.reports.remove(i);
    }
    hold_cursor(popup);
}

proof fn lemma_report_of(reports: Seq<(SupervisorId, UsageReport)>, id: SupervisorId, from: int)
    requires
        0 <= from <= reports.len(),
    ensures
        match report_of(reports, id, from) {
            Some(i) => from <= i < reports.len() && reports[i].0 == id,
            None => forall|k: int| from <= k < reports.len() ==> (#[trigger] reports[k]).0 != id,
        },
    decreases reports.len() - from,
{
    if from < reports.len() && reports[from].0 != id {
        lemma_report_of(reports, id, from + 1);
    }
}

/// Of a supervisor whose section was dropped no report is left, and the others
/// stay sorted.
pub proof fn law_dropped_sections_are_gone(
    reports: Seq<(SupervisorId, UsageReport)>,
    id: SupervisorId,
)
    requires
        reports_sorted(reports),
    ensures
        reports_sorted(without_report(reports, id)),
        forall|k: int|
            0 <= k < without_report(reports, id).len() ==> (#[trigger] without_report(
                reports,
                id,
            )[k]).0 != id,
{
    lemma_report_of(reports, id, 0);
    if let Some(i) = report_of(reports, id, 0) {
        let now = reports.remove(i);
        assert forall|k: int| 0 <= k < now.len() implies (#[trigger] now[k]).0 != id by {
            if k < i {
                assert(now[k] == reports[k]);
                assert(reports[k].0.0 < reports[i].0.0);
            } else {
                assert(now[k] == reports[k + 1]);
                assert(reports[i].0.0 < reports[k + 1].0.0);
            }
        }
        assert forall|a: int, b: int| 0 <= a < b < now.len() implies (#[trigger] now[a]).0.0 < (
        #[trigger] now[b]).0.0 by {
            let c = if a < i {
                a
            } else {
                a + 1
            };
            let d = if b < i {
                b
            } else {
                b + 1
            };
            assert(now[a] == reports[c] && now[b] == reports[d]);
        }
    }
}

/// A supervisor's report arrives: it is shown if the popup is open.
pub open spec fn usage_received(m: AppModel, id: SupervisorId, report: UsageReport) -> AppModel {
    match m.usage_popup {
        Some(popup) => AppModel {
            usage_popup: Some(
                cursor_held(
                    UsageModel { reports: with_report(popup.reports, id, report), ..popup },
                ),
            ),
            ..m
        },
        None => m,
    }
}

/// Takes in a supervisor's report.
pub fn receive_usage(state: &mut AppState, id: SupervisorId, report: UsageReport)
    ensures
        final(state)@ == usage_received(old(state)@, id, report),
{
    if let Some(popup) = &mut state.usage_popup {
        add_report(popup, id, report);
        hold_cursor(popup);
    }
}

/// This process's own usage arrives: it is shown if the popup is open.
pub open spec fn client_sampled(m: AppModel, node: ProcessNode) -> AppModel {
    match m.usage_popup {
        Some(popup) => AppModel {
            usage_popup: Some(cursor_held(UsageModel { client: Some(node), ..popup })),
            ..m
        },
        None => m,
    }
}

/// Takes in this process's own usage.
pub fn receive_client_usage(state: &mut AppState, node: ProcessNode)
    ensures
        final(state)@ == client_sampled(old(state)@, node),
{
    if let Some(popup) = &mut state.usage_popup {
        popup.client = Some(node);
        hold_cursor(popup);
    }
}

/// The session of a row, if it is a session's.
pub open spec fn session_of_row(rows: Seq<RowModel>, i: int) -> Option<SessionId> {
    if 0 <= i < rows.len() {
        match rows[i] {
            RowModel::Session { session_id, .. } => Some(session_id),
            _ => None,
        }
    } else {
        None
    }
}

/// The session that the cursor selects: that of its row, or the first one below
/// where it is on the header of a section.
pub open spec fn session_at_cursor(popup: UsageModel) -> Option<SessionId> {
    let rows = usage_rows(popup);
    let at = popup.cursor as int;
    if at < rows.len() && rows[at] is SupervisorHeader {
        session_of_row(rows, at + 1)
    } else {
        session_of_row(rows, at)
    }
}

fn row_session(rows: &Vec<UsageRow<'_>>, i: usize) -> (r: Option<SessionId>)
    ensures
        r == session_of_row(row_models(rows@), i as int),
{
    assert(row_models(rows@).len() == rows@.len());
    if i < rows.len() {
        assert(row_models(rows@)[i as int] == rows@[i as int]@);
        match &rows[i] {
            UsageRow::Session { session_id, .. } => Some(*session_id),
            _ => None,
        }
    } else {
        None
    }
}

/// The session that the cursor selects.
pub fn session_id_at_cursor(popup: &UsagePopup) -> (r: Option<SessionId>)
    ensures
        r == session_at_cursor(popup@),
{
    let rows = usage_visible_rows(popup);
    let at: usize = popup.cursor as usize;
    assert(row_models(rows@).len() == rows@.len());
    if at < rows.len() {
        assert(row_models(rows@)[at as int] == rows@[at as int]@);
        if matches!(&rows[at], UsageRow::SupervisorHeader { .. }) {
            return row_session(&rows, at + 1);
        }
    }
    row_session(&rows, at)
}

/// The open popup after a key: `j`/`k` move, `l` unfolds and `h` folds the
/// session under the cursor.
pub open spec fn usage_moved(popup: UsageModel, code: KeyCode) -> UsageModel {
    if code == KeyCode::Char('j') || code == KeyCode::Down {
        let next = if popup.cursor < u16::MAX {
            (popup.cursor + 1) as u16
        } else {
            popup.cursor
        };
        UsageModel {
            cursor: if next <= last_row(popup) {
                next
            } else {
                last_row(popup)
            },
            ..popup
        }
    } else if code == KeyCode::Char('k') || code == KeyCode::Up {
        UsageModel {
            cursor: if popup.cursor > 0 {
                (popup.cursor - 1) as u16
            } else {
                0
            },
            ..popup
        }
    } else if code == KeyCode::Char('l') || code == KeyCode::Right || code == KeyCode::Enter {
        match session_at_cursor(popup) {
            Some(id) => UsageModel { expanded: with(popup.expanded, id), ..popup },
            None => popup,
        }
    } else if code == KeyCode::Char('h') || code == KeyCode::Left {
        match session_at_cursor(popup) {
            Some(id) => UsageModel { expanded: without(popup.expanded, id), ..popup },
            None => popup,
        }
    } else {
        popup
    }
}

/// What a key does while the popup is open: Esc or `q` closes it and stops the
/// reports.
pub open spec fn usage_key(m: AppModel, k: KeyEvent) -> Step {
    match m.usage_popup {
        Some(popup) => if k.code == KeyCode::Esc || k.code == KeyCode::Char('q') {
            (AppModel { usage_popup: None, ..m }, seq![CommandModel::UnsubscribeUsage])
        } else {
            quiet(AppModel { usage_popup: Some(usage_moved(popup, k.code)), ..m })
        },
        None => quiet(m),
    }
}

fn move_in_usage(popup: &mut UsagePopup, code: KeyCode)
    ensures
        final(popup)@ == usage_moved(old(popup)@, code),
{
    match code {
        KeyCode::Char('j') | KeyCode::Down => {
            let max: u16 = max_cursor(popup);
            let next: u16 = if popup.cursor < u16::MAX {
                popup.cursor + 1
            } else {
                popup.cursor
            };
            popup.cursor = if next <= max {
                next
            } else {
                max
            };
        },
        KeyCode::Char('k') | KeyCode::Up => {
            if popup.cursor > 0 {
                popup.cursor = popup.cursor - 1;
            }
        },
        KeyCode::Char('l') | KeyCode::Right | KeyCode::Enter => {
            if let Some(id) = session_id_at_cursor(popup) {
                popup.expanded.insert(id);
            }
        },
        KeyCode::Char('h') | KeyCode::Left => {
            if let Some(id) = session_id_at_cursor(popup) {
                popup.expanded.remove(&id);
            }
        },
        _ => {},
    }
}

/// What a key does while the usage popup is open.
pub fn handle_usage_popup_key(state: &mut AppState, k: KeyEvent, cmds: &mut Commands)
    ensures
        final(state)@ == usage_key(old(state)@, k).0,
        final(cmds)@ == old(cmds)@ + usage_key(old(state)@, k).1,
{
    if state.usage_popup.is_none() {
        assert(cmds@ =~= old(cmds)@ + Seq::<CommandModel>::empty());
        return;
    }
    if k.code == KeyCode::Esc || k.code == KeyCode::Char('q') {
        state.usage_popup = None;
        cmds.push(Command::UnsubscribeUsage);
        assert(cmds@ =~= old(cmds)@ + seq![CommandModel::UnsubscribeUsage]);
        return;
    }
    if let Some(popup) = &mut state.usage_popup {
        move_in_usage(popup, k.code);
    }
    assert(cmds@ =~= old(cmds)@ + Seq::<CommandModel>::empty());
}

} // verus!
