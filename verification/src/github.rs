//! The state of a pull request, from what the `gh` CLI reports.

use crate::app::PrStatus;
use crate::text;
use vstd::prelude::*;

verus! {

/// One PR as returned by `gh pr list --json …`. Field set is intentionally
/// minimal — only what we need to classify into a [`PrStatus`].
#[derive(Debug, Clone)]
pub struct PrInfo {
    pub head_ref_name: String,
    /// `"OPEN" | "CLOSED" | "MERGED"` per the GitHub GraphQL enum.
    pub state: String,
    /// `null | "APPROVED" | "CHANGES_REQUESTED" | "REVIEW_REQUIRED"` etc.
    pub review_decision: Option<String>,
    /// `"MERGEABLE" | "CONFLICTING" | "UNKNOWN"`. Used to surface merge
    /// conflicts as the same "needs attention" color as CI failures.
    pub mergeable: Option<String>,
    /// The checks; only each entry's overall conclusion/status counts.
    pub status_check_rollup: Vec<CheckRollupEntry>,
}

#[derive(Debug, Clone)]
pub struct CheckRollupEntry {
    /// `"COMPLETED" | "IN_PROGRESS" | "PENDING" | "QUEUED" | …`
    pub status: Option<String>,
    /// `"SUCCESS" | "FAILURE" | "CANCELLED" | "TIMED_OUT" | …` — only set
    /// once status == "COMPLETED".
    pub conclusion: Option<String>,
    /// Some entries (legacy commit statuses) use `state` instead of
    /// status/conclusion: `"PENDING" | "SUCCESS" | "FAILURE" | "ERROR"`.
    pub state: Option<String>,
}

/// Whether `s` is `word`, whatever its case.
pub open spec fn reads(s: Seq<char>, word: Seq<char>) -> bool {
    text::lower_ascii(s) == text::lower_ascii(word)
}

/// Whether `o` is there and is `word`, whatever its case.
pub open spec fn says(o: Option<String>, word: Seq<char>) -> bool {
    o matches Some(s) && reads(s@, word)
}

fn is_word(o: &Option<String>, word: &str) -> (r: bool)
    ensures
        r == says(*o, word@),
{
    match o {
        Some(s) => text::same_ignore_case(s.as_str(), word),
        None => false,
    }
}

/// Whether a check failed.
pub open spec fn failed(c: CheckRollupEntry) -> bool {
    ||| says(c.state, "FAILURE"@) || says(c.state, "ERROR"@)
    ||| says(c.status, "COMPLETED"@) && (says(c.conclusion, "FAILURE"@) || says(
        c.conclusion,
        "TIMED_OUT"@,
    ) || says(c.conclusion, "CANCELLED"@) || says(c.conclusion, "ACTION_REQUIRED"@))
}

/// Whether a check is still to come or under way.
pub open spec fn pending(c: CheckRollupEntry) -> bool {
    ||| says(c.state, "PENDING"@) || says(c.state, "EXPECTED"@)
    ||| says(c.status, "IN_PROGRESS"@) || says(c.status, "QUEUED"@) || says(c.status, "PENDING"@)
        || says(c.status, "WAITING"@)
}

fn check_failed(c: &CheckRollupEntry) -> (r: bool)
    ensures
        r == failed(*c),
{
    is_word(&c.state, "FAILURE") || is_word(&c.state, "ERROR") || (is_word(&c.status, "COMPLETED")
        && (is_word(&c.conclusion, "FAILURE") || is_word(&c.conclusion, "TIMED_OUT") || is_word(
        &c.conclusion,
        "CANCELLED",
    ) || is_word(&c.conclusion, "ACTION_REQUIRED")))
}

fn check_pending(c: &CheckRollupEntry) -> (r: bool)
    ensures
        r == pending(*c),
{
    is_word(&c.state, "PENDING") || is_word(&c.state, "EXPECTED") || is_word(
        &c.status,
        "IN_PROGRESS",
    ) || is_word(&c.status, "QUEUED") || is_word(&c.status, "PENDING") || is_word(
        &c.status,
        "WAITING",
    )
}

/// Whether some check failed.
pub open spec fn any_failed(pr: PrInfo) -> bool {
    exists|i: int|
        0 <= i < pr.status_check_rollup@.len() && failed(#[trigger] pr.status_check_rollup@[i])
}

/// Whether some check is still to come or under way.
pub open spec fn any_pending(pr: PrInfo) -> bool {
    exists|i: int|
        0 <= i < pr.status_check_rollup@.len() && pending(#[trigger] pr.status_check_rollup@[i])
}

/// The status of a PR, by the first of these that applies.
pub open spec fn status_of(pr: PrInfo) -> Option<PrStatus> {
    if reads(pr.state@, "MERGED"@) {
        Some(PrStatus::Merged)
    } else if !reads(pr.state@, "OPEN"@) {
        None
    } else if any_failed(pr) || says(pr.mergeable, "CONFLICTING"@) {
        Some(PrStatus::Failed)
    } else if says(pr.review_decision, "CHANGES_REQUESTED"@) {
        Some(PrStatus::ChangesRequested)
    } else if any_pending(pr) {
        Some(PrStatus::Running)
    } else {
        Some(PrStatus::Open)
    }
}

/// Classify a single PR. Returns `None` only for closed-not-merged — every
/// other state maps onto a [`PrStatus`] variant so the sidebar always shows
/// *something* for any worktree that has a PR.
///
/// Precedence: Merged > Failed (CI failure or merge conflict) >
/// ChangesRequested > Running > Open.
pub fn classify(pr: &PrInfo) -> (r: Option<PrStatus>)
    ensures
        r == status_of(*pr),
{
    if text::same_ignore_case(pr.state.as_str(), "MERGED") {
        return Some(PrStatus::Merged);
    }
    if !text::same_ignore_case(pr.state.as_str(), "OPEN") {
        return None;
    }
    let mut some_failed = false;
    let mut some_pending = false;
    let mut i: usize = 0;
    while i < pr.status_check_rollup.len()
        invariant
            i <= pr.status_check_rollup.len(),
            some_failed == exists|j: int|
                0 <= j < i && failed(#[trigger] pr.status_check_rollup@[j]),
            some_pending == exists|j: int|
                0 <= j < i && pending(#[trigger] pr.status_check_rollup@[j]),
        decreases pr.status_check_rollup.len() - i,
    {
        let c = &pr.status_check_rollup[i];
        if check_failed(c) {
            some_failed = true;
            assert(failed(pr.status_check_rollup@[i as int]));
        }
        if check_pending(c) {
            some_pending = true;
            assert(pending(pr.status_check_rollup@[i as int]));
        }
        i += 1;
    }
    if some_failed || is_word(&pr.mergeable, "CONFLICTING") {
        return Some(PrStatus::Failed);
    }
    if is_word(&pr.review_decision, "CHANGES_REQUESTED") {
        return Some(PrStatus::ChangesRequested);
    }
    if some_pending {
        return Some(PrStatus::Running);
    }
    Some(PrStatus::Open)
}

/// The status of the first PR in the list that `gh` gave; none without one.
pub fn first_status(prs: &Vec<PrInfo>) -> (r: Option<PrStatus>)
    ensures
        r == (if prs@.len() == 0 {
            None
        } else {
            status_of(prs@[0])
        }),
{
    if prs.len() == 0 {
        None
    } else {
        classify(&prs[0])
    }
}

/// The arguments of the `gh` call that lists the PR of a branch.
pub fn pr_list_args(branch: &str) -> (r: Vec<String>)
    ensures
        text::texts(r@) == seq![
            "pr"@,
            "list"@,
            "--head"@,
            branch@,
            "--state"@,
            "all"@,
            "--limit"@,
            "1"@,
            "--json"@,
            "headRefName,state,reviewDecision,mergeable,statusCheckRollup"@,
        ],
{
    let mut v: Vec<String> = Vec::new();
    v.push(text::owned("pr"));
    v.push(text::owned("list"));
    v.push(text::owned("--head"));
    v.push(text::owned(branch));
    v.push(text::owned("--state"));
    v.push(text::owned("all"));
    v.push(text::owned("--limit"));
    v.push(text::owned("1"));
    v.push(text::owned("--json"));
    v.push(text::owned("headRefName,state,reviewDecision,mergeable,statusCheckRollup"));
    v
}

/// A PR has no status if and only if it is neither merged nor open.
pub proof fn law_only_closed_prs_have_no_status(pr: PrInfo)
    ensures
        status_of(pr) is None <==> !reads(pr.state@, "MERGED"@) && !reads(pr.state@, "OPEN"@),
{
}

} // verus!
