use imbuia::app::PrStatus;
use imbuia::github::{classify, CheckRollupEntry, PrInfo};

/// Classifies a PR that is put together from what is given.
fn classify_with(
    state: &str,
    decision: Option<&str>,
    mergeable: Option<&str>,
    checks: &[(&str, &str)],
) -> Option<PrStatus> {
    let pr = PrInfo {
        head_ref_name: "x".into(),
        state: state.into(),
        review_decision: decision.map(String::from),
        mergeable: mergeable.map(String::from),
        status_check_rollup: checks
            .iter()
            .map(|(status, conclusion)| CheckRollupEntry {
                status: Some((*status).into()),
                conclusion: Some((*conclusion).into()),
                state: None,
            })
            .collect(),
    };
    classify(&pr)
}

#[test]
fn merged_beats_everything() {
    assert_eq!(
        classify_with(
            "MERGED",
            Some("CHANGES_REQUESTED"),
            Some("CONFLICTING"),
            &[("COMPLETED", "FAILURE")]
        ),
        Some(PrStatus::Merged)
    );
}

#[test]
fn failure_beats_changes_requested() {
    assert_eq!(
        classify_with(
            "OPEN",
            Some("CHANGES_REQUESTED"),
            None,
            &[("COMPLETED", "FAILURE")]
        ),
        Some(PrStatus::Failed)
    );
}

#[test]
fn conflict_is_failure() {
    assert_eq!(
        classify_with("OPEN", Some("APPROVED"), Some("CONFLICTING"), &[]),
        Some(PrStatus::Failed)
    );
}

#[test]
fn changes_requested_beats_running() {
    assert_eq!(
        classify_with(
            "OPEN",
            Some("CHANGES_REQUESTED"),
            None,
            &[("IN_PROGRESS", "")]
        ),
        Some(PrStatus::ChangesRequested)
    );
}

#[test]
fn pending_when_only_in_progress() {
    assert_eq!(
        classify_with("OPEN", None, None, &[("IN_PROGRESS", "")]),
        Some(PrStatus::Running)
    );
}

#[test]
fn clean_open_pr_returns_open() {
    assert_eq!(
        classify_with(
            "OPEN",
            Some("APPROVED"),
            Some("MERGEABLE"),
            &[("COMPLETED", "SUCCESS")]
        ),
        Some(PrStatus::Open)
    );
}

#[test]
fn closed_without_merge_returns_none() {
    assert_eq!(classify_with("CLOSED", None, None, &[]), None);
}
