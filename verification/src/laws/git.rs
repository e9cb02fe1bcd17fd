//! What git is asked when worktrees come and go, and what is made of its answers.

use crate::app::PrStatus;
use crate::git::{
    add_answered, add_begun, add_call, answer, names, removal_answered, removal_call, remote_in,
    AddModel, CallModel, RemovalModel, RemovePhase,
};
use crate::github::{reads, says, status_of, PrInfo};
use crate::text;
use vstd::prelude::*;

verus! {

/// An answer of git.
pub type Answer = Result<Seq<char>, Seq<char>>;

/// The adding of a worktree once git has answered so often.
pub open spec fn added(m: AddModel, answers: Seq<Answer>) -> AddModel
    decreases answers.len(),
{
    if answers.len() == 0 {
        m
    } else {
        add_answered(added(m, answers.drop_last()), answers.last())
    }
}

/// The arguments of what git is asked once it has answered so often.
pub open spec fn asked(dest: Seq<char>, branch: Seq<char>, answers: Seq<Answer>) -> Option<
    Seq<Seq<char>>,
> {
    match add_call(added(add_begun(dest, branch), answers)) {
        Some(c) => Some(c.args),
        None => None,
    }
}

proof fn lemma_added(m: AddModel, answers: Seq<Answer>, r: Answer)
    ensures
        added(m, answers.push(r)) == add_answered(added(m, answers), r),
{
    assert(answers.push(r).drop_last() =~= answers);
}

/// An existing branch is checked out where it shall go: that is the first thing
/// that is tried, and where it works nothing else is asked.
pub proof fn law_an_existing_branch_is_checked_out(
    dest: Seq<char>,
    branch: Seq<char>,
    out: Seq<char>,
)
    ensures
        asked(dest, branch, seq![]) == Some(seq!["worktree"@, "add"@, dest, branch]),
        asked(dest, branch, seq![Ok(out)]) is None,
        added(add_begun(dest, branch), seq![Ok(out)]).failure is None,
{
    let none = Seq::<Answer>::empty();
    lemma_added(add_begun(dest, branch), none, Ok(out));
    assert(none.push(Ok(out)) =~= seq![Ok::<Seq<char>, Seq<char>>(out)]);
}

/// A new branch starts at the freshly fetched HEAD of the remote: where git lists a
/// remote, fetches it and says what its HEAD is, the branch is created there; if it
/// says so only once the HEAD has been set, all the same.
pub proof fn law_a_new_branch_starts_at_the_fetched_head(
    dest: Seq<char>,
    branch: Seq<char>,
    e: Seq<char>,
    remotes: Seq<char>,
    remote: Seq<char>,
    fetched: Seq<char>,
    head: Seq<char>,
    unset: Seq<char>,
    set: Seq<char>,
)
    requires
        remote_in(remotes) == Some(remote),
    ensures
        asked(dest, branch, seq![Err(e)]) == Some(seq!["remote"@]),
        asked(dest, branch, seq![Err(e), Ok(remotes)]) == Some(seq!["fetch"@, remote]),
        asked(dest, branch, seq![Err(e), Ok(remotes), Ok(fetched)]) == Some(
            seq!["rev-parse"@, "--abbrev-ref"@, remote + "/HEAD"@],
        ),
        asked(dest, branch, seq![Err(e), Ok(remotes), Ok(fetched), Ok(head)]) == Some(
            seq!["worktree"@, "add"@, "--no-track"@, "-b"@, branch, dest, head],
        ),
        asked(dest, branch, seq![Err(e), Ok(remotes), Ok(fetched), Err(unset)]) == Some(
            seq!["remote"@, "set-head"@, remote, "--auto"@],
        ),
        asked(dest, branch, seq![Err(e), Ok(remotes), Ok(fetched), Err(unset), Ok(set)]) == Some(
            seq!["rev-parse"@, "--abbrev-ref"@, remote + "/HEAD"@],
        ),
        asked(
            dest,
            branch,
            seq![Err(e), Ok(remotes), Ok(fetched), Err(unset), Ok(set), Ok(head)],
        ) == Some(seq!["worktree"@, "add"@, "--no-track"@, "-b"@, branch, dest, head]),
{
    let m = add_begun(dest, branch);
    let none = Seq::<Answer>::empty();
    let a1 = none.push(Err(e));
    let a2 = a1.push(Ok(remotes));
    let a3 = a2.push(Ok(fetched));
    let a4 = a3.push(Ok(head));
    let b4 = a3.push(Err(unset));
    let b5 = b4.push(Ok(set));
    let b6 = b5.push(Ok(head));
    lemma_added(m, none, Err(e));
    lemma_added(m, a1, Ok(remotes));
    lemma_added(m, a2, Ok(fetched));
    lemma_added(m, a3, Ok(head));
    lemma_added(m, a3, Err(unset));
    lemma_added(m, b4, Ok(set));
    lemma_added(m, b5, Ok(head));
    assert(a1 =~= seq![Err::<Seq<char>, Seq<char>>(e)]);
    assert(a2 =~= seq![Err::<Seq<char>, Seq<char>>(e), Ok(remotes)]);
    assert(a3 =~= seq![Err::<Seq<char>, Seq<char>>(e), Ok(remotes), Ok(fetched)]);
    assert(a4 =~= seq![Err::<Seq<char>, Seq<char>>(e), Ok(remotes), Ok(fetched), Ok(head)]);
    assert(b4 =~= seq![Err::<Seq<char>, Seq<char>>(e), Ok(remotes), Ok(fetched), Err(unset)]);
    assert(b5 =~= seq![
        Err::<Seq<char>, Seq<char>>(e),
        Ok(remotes),
        Ok(fetched),
        Err(unset),
        Ok(set),
    ]);
    assert(b6 =~= seq![
        Err::<Seq<char>, Seq<char>>(e),
        Ok(remotes),
        Ok(fetched),
        Err(unset),
        Ok(set),
        Ok(head),
    ]);
}

/// Whether these answers leave no fetched HEAD to start from: no remote is listed,
/// it cannot be fetched, or what its HEAD is cannot be found out.
pub open spec fn no_fetched_head(answers: Seq<Answer>) -> bool {
    let n = answers.len();
    ||| n == 2 && (answers[1] matches Ok(out) ==> remote_in(out) is None)
    ||| n == 3 && answers[1] is Ok && answers[2] is Err
    ||| n == 5 && answers[2] is Ok && answers[3] is Err && answers[4] is Err
    ||| n == 6 && answers[2] is Ok && answers[3] is Err && answers[4] is Ok && answers[5] is Err
}

/// What the adding has come to after some answers, as far as it depends on how many
/// there were.
proof fn lemma_added_so_far(dest: Seq<char>, branch: Seq<char>, answers: Seq<Answer>)
    ensures
        ({
            let m = added(add_begun(dest, branch), answers);
            let n = answers.len();
            &&& m.dest == dest && m.branch == branch
            &&& m.phase is Direct <==> n == 0
            &&& m.phase is Remotes ==> n == 1
            &&& m.phase is Fetch ==> n == 2 && (answers[1] matches Ok(out) && remote_in(out)
                == Some(m.remote))
            &&& m.phase is Head ==> n == 3 && answers[1] is Ok && answers[2] is Ok
            &&& m.phase is SetHead ==> n == 4 && answers[1] is Ok && answers[2] is Ok
                && answers[3] is Err
            &&& m.phase is HeadAgain ==> n == 5 && answers[1] is Ok && answers[2] is Ok
                && answers[3] is Err && answers[4] is Ok
            &&& m.phase is Create && m.start is None ==> no_fetched_head(answers)
            &&& m.phase is Create && m.start is Some ==> n >= 4 && answers[n - 1] == Ok::<
                Seq<char>,
                Seq<char>,
            >(m.start->Some_0)
        }),
    decreases answers.len(),
{
    if answers.len() > 0 {
        lemma_added_so_far(dest, branch, answers.drop_last());
    }
}

/// A branch is created from the local HEAD only where there is no fetched HEAD to
/// start from; else it is created from what git said that HEAD is.
pub proof fn law_a_new_branch_starts_locally_only_without_a_fetched_head(
    dest: Seq<char>,
    branch: Seq<char>,
    answers: Seq<Answer>,
)
    requires
        answers.len() > 0,
        asked(dest, branch, answers) matches Some(args) && args.len() > 0 && args[0]
            == "worktree"@,
    ensures
        ({
            let args = asked(dest, branch, answers)->Some_0;
            if no_fetched_head(answers) {
                args == seq!["worktree"@, "add"@, "-b"@, branch, dest]
            } else {
                answers.last() matches Ok(head) && args == seq![
                    "worktree"@,
                    "add"@,
                    "--no-track"@,
                    "-b"@,
                    branch,
                    dest,
                    head,
                ]
            }
        }),
{
    lemma_added_so_far(dest, branch, answers);
    reveal_strlit("worktree");
    reveal_strlit("fetch");
    reveal_strlit("remote");
    reveal_strlit("rev-parse");
    let m = added(add_begun(dest, branch), answers);
    let args = add_call(m)->Some_0.args;
    assert(args[0].len() == 8);
    assert(m.phase is Create);
}

/// Whether creating the branch works is what the adding comes to: nothing is asked
/// after it, and a failure is git's own.
pub proof fn law_creating_the_branch_decides(m: AddModel, r: Answer)
    requires
        m.phase is Create,
    ensures
        add_call(add_answered(m, r)) is None,
        add_answered(m, r).failure == (match r {
            Ok(_) => None::<Seq<char>>,
            Err(e) => Some(e),
        }),
{
}

/// The worktree is removed even if it is dirty, then its branch even if it is not
/// merged; where the worktree stays, so does the branch, and git's complaint is
/// passed on.
pub proof fn law_a_worktree_goes_before_its_branch(
    dest: Seq<char>,
    branch: Option<Seq<char>>,
    out: Seq<char>,
    e: Seq<char>,
    r: Answer,
)
    ensures
        ({
            let m = RemovalModel { phase: RemovePhase::Remove, dest, branch, failure: None };
            let gone = removal_answered(m, Ok(out));
            let stays = removal_answered(m, Err(e));
            let last = removal_answered(gone, r);
            &&& removal_call(m) == Some(
                CallModel { args: seq!["worktree"@, "remove"@, "--force"@, dest], long: true },
            )
            &&& match branch {
                Some(b) => removal_call(gone) == Some(
                    CallModel { args: seq!["branch"@, "-D"@, b], long: false },
                ),
                None => removal_call(gone) is None,
            }
            &&& gone.failure is None && last.failure is None && removal_call(last) is None
            &&& removal_call(stays) is None && stays.failure == Some(e)
        }),
{
}

/// Whether `name` is what a line says, up to spaces around it.
pub open spec fn on_a_line(out: Seq<char>, name: Seq<char>, i: int) -> bool {
    0 <= i < text::lines(out).len() && text::trimmed(text::lines(out)[i]) == name && name.len() > 0
}

proof fn lemma_names(lines: Seq<Seq<char>>, n: nat)
    requires
        n <= lines.len(),
    ensures
        forall|k: int|
            #![trigger names(lines, n)[k]]
            0 <= k < names(lines, n).len() ==> exists|i: int|
                0 <= i < n && text::trimmed(#[trigger] lines[i]) == names(lines, n)[k],
        forall|k: int| 0 <= k < names(lines, n).len() ==> (#[trigger] names(lines, n)[k]).len() > 0,
        forall|i: int|
            0 <= i < n && text::trimmed(#[trigger] lines[i]).len() > 0 ==> names(lines, n).contains(
                text::trimmed(lines[i]),
            ),
        names(lines, n).len() > 0 ==> exists|i: int|
            0 <= i < n && text::trimmed(#[trigger] lines[i]) == names(lines, n)[0] && (forall|j: int|
                0 <= j < i ==> text::trimmed(#[trigger] lines[j]).len() == 0),
    decreases n,
{
    if n > 0 {
        let before = names(lines, (n - 1) as nat);
        lemma_names(lines, (n - 1) as nat);
        let all = names(lines, n);
        let name = text::trimmed(lines[n - 1]);
        assert forall|k: int|
            #![trigger all[k]]
            0 <= k < all.len() implies exists|i: int|
            0 <= i < n && text::trimmed(#[trigger] lines[i]) == all[k] by {
            if k < before.len() {
                assert(before[k] == all[k]);
                let i = choose|i: int|
                    0 <= i < n - 1 && text::trimmed(#[trigger] lines[i]) == before[k];
                assert(text::trimmed(lines[i]) == all[k]);
            } else {
                assert(text::trimmed(lines[n - 1]) == all[k]);
            }
        }
        assert forall|i: int|
            0 <= i < n && text::trimmed(#[trigger] lines[i]).len() > 0 implies all.contains(
            text::trimmed(lines[i]),
        ) by {
            if i < n - 1 {
                assert(before.contains(text::trimmed(lines[i])));
                let k = choose|k: int| 0 <= k < before.len() && before[k] == text::trimmed(lines[i]);
                assert(all[k] == before[k]);
            } else {
                assert(all[before.len() as int] == name);
            }
        }
        if all.len() > 0 {
            if before.len() > 0 {
                let i = choose|i: int|
                    0 <= i < n - 1 && text::trimmed(#[trigger] lines[i]) == before[0] && (forall|
                        j: int,
                    |
                        0 <= j < i ==> text::trimmed(#[trigger] lines[j]).len() == 0);
                assert(text::trimmed(lines[i]) == all[0]);
            } else {
                assert(text::trimmed(lines[n - 1]) == all[0]);
                assert forall|j: int| 0 <= j < n - 1 implies text::trimmed(
                    #[trigger] lines[j],
                ).len() == 0 by {
                    if text::trimmed(lines[j]).len() > 0 {
                        assert(before.contains(text::trimmed(lines[j])));
                    }
                }
            }
        }
    }
}

/// Whether `name` stands on a line, and, unless it is `origin`, on the first line
/// that says something.
pub open spec fn name_is_due(out: Seq<char>, name: Seq<char>) -> bool {
    exists|i: int| #[trigger]
        on_a_line(out, name, i) && (name == "origin"@ || forall|j: int|
            0 <= j < i ==> text::trimmed(#[trigger] text::lines(out)[j]).len() == 0)
}

/// New branches are based on `origin` where git lists it on any line, else on the
/// remote on the first line that says something, and on none where no line does.
pub proof fn law_origin_is_the_first_choice(out: Seq<char>)
    ensures
        (exists|i: int| #[trigger] on_a_line(out, "origin"@, i)) ==> remote_in(out) == Some(
            "origin"@,
        ),
        remote_in(out) matches Some(name) ==> name_is_due(out, name),
        remote_in(out) is None ==> forall|i: int|
            0 <= i < text::lines(out).len() ==> text::trimmed(#[trigger] text::lines(out)[i]).len()
                == 0,
{
    let lines = text::lines(out);
    let all = names(lines, lines.len());
    lemma_names(lines, lines.len());
    reveal_strlit("origin");
    if exists|i: int| #[trigger] on_a_line(out, "origin"@, i) {
        let i = choose|i: int| #[trigger] on_a_line(out, "origin"@, i);
        assert(all.contains(text::trimmed(lines[i])));
    }
    if remote_in(out) is Some {
        if all.contains("origin"@) {
            let k = choose|k: int| 0 <= k < all.len() && all[k] == "origin"@;
            let i = choose|i: int|
                0 <= i < lines.len() && text::trimmed(#[trigger] lines[i]) == all[k];
            assert(on_a_line(out, "origin"@, i));
            assert(name_is_due(out, "origin"@));
        } else {
            let i = choose|i: int|
                0 <= i < lines.len() && text::trimmed(#[trigger] lines[i]) == all[0] && (forall|
                    j: int,
                |
                    0 <= j < i ==> text::trimmed(#[trigger] lines[j]).len() == 0);
            assert(all[0].len() > 0);
            assert(on_a_line(out, all[0], i));
            assert forall|j: int| 0 <= j < i implies text::trimmed(
                #[trigger] text::lines(out)[j],
            ).len() == 0 by {
                assert(text::trimmed(lines[j]).len() == 0);
            }
            assert(name_is_due(out, all[0]));
        }
    } else {
        assert forall|i: int| 0 <= i < lines.len() implies text::trimmed(#[trigger] lines[i]).len()
            == 0 by {
            if text::trimmed(lines[i]).len() > 0 {
                assert(all.contains(text::trimmed(lines[i])));
            }
        }
    }
}

/// An invocation that works comes to what it printed, without the spaces around it;
/// the message of one that does not names its arguments and what it complained of.
pub proof fn law_answers_are_what_was_printed(
    args: Seq<Seq<char>>,
    success: bool,
    status: Seq<char>,
    out: Seq<char>,
    err: Seq<char>,
)
    ensures
        match answer(args, success, status, out, err) {
            Ok(s) => success && s == text::trimmed(out),
            Err(e) => !success && e == "git "@ + text::join(args, " "@) + " failed ("@ + status
                + "): "@ + text::trimmed(err),
        },
{
}

// ---------------------------------------------------------------------------
// Pull requests
// ---------------------------------------------------------------------------

/// Whether a check of the PR says one of these in a field.
pub open spec fn some_state(pr: PrInfo, word: Seq<char>) -> bool {
    exists|i: int|
        0 <= i < pr.status_check_rollup@.len() && says(
            (#[trigger] pr.status_check_rollup@[i]).state,
            word,
        )
}

/// Whether a check of the PR is in that status.
pub open spec fn some_status(pr: PrInfo, word: Seq<char>) -> bool {
    exists|i: int|
        0 <= i < pr.status_check_rollup@.len() && says(
            (#[trigger] pr.status_check_rollup@[i]).status,
            word,
        )
}

/// Whether a check of the PR has been completed with that conclusion.
pub open spec fn some_conclusion(pr: PrInfo, word: Seq<char>) -> bool {
    exists|i: int|
        0 <= i < pr.status_check_rollup@.len() && says(
            (#[trigger] pr.status_check_rollup@[i]).status,
            "COMPLETED"@,
        ) && says(pr.status_check_rollup@[i].conclusion, word)
}

/// Merged goes before failed, failed before changes requested, that before running,
/// and open is what is left; a PR that was closed without a merge has no status.
pub proof fn law_the_gravest_status_is_shown(pr: PrInfo)
    ensures
        ({
            let merged = reads(pr.state@, "MERGED"@);
            let open = reads(pr.state@, "OPEN"@);
            let broken = some_state(pr, "FAILURE"@) || some_state(pr, "ERROR"@) || some_conclusion(
                pr,
                "FAILURE"@,
            ) || some_conclusion(pr, "TIMED_OUT"@) || some_conclusion(pr, "CANCELLED"@)
                || some_conclusion(pr, "ACTION_REQUIRED"@) || says(pr.mergeable, "CONFLICTING"@);
            let changes = says(pr.review_decision, "CHANGES_REQUESTED"@);
            let under_way = some_state(pr, "PENDING"@) || some_state(pr, "EXPECTED"@)
                || some_status(pr, "IN_PROGRESS"@) || some_status(pr, "QUEUED"@) || some_status(
                pr,
                "PENDING"@,
            ) || some_status(pr, "WAITING"@);
            let s = status_of(pr);
            &&& s == Some(PrStatus::Merged) <==> merged
            &&& s == Some(PrStatus::Failed) <==> !merged && open && broken
            &&& s == Some(PrStatus::ChangesRequested) <==> !merged && open && !broken && changes
            &&& s == Some(PrStatus::Running) <==> !merged && open && !broken && !changes
                && under_way
            &&& s == Some(PrStatus::Open) <==> !merged && open && !broken && !changes && !under_way
            &&& s is None <==> !merged && !open
        }),
{
    assert forall|i: int| 0 <= i < pr.status_check_rollup@.len() implies {
        let c = #[trigger] pr.status_check_rollup@[i];
        &&& says(c.state, "FAILURE"@) ==> some_state(pr, "FAILURE"@)
        &&& says(c.state, "ERROR"@) ==> some_state(pr, "ERROR"@)
        &&& says(c.state, "PENDING"@) ==> some_state(pr, "PENDING"@)
        &&& says(c.state, "EXPECTED"@) ==> some_state(pr, "EXPECTED"@)
        &&& says(c.status, "IN_PROGRESS"@) ==> some_status(pr, "IN_PROGRESS"@)
        &&& says(c.status, "QUEUED"@) ==> some_status(pr, "QUEUED"@)
        &&& says(c.status, "PENDING"@) ==> some_status(pr, "PENDING"@)
        &&& says(c.status, "WAITING"@) ==> some_status(pr, "WAITING"@)
    } by {}
}

} // verus!
