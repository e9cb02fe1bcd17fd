use imbuia::git::{
    default_remote, git_answer, git_not_run, head_branch, head_call, list_call, list_worktrees,
    validate_call, validate_repo, worktree_add, worktree_remove, AddPhase, RemovePhase,
};

fn args(words: &[&str]) -> Vec<String> {
    words.iter().map(|w| w.to_string()).collect()
}

#[test]
fn answers_are_trimmed_or_name_what_failed() {
    let a = args(&["worktree", "list"]);
    assert_eq!(git_answer(&a, true, "exit 0", "  x\n", ""), Ok("x".into()));
    assert_eq!(
        git_answer(&a, false, "exit status: 128", "", " fatal: no \n"),
        Err("git worktree list failed (exit status: 128): fatal: no".into())
    );
    assert_eq!(git_not_run(&a, "timed out"), "git worktree list: timed out");
}

#[test]
fn only_true_says_that_a_path_is_in_a_work_tree() {
    assert!(validate_repo("/r", "true").is_ok());
    assert_eq!(
        validate_repo("/r", "false"),
        Err("/r is not inside a git work tree".into())
    );
    assert_eq!(validate_call().args, ["rev-parse", "--is-inside-work-tree"]);
    assert!(!validate_call().long);
    assert_eq!(validate_call().timeout_secs(), 30);
}

#[test]
fn the_branch_at_head_is_read() {
    assert_eq!(head_branch(true, "main\n").as_deref(), Some("main"));
    assert_eq!(head_branch(false, "main\n"), None);
    assert_eq!(head_call().args.len(), 4);
}

#[test]
fn origin_is_the_remote_of_choice() {
    assert_eq!(default_remote("fork\norigin\n").as_deref(), Some("origin"));
    assert_eq!(default_remote(" fork \nother\n").as_deref(), Some("fork"));
    assert_eq!(default_remote("\n\n"), None);
}

#[test]
fn an_existing_branch_needs_one_call() {
    let mut add = worktree_add("/w".into(), "b".into());
    let call = add.call().unwrap();
    assert_eq!(call.args, ["worktree", "add", "/w", "b"]);
    assert!(call.long);
    assert_eq!(call.timeout_secs(), 600);
    add.answered(Ok(String::new()));
    assert_eq!(add.phase, AddPhase::Done);
    assert!(add.call().is_none());
    assert!(add.failure.is_none());
}

#[test]
fn a_new_branch_starts_at_the_remote_head() {
    let mut add = worktree_add("/w".into(), "b".into());
    add.answered(Err("no such branch".into()));
    assert_eq!(add.call().unwrap().args, ["remote"]);
    add.answered(Ok("origin".into()));
    assert_eq!(add.call().unwrap().args, ["fetch", "origin"]);
    add.answered(Ok(String::new()));
    assert_eq!(
        add.call().unwrap().args,
        ["rev-parse", "--abbrev-ref", "origin/HEAD"]
    );
    add.answered(Err("unset".into()));
    assert_eq!(
        add.call().unwrap().args,
        ["remote", "set-head", "origin", "--auto"]
    );
    add.answered(Ok(String::new()));
    add.answered(Ok("origin/main".into()));
    assert_eq!(
        add.call().unwrap().args,
        ["worktree", "add", "--no-track", "-b", "b", "/w", "origin/main"]
    );
    add.answered(Err("taken".into()));
    assert_eq!(add.failure.as_deref(), Some("taken"));
    assert!(add.call().is_none());
}

#[test]
fn an_offline_branch_starts_at_the_local_head() {
    let mut add = worktree_add("/w".into(), "b".into());
    add.answered(Err(String::new()));
    add.answered(Ok("origin".into()));
    add.answered(Err("offline".into()));
    assert_eq!(
        add.call().unwrap().args,
        ["worktree", "add", "-b", "b", "/w"]
    );
}

#[test]
fn a_branch_goes_after_its_worktree() {
    let mut rm = worktree_remove("/w".into(), Some("b".into()));
    assert_eq!(
        rm.call().unwrap().args,
        ["worktree", "remove", "--force", "/w"]
    );
    rm.answered(Ok(String::new()));
    assert_eq!(rm.phase, RemovePhase::DeleteBranch);
    assert_eq!(rm.call().unwrap().args, ["branch", "-D", "b"]);
    rm.answered(Err("not merged".into()));
    assert!(rm.call().is_none());
    assert!(rm.failure.is_none());
}

#[test]
fn a_worktree_that_stays_keeps_its_branch() {
    let mut rm = worktree_remove("/w".into(), Some("b".into()));
    rm.answered(Err("locked".into()));
    assert!(rm.call().is_none());
    assert_eq!(rm.failure.as_deref(), Some("locked"));
}

#[test]
fn porcelain_listings_are_read() {
    let out = "worktree /r\nHEAD 1\nbranch refs/heads/main\n\nworktree /r-x\nHEAD 2\ndetached\n";
    let list = list_worktrees(out);
    assert_eq!(list.len(), 2);
    assert_eq!(list[0].path, "/r");
    assert_eq!(list[0].branch.as_deref(), Some("main"));
    assert_eq!(list[1].path, "/r-x");
    assert_eq!(list[1].branch, None);
    assert_eq!(list_call().args, ["worktree", "list", "--porcelain"]);
}
