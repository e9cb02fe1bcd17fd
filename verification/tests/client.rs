use imbuia::app::{local, Action, PrStatus, SupervisorId};
use imbuia::client::{
    handshake_outcome, handshake_request, op_result_to_action, worktree_from_entry, PendingOp,
    Received, SupervisorClient, Supervisors,
};
use imbuia::config::RemoteConfig;
use imbuia::ipc::{
    ClientMsg, DirEntry, HandshakeReq, HandshakeResp, OpOk, OpRequest, ProcessNode, RepoInfo,
    SessionMeta, SupervisorMsg, UsageReport, WorktreeEntry, PROTOCOL_VERSION,
};
use imbuia::supervisor::{
    initial_input, shell_or_default, spawn_reply, starts_here, Deed, Registry,
};

fn meta(id: u64) -> SessionMeta {
    SessionMeta {
        id,
        project_slug: "p".into(),
        worktree_name: "w".into(),
        cwd: "/w".into(),
        rows: 24,
        cols: 80,
    }
}

fn spawn(c: &mut SupervisorClient) -> u64 {
    match c.request_spawn(
        "p".into(),
        "w".into(),
        30,
        90,
        "/w".into(),
        Some("ls".into()),
        (1, 2),
    ) {
        ClientMsg::Spawn {
            request_id,
            rows: 30,
            cols: 90,
            initial_command: Some(c),
            ..
        } => {
            assert_eq!(c, "ls");
            request_id
        }
        other => panic!("unexpected: {other:?}"),
    }
}

#[test]
fn a_spawned_session_lands_where_it_was_asked_for() {
    let mut c = SupervisorClient::new(SupervisorId(3), vec![]);
    let request_id = spawn(&mut c);
    match c.received(SupervisorMsg::Spawned { request_id, id: 5 }, 77) {
        Received::Opened {
            wire: 5,
            rows: 30,
            cols: 90,
            action: Action::SessionSpawned {
                session: 77,
                dest: (1, 2),
            },
        } => {}
        other => panic!("unexpected: {other:?}"),
    }
    // The same answer a second time is not taken.
    assert!(matches!(
        c.received(SupervisorMsg::Spawned { request_id, id: 6 }, 78),
        Received::Nothing
    ));
    match c.received(
        SupervisorMsg::OutputDelta {
            id: 5,
            bytes: vec![1],
        },
        0,
    ) {
        Received::Output { session: 77, bytes } => assert_eq!(bytes, [1]),
        other => panic!("unexpected: {other:?}"),
    }
    match c.received(SupervisorMsg::Exited { id: 5 }, 0) {
        Received::Ended {
            wire: 5,
            action: Action::SessionExited(77),
        } => {}
        other => panic!("unexpected: {other:?}"),
    }
    assert!(matches!(
        c.received(SupervisorMsg::Exited { id: 5 }, 0),
        Received::Nothing
    ));
}

#[test]
fn a_failed_spawn_is_reported() {
    let mut c = SupervisorClient::new(local(), vec![]);
    let request_id = spawn(&mut c);
    match c.received(
        SupervisorMsg::SpawnFailed {
            request_id,
            error: "no pty".into(),
        },
        0,
    ) {
        Received::Post(Action::OperationFailed(m)) => assert_eq!(m, "spawn: no pty"),
        other => panic!("unexpected: {other:?}"),
    }
}

#[test]
fn requests_have_their_own_numbers() {
    let mut c = SupervisorClient::new(local(), vec![]);
    let a = spawn(&mut c);
    let b = spawn(&mut c);
    assert_ne!(a, b);
    match c.request_list_dir(Some("/x".into())) {
        ClientMsg::Op {
            request_id,
            req: OpRequest::ListDir { path: Some(p) },
        } => {
            assert!(request_id != a && request_id != b);
            assert_eq!(p, "/x");
        }
        other => panic!("unexpected: {other:?}"),
    }
    assert!(matches!(c.kill(4), ClientMsg::Kill { id: 4 }));
    assert!(matches!(c.shutdown_supervisor(), ClientMsg::Shutdown));
    assert!(matches!(c.subscribe_usage(), ClientMsg::SubscribeUsage));
    assert!(matches!(c.unsubscribe_usage(), ClientMsg::UnsubscribeUsage));
    assert_eq!(c.supervisor_id(), local());
}

#[test]
fn operations_are_answered_once() {
    let mut c = SupervisorClient::new(SupervisorId(3), vec![]);
    let request_id = match c.request_open_project(
        SupervisorId(3),
        "/r".into(),
        Some("make".into()),
        true,
    ) {
        ClientMsg::Op {
            request_id,
            req: OpRequest::Validate { repo_path },
        } => {
            assert_eq!(repo_path, "/r");
            request_id
        }
        other => panic!("unexpected: {other:?}"),
    };
    let answer = SupervisorMsg::OpResult {
        request_id,
        result: Ok(OpOk::Validated(RepoInfo {
            canonical_path: "/r".into(),
            repo_name: "r".into(),
            head_branch: None,
        })),
    };
    match c.received(answer, 0) {
        Received::Post(Action::ProjectValidated {
            supervisor: SupervisorId(3),
            setup_script: Some(s),
            import_existing: true,
            repo_name,
            ..
        }) => {
            assert_eq!(s, "make");
            assert_eq!(repo_name, "r");
        }
        other => panic!("unexpected: {other:?}"),
    }
    let again = SupervisorMsg::OpResult {
        request_id,
        result: Err("late".into()),
    };
    assert!(matches!(c.received(again, 0), Received::Nothing));
}

#[test]
fn results_become_actions() {
    let entry = WorktreeEntry {
        path: "/r/feat".into(),
        branch: None,
    };
    match op_result_to_action(
        PendingOp::AddWorktree { project_idx: 4 },
        Ok(OpOk::WorktreeAdded(entry.clone())),
    ) {
        Some(Action::WorktreeAdded {
            project_idx: 4,
            worktree,
        }) => assert_eq!(worktree.name, "feat"),
        other => panic!("unexpected: {other:?}"),
    }
    assert!(matches!(
        op_result_to_action(
            PendingOp::ImportWorktrees { project_idx: 4 },
            Ok(OpOk::Worktrees(vec![entry.clone()]))
        ),
        Some(Action::WorktreesImported { project_idx: 4, entries }) if entries.len() == 1
    ));
    assert!(matches!(
        op_result_to_action(
            PendingOp::RemoveWorktree {
                project_idx: 1,
                worktree_idx: 2
            },
            Ok(OpOk::WorktreeRemoved)
        ),
        Some(Action::WorktreeRemoved {
            project_idx: 1,
            worktree_idx: 2
        })
    ));
    assert!(matches!(
        op_result_to_action(
            PendingOp::FetchPr { project_idx: 1 },
            Ok(OpOk::PrStatuses(vec![(0, Some(PrStatus::Open))]))
        ),
        Some(Action::PrStatusesFetched { project_idx: 1, statuses })
            if statuses == [(0, Some(PrStatus::Open))]
    ));
    assert!(matches!(
        op_result_to_action(PendingOp::FetchPr { project_idx: 1 }, Err("gh".into())),
        Some(Action::PrFetchFailed { project_idx: 1, message }) if message == "gh"
    ));
    assert!(matches!(
        op_result_to_action(
            PendingOp::ListDir,
            Ok(OpOk::DirListing {
                dir: "/".into(),
                parent: None,
                entries: vec![DirEntry { name: "a".into(), is_repo: true }]
            })
        ),
        Some(Action::DirListed { dir, parent: None, entries }) if dir == "/" && entries.len() == 1
    ));
    // An answer to another question is dropped.
    assert!(op_result_to_action(PendingOp::ListDir, Ok(OpOk::WorktreeRemoved)).is_none());
    match op_result_to_action(PendingOp::AddWorktree { project_idx: 0 }, Err("no".into())) {
        Some(Action::OperationFailed(m)) => assert!(m.ends_with("no") && m.len() > 2),
        other => panic!("unexpected: {other:?}"),
    }
}

#[test]
fn worktrees_are_named_after_branch_or_directory() {
    let named = worktree_from_entry(WorktreeEntry {
        path: "/r/x".into(),
        branch: Some("b".into()),
    });
    assert_eq!(named.name, "b");
    assert!(named.sessions.is_empty() && named.active_tab.is_none());
    let root = worktree_from_entry(WorktreeEntry {
        path: "/".into(),
        branch: None,
    });
    assert_eq!(root.name, "worktree");
}

#[test]
fn sessions_that_were_there_are_taken_over() {
    let mut c = SupervisorClient::new(local(), vec![meta(9)]);
    let first = c.drain_initial_sessions();
    assert_eq!(first.len(), 1);
    assert!(c.drain_initial_sessions().is_empty());
    assert!(matches!(c.adopt(&first[0], 40), ClientMsg::Attach { id: 9 }));
    assert!(matches!(
        c.received(SupervisorMsg::Exited { id: 9 }, 0),
        Received::Ended {
            wire: 9,
            action: Action::SessionExited(40)
        }
    ));
}

#[test]
fn a_lost_supervisor_is_named() {
    let mut c = SupervisorClient::new(SupervisorId(2), vec![]);
    assert!(matches!(
        c.received(SupervisorMsg::Detached { reason: "stolen".into() }, 0),
        Received::Closed(Action::SupervisorLost(SupervisorId(2), r)) if r == "stolen"
    ));
    let report = UsageReport {
        sessions: vec![],
        supervisor: ProcessNode {
            pid: 1,
            name: "x".into(),
            rss_bytes: 0,
            cpu_bits: 0,
            children: vec![],
        },
        client: None,
        ts_ms: 0,
        cpu_count: 1,
    };
    assert!(matches!(
        c.received(SupervisorMsg::Usage(report), 0),
        Received::Post(Action::UsageReceived(SupervisorId(2), _))
    ));
}

#[test]
fn handshakes_compare_versions() {
    assert_eq!(
        handshake_request(12),
        HandshakeReq {
            protocol: PROTOCOL_VERSION,
            client_pid: 12
        }
    );
    let ok = HandshakeResp::Accepted {
        supervisor_pid: 1,
        sessions: vec![meta(1)],
    };
    assert_eq!(handshake_outcome(ok).unwrap().len(), 1);
    let old = HandshakeResp::VersionMismatch {
        supervisor_protocol: 9,
    };
    assert!(handshake_outcome(old)
        .unwrap_err()
        .starts_with("supervisor protocol v9, client v1"));
}

#[test]
fn supervisors_remember_their_connections() {
    let mut sups = Supervisors::seed(&vec![(
        "box".into(),
        RemoteConfig {
            url: "box:7777".into(),
        },
    )]);
    let remote = SupervisorId(1);
    assert_eq!(sups.name_of(local()), "local");
    assert_eq!(sups.name_of(remote), "box");
    assert_eq!(sups.url_of(remote).as_deref(), Some("box:7777"));
    assert_eq!(sups.url_of(local()), None);
    assert!(!sups.is_connected(remote));
    assert_eq!(sups.disconnected_remotes(), [(remote, "box:7777".to_string())]);
    sups.set_client(remote);
    assert!(sups.is_connected(remote));
    assert!(sups.connected().contains(&remote));
    assert!(sups.disconnected_remotes().is_empty());
    let dir = sups.directory();
    assert!(dir.is_connected(remote));
    sups.mark_disconnected(remote);
    assert!(!sups.is_connected(remote));
}

#[test]
fn the_latest_client_is_served() {
    let mut reg = Registry::new();
    let first = reg.attach(100);
    let second = reg.attach(200);
    assert_eq!(reg.active_client_pid(), Some(200));
    // The first one leaving changes nothing.
    reg.detach(first);
    assert_eq!(reg.active_client_pid(), Some(200));
    reg.detach(second);
    assert_eq!(reg.active_client_pid(), None);
}

#[test]
fn a_registry_greets_its_own_version() {
    let mut reg = Registry::new();
    let id = reg.register("p".into(), "w".into(), "/w".into(), 24, 80);
    let req = HandshakeReq {
        protocol: PROTOCOL_VERSION,
        client_pid: 1,
    };
    match reg.greet(req, 55) {
        HandshakeResp::Accepted {
            supervisor_pid: 55,
            sessions,
        } => assert_eq!(sessions[0].id, id),
        other => panic!("unexpected: {other:?}"),
    }
    let other = HandshakeReq {
        protocol: PROTOCOL_VERSION + 1,
        client_pid: 1,
    };
    assert!(matches!(
        reg.greet(other, 55),
        HandshakeResp::VersionMismatch {
            supervisor_protocol: PROTOCOL_VERSION
        }
    ));
}

#[test]
fn messages_about_unknown_sessions_do_nothing() {
    let mut reg = Registry::new();
    let id = reg.register("p".into(), "w".into(), "/w".into(), 24, 80);
    let other = reg.register("p".into(), "w".into(), "/w".into(), 24, 80);
    assert_ne!(id, other);
    assert!(matches!(reg.handle(ClientMsg::Kill { id }), Deed::Kill(k) if k == id));
    assert!(matches!(
        reg.handle(ClientMsg::Kill { id: 999 }),
        Deed::Nothing
    ));
    assert!(matches!(reg.handle(ClientMsg::Attach { id }), Deed::Dump(k) if k == id));
    assert!(matches!(
        reg.handle(ClientMsg::Resize {
            id,
            rows: 1,
            cols: 2
        }),
        Deed::Resize {
            rows: 1,
            cols: 2,
            ..
        }
    ));
    assert!(matches!(
        reg.handle(ClientMsg::WriteBytes {
            id: 999,
            bytes: vec![1]
        }),
        Deed::Nothing
    ));
    assert!(matches!(reg.handle(ClientMsg::Shutdown), Deed::Shutdown));
    let _ = reg.session_ended(id);
    assert_eq!(reg.sessions().len(), 1);
    assert!(matches!(
        reg.handle(ClientMsg::Kill { id }),
        Deed::Nothing
    ));
}

#[test]
fn one_sampler_runs_while_someone_listens() {
    let mut reg = Registry::new();
    let _ = reg.attach(1);
    assert!(matches!(
        reg.handle(ClientMsg::SubscribeUsage),
        Deed::StartSampler
    ));
    assert!(matches!(
        reg.handle(ClientMsg::SubscribeUsage),
        Deed::Nothing
    ));
    assert!(reg.sampler_goes_on());
    assert!(matches!(
        reg.handle(ClientMsg::UnsubscribeUsage),
        Deed::Nothing
    ));
    assert!(!reg.sampler_goes_on());
    assert!(matches!(
        reg.handle(ClientMsg::SubscribeUsage),
        Deed::StartSampler
    ));
    reg.sampler_ended();
    assert!(matches!(
        reg.handle(ClientMsg::SubscribeUsage),
        Deed::StartSampler
    ));
}

#[test]
fn a_session_starts_with_its_command() {
    assert_eq!(initial_input("ls"), b"ls\n");
    assert_eq!(initial_input("ls\n"), b"ls\n");
    assert!(starts_here("") && starts_here("."));
    assert!(!starts_here("/w"));
    assert_eq!(shell_or_default(None), "/bin/sh");
    assert_eq!(shell_or_default(Some("/bin/zsh".into())), "/bin/zsh");
    assert!(matches!(
        spawn_reply(3, Ok(8)),
        SupervisorMsg::Spawned {
            request_id: 3,
            id: 8
        }
    ));
    assert!(matches!(
        spawn_reply(3, Err("x".into())),
        SupervisorMsg::SpawnFailed { request_id: 3, error } if error == "x"
    ));
}
