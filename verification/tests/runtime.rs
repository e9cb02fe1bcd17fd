use imbuia::app::{
    local, mock_projects, Action, AppState, Command, Mode, Project, SupervisorId, Worktree,
};
use imbuia::client::Supervisors;
use imbuia::clipboard::{
    admit_files, image_content, png_content, ClipboardContent, ClipboardError, MAX_UPLOAD_BYTES,
};
use imbuia::commands::{client_log_path, initial_listing};
use imbuia::config::{
    authorized_keys_path, global_path, identity_path, known_hosts_path, load_or_default,
    project_path, project_slugs, resolve_config_dir, GlobalConfig, LauncherConfig, ProjectConfig,
    RemoteConfig, WorktreeConfig,
};
use imbuia::event::{Event, KeyCode, KeyEvent, KeyModifiers};
use imbuia::github::{first_status, pr_list_args, PrInfo};
use imbuia::ipc::{
    pidfile_path, read_frame_len, resolve_socket_path, supervisor_log_path, write_frame,
    SessionMeta, MAX_FRAME,
};
use imbuia::layout::TermSize;
use imbuia::paths::{file_name, join, same_path};
use imbuia::process::{descendants, sample_process, sample_session, usage_report, ProcInfo};
use imbuia::reducer::reduce;
use imbuia::runtime::{
    belongs, clipboard_sequence, execute, global_to_save, locate, rebind, start_state, supervisor_came_up,
    supervisor_went_down, Effect, PollTimes,
};
use imbuia::theme::ThemeKind;
use imbuia::transport::{
    dial_target, fingerprint_of_cert, hex_lower, identity_from_pem, identity_of, judge_client,
    judge_supervisor, split_host_port, HostPortError, Verdict,
};
use imbuia::updater::{
    check_release, detect_protocol_change, install_failure_message, install_outcome,
    release_of_tag, tag_in_release, tag_of_release, ReleaseError,
};

fn remotes() -> Vec<(String, RemoteConfig)> {
    vec![(
        "box".into(),
        RemoteConfig {
            url: "box:7777".into(),
        },
    )]
}

fn project_config(slug: &str, supervisor: Option<&str>) -> ProjectConfig {
    ProjectConfig {
        slug: slug.into(),
        name: slug.to_uppercase(),
        path: format!("/{slug}"),
        supervisor: supervisor.map(String::from),
        expanded: true,
        setup_script: None,
        worktrees: vec![WorktreeConfig {
            name: "main".into(),
            path: format!("/{slug}"),
            branch: Some("main".into()),
        }],
        launchers: vec![],
        github_enabled: true,
        gh_poll_interval_secs: None,
    }
}

fn started(gh: bool) -> (AppState, Supervisors) {
    let sups = Supervisors::seed(&remotes());
    let global = GlobalConfig {
        sidebar_width: 33,
        theme: ThemeKind::Light,
        launchers: vec![LauncherConfig {
            name: "repl".into(),
            command: "node".into(),
        }],
        ..GlobalConfig::default()
    };
    let cfgs = vec![project_config("a", None), project_config("b", Some("box"))];
    let s = start_state(
        TermSize::new(40, 100),
        "/cfg".into(),
        "/log".into(),
        gh,
        &global,
        &cfgs,
        sups.directory(),
    );
    (s, sups)
}

#[test]
fn a_start_takes_what_the_config_says() {
    let (s, _) = started(true);
    assert!(s.running && s.is_consistent());
    assert_eq!(s.sidebar_width, 33);
    assert_eq!(s.theme.kind, ThemeKind::Light);
    assert_eq!(s.sidebar_selection, Some((0, None)));
    assert_eq!(s.projects.len(), 2);
    assert_eq!(s.projects[0].supervisor, local());
    assert_eq!(s.projects[1].supervisor, SupervisorId(1));
    assert_eq!(s.global_launchers[0].command, "node");
}

#[test]
fn sessions_find_their_worktree_again() {
    let (mut s, _) = started(true);
    assert_eq!(locate(&s, "b", "main"), Some((1, 0)));
    assert_eq!(locate(&s, "b", "nope"), None);
    assert!(rebind(&mut s, SupervisorId(1), "b", "main", 9));
    assert_eq!(s.projects[1].worktrees[0].sessions, [9]);
    assert!(!rebind(&mut s, local(), "zzz", "main", 10));
}

#[test]
fn supervisors_come_and_go() {
    let (mut s, mut sups) = started(true);
    assert!(!s.supervisors.is_connected(SupervisorId(1)));
    assert!(supervisor_came_up(&mut s, &mut sups, SupervisorId(1)));
    assert!(s.supervisors.is_connected(SupervisorId(1)));
    assert_eq!(
        s.command_status.as_deref(),
        Some("supervisor 'box' connected")
    );
    assert!(!supervisor_came_up(&mut s, &mut sups, SupervisorId(1)));
    supervisor_went_down(&mut s, &mut sups, SupervisorId(1));
    assert!(!s.supervisors.is_connected(SupervisorId(1)));
}

#[test]
fn a_lost_remote_takes_its_own_sessions_only() {
    let (mut s, _) = started(true);
    assert!(rebind(&mut s, local(), "a", "main", 1));
    assert!(rebind(&mut s, SupervisorId(1), "b", "main", 2));
    let _ = reduce(
        &mut s,
        Action::SupervisorLost(SupervisorId(1), "gone".into()),
    );
    assert!(s.running);
    assert_eq!(s.projects[0].worktrees[0].sessions, [1]);
    assert!(s.projects[1].worktrees[0].sessions.is_empty());
    assert!(s.sessions.contains(&1) && !s.sessions.contains(&2));
    let _ = reduce(&mut s, Action::SupervisorLost(local(), "gone".into()));
    assert!(!s.running);
}

#[test]
fn polls_keep_their_distance() {
    let (mut s, _) = started(true);
    let mut times = PollTimes::new();
    assert!(times.poll_due(&s, 1000));
    assert!(!times.poll_due(&s, 1000));
    assert!(!times.poll_due(&s, 1119));
    assert!(times.poll_due(&s, 1120));
    s.projects[0].gh_poll_interval_secs = Some(5);
    assert!(times.poll_due(&s, 1125));
    s.projects[0].github_enabled = false;
    assert!(!times.poll_due(&s, 1130));
    let (off, _) = started(false);
    assert!(!PollTimes::new().poll_due(&off, 0));
}

#[test]
fn saving_keeps_the_remotes_on_disk() {
    let (s, _) = started(true);
    let disk = GlobalConfig {
        remotes: remotes(),
        remote: Some(RemoteConfig {
            url: "old:1".into(),
        }),
        ..GlobalConfig::default()
    };
    let g = global_to_save(&s, &Some(disk));
    assert_eq!(g.sidebar_width, 33);
    assert_eq!(g.projects, ["a", "b"]);
    assert_eq!(g.launchers[0].name, "repl");
    assert_eq!(g.remotes[0].1.url, "box:7777");
    assert_eq!(g.remote.as_ref().unwrap().url, "old:1");
    let names: Vec<String> = g
        .effective_remotes()
        .into_iter()
        .map(|(name, _)| name)
        .collect();
    assert_eq!(names, ["box", "remote"]);
    assert!(global_to_save(&s, &None).remotes.is_empty());
}

#[test]
fn commands_go_where_they_can() {
    let (mut s, sups) = started(true);
    let k = KeyEvent::new(KeyCode::Char('a'), KeyModifiers::none());
    assert!(matches!(
        execute(Command::WriteKey(5, k), &s, &sups),
        Effect::Nothing
    ));
    assert!(rebind(&mut s, local(), "a", "main", 5));
    assert!(matches!(
        execute(Command::WriteKey(5, k), &s, &sups),
        Effect::Key(5, _)
    ));
    match execute(
        Command::ListDir {
            supervisor: SupervisorId(1),
            path: None,
        },
        &s,
        &sups,
    ) {
        Effect::Fail(m) => assert_eq!(m, "supervisor 'box' is not connected"),
        other => panic!("unexpected: {other:?}"),
    }
    assert!(matches!(
        execute(
            Command::ReconnectSupervisor(SupervisorId(1)),
            &s,
            &sups
        ),
        Effect::Dial { url, .. } if url == "box:7777"
    ));
    match execute(Command::SaveProjectConfig(1), &s, &sups) {
        Effect::SaveProject(cfg) => {
            assert_eq!(cfg.slug, "b");
            assert_eq!(cfg.supervisor.as_deref(), Some("box"));
        }
        other => panic!("unexpected: {other:?}"),
    }
    assert!(matches!(
        execute(Command::SaveProjectConfig(7), &s, &sups),
        Effect::Nothing
    ));
    assert!(matches!(
        execute(Command::RestartSupervisor, &s, &sups),
        Effect::ShutDown(SupervisorId(0))
    ));
    assert_eq!(clipboard_sequence("c;aGk="), "\x1b]52;c;aGk=\x07");
}

#[test]
fn opening_a_project_takes_a_fresh_slug() {
    let (mut s, _) = started(true);
    let cmds = reduce(
        &mut s,
        Action::ProjectValidated {
            supervisor: local(),
            canonical_path: "/other/A".into(),
            repo_name: "A".into(),
            head_branch: Some("main".into()),
            setup_script: None,
            import_existing: true,
        },
    );
    assert_eq!(s.projects[2].slug, "a-2");
    assert_eq!(s.projects[2].worktrees[0].branch.as_deref(), Some("main"));
    assert!(cmds
        .as_slice()
        .iter()
        .any(|c| matches!(c, Command::ImportWorktrees { project_idx: 2, .. })));
}

#[test]
fn an_open_popup_asks_for_a_listing() {
    let mut s = AppState::new();
    assert!(initial_listing(false, &s).is_none());
    s.mode = Mode::Command;
    s.command = "open".into();
    let _ = reduce(
        &mut s,
        Action::Key(KeyEvent::new(KeyCode::Enter, KeyModifiers::none())),
    );
    assert!(matches!(
        initial_listing(false, &s),
        Some(Command::ListDir { path: None, .. })
    ));
    assert!(initial_listing(true, &s).is_none());
}

#[test]
fn removing_a_worktree_keeps_the_cursor_on_its_own() {
    let mut s = AppState::new();
    s.projects = mock_projects();
    s.projects[0].worktrees.push(Worktree {
        name: "extra".into(),
        path: "/x".into(),
        branch: None,
        sessions: vec![],
        active_tab: None,
    });
    s.sidebar_selection = Some((0, Some(2)));
    s.active_worktree = Some((0, 2));
    let _ = reduce(
        &mut s,
        Action::WorktreeRemoved {
            project_idx: 0,
            worktree_idx: 1,
        },
    );
    assert_eq!(s.sidebar_selection, Some((0, Some(1))));
    assert_eq!(s.active_worktree, Some((0, 1)));
    assert_eq!(s.projects[0].worktrees[1].name, "extra");
}

#[test]
fn every_step_leaves_a_consistent_state() {
    let mut s = AppState::new();
    s.projects = mock_projects();
    s.sidebar_selection = Some((0, None));
    for c in ['j', 'l', 'h', 'g', 't', ' ', 'l', 'o', 'x', ':', 'q'] {
        let _ = reduce(
            &mut s,
            Action::Key(KeyEvent::new(KeyCode::Char(c), KeyModifiers::none())),
        );
        assert!(s.is_consistent());
    }
    assert_eq!(s.mode, Mode::Command);
}

#[test]
fn pasted_text_goes_to_the_focused_field() {
    let mut s = AppState::new();
    s.mode = Mode::Command;
    let _ = reduce(&mut s, Action::Paste("ta\nbnew".into()));
    assert!(s.command.starts_with("ta"));
    assert!(!s.command.contains('\n'));
}

#[test]
fn a_spawned_session_is_shown() {
    let mut s = AppState::new();
    s.projects = vec![Project {
        slug: "p".into(),
        name: "p".into(),
        repo_path: "/p".into(),
        worktrees: vec![],
        expanded: true,
        setup_script: None,
        launchers: vec![],
        github_enabled: false,
        gh_poll_interval_secs: None,
        supervisor: local(),
    }];
    let _ = reduce(
        &mut s,
        Action::WorktreeAdded {
            project_idx: 0,
            worktree: Worktree {
                name: "w".into(),
                path: "/w".into(),
                branch: None,
                sessions: vec![],
                active_tab: None,
            },
        },
    );
    let _ = reduce(
        &mut s,
        Action::SessionSpawned {
            session: 4,
            dest: (0, 0),
        },
    );
    assert_eq!(s.focused_session_id(), Some(4));
}

#[test]
fn events_become_actions() {
    let k = KeyEvent::new(KeyCode::Char('a'), KeyModifiers::none());
    assert!(matches!(imbuia::input::map(Event::Key(k)), Some(Action::Key(_))));
    let q = KeyEvent::new(KeyCode::Char('q'), KeyModifiers::control());
    assert!(matches!(imbuia::input::map(Event::Key(q)), Some(Action::Quit)));
    assert!(matches!(
        imbuia::input::map(Event::Paste("x".into())),
        Some(Action::Paste(p)) if p == "x"
    ));
    assert!(matches!(
        imbuia::input::map(Event::Resize(90, 30)),
        Some(Action::Resize(t)) if t.rows == 30 && t.cols == 90
    ));
}

#[test]
fn copied_files_come_one_at_a_time() {
    assert_eq!(admit_files(1, true, MAX_UPLOAD_BYTES), Ok(()));
    assert_eq!(admit_files(2, true, 1), Err(ClipboardError::ManyFiles(2)));
    assert_eq!(admit_files(1, false, 1), Err(ClipboardError::NotAFile));
    assert_eq!(
        admit_files(1, true, MAX_UPLOAD_BYTES + 1),
        Err(ClipboardError::TooLarge(MAX_UPLOAD_BYTES + 1))
    );
}

#[test]
fn paths_are_put_together() {
    assert_eq!(join("/a", "b"), "/a/b");
    assert_eq!(join("/a/", "b"), "/a/b");
    assert_eq!(join("/a", "/b"), "/b");
    assert!(same_path("/a//b/", "/a/./b"));
    assert!(!same_path("/a/b", "/a/c"));
    assert_eq!(file_name("/a/b/").as_deref(), Some("b"));
    assert_eq!(file_name("/"), None);
    assert_eq!(
        resolve_config_dir(Some("/x".into()), Some("/h".into())),
        "/x/imbuia"
    );
    assert_eq!(
        resolve_config_dir(None, Some("/h".into())),
        "/h/.config/imbuia"
    );
    assert_eq!(global_path("/c"), "/c/config.toml");
    assert_eq!(project_path("/c", "p"), "/c/projects/p.toml");
    assert_eq!(identity_path("/c"), "/c/identity.key");
    assert_eq!(known_hosts_path("/c"), "/c/known_hosts");
    assert_eq!(authorized_keys_path("/c"), "/c/authorized_keys");
    let sock = resolve_socket_path(None, None, Some("/h".into()));
    assert_eq!(sock, "/h/.cache/imbuia/sock");
    assert_eq!(pidfile_path(&sock), "/h/.cache/imbuia/supervisor.pid");
    assert_eq!(supervisor_log_path(&sock), "/h/.cache/imbuia/supervisor.log");
    assert_eq!(
        resolve_socket_path(Some("/run".into()), None, None),
        "/run/imbuia/sock"
    );
    assert_eq!(client_log_path(Some("/c".into()), None), "/c/imbuia/imbuia.log");
}

#[test]
fn a_first_start_writes_the_default_keys() {
    let first = load_or_default(None);
    assert!(first.seeded);
    assert!(first.global.keybinds.contains_key("open_tab"));
    let again = load_or_default(Some(first.global));
    assert!(!again.seeded);
    assert_eq!(
        project_slugs(&vec!["../etc".into(), "ok".into()]),
        ["ok".to_string()]
    );
}

#[test]
fn frames_come_apart_again() {
    let f = write_frame(&vec![7; 300]).unwrap();
    assert_eq!(&f[..4], &[0, 0, 1, 44]);
    assert_eq!(read_frame_len(&[f[0], f[1], f[2], f[3]]), Some(300));
    assert!(f[4..].iter().all(|b| *b == 7) && f.len() == 304);
    assert!(write_frame(&vec![0; MAX_FRAME as usize + 1]).is_none());
}

#[test]
fn the_tag_of_a_release_is_looked_up() {
    let tag = |body: &str| tag_in_release(body.as_bytes());
    assert_eq!(tag(r#"{"id": 1, "tag_name": "v1.2.3"}"#), Ok("v1.2.3".into()));
    assert_eq!(tag(r#"{"tag_name": "\u0076\"2"}"#), Ok("v\"2".into()));
    assert_eq!(tag(r#"{"tag_name": 7}"#), Err(ReleaseError::NoTag));
    assert_eq!(tag(r#"{"tag": "v1"}"#), Err(ReleaseError::NoTag));
    assert_eq!(tag(r#"["tag_name"]"#), Err(ReleaseError::NoTag));
    assert_eq!(tag("{"), Err(ReleaseError::NotJson));
    assert_eq!(tag_in_release(&[b'"', 0xff, b'"']), Err(ReleaseError::NotJson));
    assert_eq!(tag_of_release(None), Err(ReleaseError::NotJson));
}

#[test]
fn releases_are_compared() {
    assert!(matches!(
        check_release("v1.2.3", "1.2.2"),
        Ok(Some(i)) if i.latest_tag == "v1.2.3"
    ));
    assert!(matches!(check_release("v1.2.3", "1.2.3"), Ok(None)));
    assert!(matches!(check_release("v1.10.0", "1.9.9"), Ok(Some(_))));
    assert!(matches!(check_release("v2.0.0", "10.0.0"), Ok(None)));
    assert!(matches!(check_release("v1.2.3-rc.1", "1.2.3"), Ok(None)));
    assert!(matches!(
        check_release("latest", "1.2.3"),
        Err(ReleaseError::BadTag)
    ));
    assert!(matches!(
        check_release("1.0.0", "x"),
        Err(ReleaseError::BadCurrent)
    ));
    assert!(release_of_tag("nope".into()).is_none());
    assert_eq!(detect_protocol_change(" 1\n"), Some(false));
    assert_eq!(detect_protocol_change("2"), Some(true));
    assert_eq!(detect_protocol_change("x"), None);
    assert!(!install_outcome("/b".into(), "v1".into(), Some("1".into())).supervisor_restart_required);
    assert!(install_outcome("/b".into(), "v1".into(), None).supervisor_restart_required);
    assert_eq!(
        install_failure_message("exit 1", " out ", " err "),
        "install script failed (exit 1): out — err"
    );
    assert_eq!(
        install_failure_message("exit 1", "out", ""),
        "install script failed (exit 1): out"
    );
}

#[test]
fn the_first_pr_with_a_status_counts() {
    let pr = |state: &str| PrInfo {
        head_ref_name: "b".into(),
        state: state.into(),
        review_decision: None,
        mergeable: None,
        status_check_rollup: vec![],
    };
    assert_eq!(first_status(&vec![]), None);
    assert!(first_status(&vec![pr("MERGED")]).is_some());
    let args = pr_list_args("b");
    assert!(args.contains(&"b".to_string()) && args.contains(&"--json".to_string()));
}

#[test]
fn hexadecimal_is_lower_case() {
    assert_eq!(hex_lower(&[0, 0x0f, 0xa5, 255]), "000fa5ff");
}

#[test]
fn keys_are_pinned_on_first_use() {
    let line = match judge_supervisor("", "h:1", "ab") {
        Verdict::Pin(l) => l,
        other => panic!("unexpected: {other:?}"),
    };
    assert_eq!(line, "h:1 ab\n");
    assert!(matches!(
        judge_supervisor(&line, "h:1", "ab"),
        Verdict::Known
    ));
    match judge_supervisor(&line, "h:1", "cd") {
        Verdict::Refused(why) => assert!(why.contains("changed (known ab, got cd)")),
        other => panic!("unexpected: {other:?}"),
    }
    assert!(judge_client("ab # me\n", "ab").is_ok());
    assert_eq!(
        judge_client("ab # me\n", "me"),
        Err("client key me not in authorized_keys".into())
    );
}

#[test]
fn certificates_carry_their_keys_fingerprint() {
    let key = rcgen::KeyPair::generate_for(&rcgen::PKCS_ED25519).unwrap();
    let id = identity_from_pem(&key.serialize_pem()).unwrap();
    assert_eq!(
        fingerprint_of_cert(&id.cert_der).unwrap(),
        id.fingerprint
    );
    assert_eq!(id.key_pkcs8_der, key.serialize_der());
    assert_eq!(
        identity_from_pem("nonsense").unwrap_err(),
        "parsing identity.key"
    );
    assert!(fingerprint_of_cert(&[1, 2, 3])
        .unwrap_err()
        .starts_with("parsing peer certificate: "));
    assert_eq!(
        identity_of(Some(vec![1]), true, None).unwrap_err(),
        "self-signing cert"
    );
    assert_eq!(
        identity_of(Some(vec![1]), false, None).unwrap_err(),
        "cert params"
    );
    assert_eq!(
        identity_of(None, true, None).unwrap_err(),
        "parsing identity.key"
    );
    assert_eq!(
        identity_of(Some(vec![1]), true, Some(id.cert_der))
            .unwrap()
            .fingerprint,
        id.fingerprint
    );
}

#[test]
fn addresses_that_do_not_come_apart_are_told_apart() {
    assert_eq!(split_host_port("noport"), Err(HostPortError::NoPort));
    assert_eq!(split_host_port("[::1"), Err(HostPortError::Malformed));
    assert_eq!(split_host_port("[::1]"), Err(HostPortError::MissingPort));
}

fn process(pid: u32, parent: Option<u32>, rss_bytes: u64) -> ProcInfo {
    ProcInfo {
        pid,
        parent,
        name: format!("p{pid}"),
        rss_bytes,
        cpu_bits: 0,
    }
}

#[test]
fn process_trees_hold_every_descendant() {
    let procs = vec![
        process(1, None, 1),
        process(10, Some(1), 10),
        process(12, Some(11), 12),
        process(11, Some(10), 11),
        process(99, Some(1), 99),
        process(50, Some(1), 50),
    ];
    let mut all = descendants(&procs, 10);
    all.sort();
    assert_eq!(all, [10, 11, 12]);
    // 99 left the tree, but its group is still the session's.
    let tree = sample_session(&procs, &vec![(99, 10), (50, 50)], 10);
    assert_eq!(tree.pid, 10);
    assert_eq!(tree.children.len(), 2);
    assert_eq!(tree.children[0].pid, 11);
    assert_eq!(tree.children[0].children[0].pid, 12);
    assert_eq!(tree.children[1].pid, 99);
    assert_eq!(tree.total_rss(), 10 + 11 + 12 + 99);
    let alone = sample_process(&procs, 10).unwrap();
    assert_eq!(alone.rss_bytes, 10);
    assert!(alone.children.is_empty());
    assert!(sample_process(&procs, 1234).is_none());
}

#[test]
fn a_report_covers_sessions_and_programs() {
    let procs = vec![process(1, None, 1), process(10, Some(1), 10)];
    let meta = SessionMeta {
        id: 3,
        project_slug: "p".into(),
        worktree_name: "w".into(),
        cwd: "/".into(),
        rows: 1,
        cols: 1,
    };
    let r = usage_report(&procs, &vec![], &vec![(meta, Some(10))], 1, Some(77), 5, 4);
    assert_eq!(r.sessions.len(), 1);
    assert_eq!(r.sessions[0].session_id, 3);
    assert_eq!(r.sessions[0].root.rss_bytes, 10);
    assert_eq!(r.supervisor.rss_bytes, 1);
    assert!(r.client.is_none());
    assert_eq!((r.ts_ms, r.cpu_count), (5, 4));
}

#[test]
fn a_lost_remote_takes_its_usage_section_along() {
    let (mut s, _) = started(true);
    s.usage_popup = Some(imbuia::app::UsagePopup::new(s.supervisors.copy()));
    let report = || imbuia::ipc::UsageReport {
        sessions: vec![],
        supervisor: imbuia::ipc::ProcessNode {
            pid: 1,
            name: "imbuia".into(),
            rss_bytes: 0,
            cpu_bits: 0,
            children: vec![],
        },
        client: None,
        ts_ms: 0,
        cpu_count: 1,
    };
    let _ = reduce(&mut s, Action::UsageReceived(SupervisorId(1), report()));
    let _ = reduce(&mut s, Action::UsageReceived(local(), report()));
    assert_eq!(s.usage_popup.as_ref().unwrap().reports.len(), 2);
    let _ = reduce(
        &mut s,
        Action::SupervisorLost(SupervisorId(1), "gone".into()),
    );
    let left = &s.usage_popup.as_ref().unwrap().reports;
    assert_eq!(left.len(), 1);
    assert_eq!(left[0].0, local());
}

#[test]
fn commands_are_handed_out_in_order() {
    let mut s = AppState::new();
    let cmds = reduce(&mut s, Action::Quit);
    assert!(matches!(cmds.into_vec().as_slice(), [Command::Shutdown]));
}

#[test]
fn clipboard_summaries_hold_no_contents() {
    let text = ClipboardContent::Text("secr\u{e9}t".into());
    assert_eq!(text.summary(), "Text(7)");
    let file = ClipboardContent::File {
        name: "a\"b.png".into(),
        bytes: vec![1, 2, 3],
    };
    assert_eq!(file.summary(), "File { name: \"a\\\"b.png\", bytes: 3 }");
}

#[test]
fn clipboard_images_become_png_files() {
    let pixels = vec![255, 0, 0, 255, 0, 255, 0, 255];
    let Ok(ClipboardContent::File { name, bytes }) = image_content(2, 1, pixels) else {
        panic!("no file");
    };
    assert_eq!(name, "clipboard.png");
    assert_eq!(bytes[..8], [137, 80, 78, 71, 13, 10, 26, 10]);
    // Width and height follow the name of the first chunk.
    assert_eq!(bytes[12..24], *b"IHDR\0\0\0\x02\0\0\0\x01");
    let refused = |w, h, n| image_content(w, h, vec![0; n]).err();
    assert_eq!(refused(1 << 32, 1, 4), Some(ClipboardError::ImageWidth));
    assert_eq!(refused(1, 1 << 32, 4), Some(ClipboardError::ImageHeight));
    assert_eq!(refused(1, 2, 7), Some(ClipboardError::ImageBuffer));
    assert_eq!(refused(0, 0, 0), Some(ClipboardError::ImageEncoding));
    assert_eq!(
        png_content(Some(vec![0; MAX_UPLOAD_BYTES + 1])).err(),
        Some(ClipboardError::TooLarge(MAX_UPLOAD_BYTES + 1))
    );
}

#[test]
fn closing_a_tab_kills_its_session() {
    let (mut s, sups) = started(true);
    assert!(belongs(&s, local(), "a", "main"));
    assert!(!belongs(&s, local(), "a", "gone"));
    assert!(!belongs(&s, SupervisorId(1), "a", "main"));
    assert!(rebind(&mut s, local(), "a", "main", 5));
    s.active_worktree = Some((0, 0));
    s.mode = Mode::Normal;
    let x = KeyEvent::new(KeyCode::Char('x'), KeyModifiers::none());
    let cmds = reduce(&mut s, Action::Key(x)).into_vec();
    assert_eq!(cmds.len(), 1);
    assert!(!s.sessions.contains(&5));
    for cmd in cmds {
        assert!(matches!(execute(cmd, &s, &sups), Effect::Kill(5)));
    }
    // A session whose worktree is gone was never registered.
    let orphan = Action::SessionSpawned {
        session: 9,
        dest: (7, 7),
    };
    for cmd in reduce(&mut s, orphan).into_vec() {
        assert!(matches!(execute(cmd, &s, &sups), Effect::Kill(9)));
    }
}

#[test]
fn keys_are_pinned_under_host_and_port() {
    let t = dial_target("[::1]:7777").unwrap();
    assert_eq!((t.host.as_str(), t.pin.as_str()), ("::1", "[::1]:7777"));
    assert_eq!(dial_target("box").err(), Some(HostPortError::NoPort));
}
