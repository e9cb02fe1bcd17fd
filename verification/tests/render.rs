use imbuia::app::{
    mock_projects, Action, AppState, Mode, PendingConfirm, PrStatus, SupervisorDirectory,
    UpdateStatus, UsagePopup,
};
use imbuia::drawing::{
    byte_unit, centered_rect, pad_left, pad_right, row_style, status_color, truncate,
    truncate_to_width, vertical_center, ByteUnit,
};
use imbuia::event::{KeyCode, KeyEvent, KeyModifiers};
use imbuia::help::{help_lines, help_view, HelpLine};
use imbuia::ipc::{ProcessNode, SessionUsage, UsageReport};
use imbuia::layout::{chrome, Rect, TermSize};
use imbuia::overlays::{
    browser_rows, completion_rect, completion_rows, edit_rect, everything_label, help_rect,
    input_cursor, input_rect, launch_rect, launch_rows, leader_rect, open_rect, open_texts,
    palette_rect, palette_rows, usage_label, usage_memory, usage_rect, usage_title, usage_totals,
};
use imbuia::reducer::reduce;
use imbuia::render::{
    action_bar_middle, command_cursor, confirm_prompt_text, floating, leader_hints, mode_label,
    notice, pane, pending_chord_is_space, sidebar_lines, tab_labels, update_banner_text, Floating,
    Notice, Pane,
};
use imbuia::theme::{Theme, ThemeKind};
use imbuia::updater::release_of_tag;
use imbuia::usage::usage_visible_rows;

fn key(c: char) -> Action {
    Action::Key(KeyEvent::new(KeyCode::Char(c), KeyModifiers::none()))
}

fn run(s: &mut AppState, line: &str) {
    s.mode = Mode::Command;
    s.command = line.into();
    let _ = reduce(
        s,
        Action::Key(KeyEvent::new(KeyCode::Enter, KeyModifiers::none())),
    );
}

fn with_projects() -> AppState {
    let mut s = AppState::new();
    s.term_size = TermSize::new(40, 100);
    s.projects = mock_projects();
    s.sidebar_selection = Some((0, None));
    s
}

fn screen() -> Rect {
    Rect::new(0, 0, 100, 40)
}

fn node(pid: u32, name: &str, rss_bytes: u64, children: Vec<ProcessNode>) -> ProcessNode {
    ProcessNode {
        pid,
        name: name.into(),
        rss_bytes,
        cpu_bits: 0,
        children,
    }
}

#[test]
fn columns_are_counted_not_characters() {
    assert_eq!(truncate("abc", 3), "abc");
    assert_eq!(truncate("abcd", 3), "ab…");
    assert_eq!(truncate("日本語", 6), "日本語");
    assert_eq!(truncate("日本語", 5), "日本…");
    assert_eq!(truncate("日本語", 4), "日…");
    assert_eq!(truncate_to_width("abcd", 3), "ab…");
    assert_eq!(truncate_to_width("abcd", 1), "…");
    assert_eq!(truncate_to_width("abcd", 0), "");
    assert_eq!(pad_right("ab", 4), "ab  ");
    assert_eq!(pad_left("ab", 4), "  ab");
    assert_eq!(pad_left("abcde", 4), "abcde");
}

#[test]
fn amounts_of_memory_have_units() {
    assert_eq!(byte_unit(1023), ByteUnit::Bytes);
    assert_eq!(byte_unit(1024), ByteUnit::Kib);
    assert_eq!(byte_unit(1024 * 1024), ByteUnit::Mib);
    assert_eq!(byte_unit(1024 * 1024 * 1024), ByteUnit::Gib);
}

#[test]
fn rectangles_are_centered() {
    assert_eq!(
        centered_rect(50, 10, screen()),
        Rect::new(25, 15, 50, 10)
    );
    assert_eq!(centered_rect(500, 500, screen()), Rect::new(1, 1, 98, 38));
    assert_eq!(vertical_center(screen(), 4), Rect::new(0, 18, 100, 4));
    assert_eq!(
        vertical_center(Rect::new(0, 0, 10, 2), 4),
        Rect::new(0, 0, 10, 2)
    );
}

#[test]
fn the_first_open_popup_is_drawn() {
    let mut s = AppState::new();
    assert_eq!(floating(&s), Floating::Nothing);
    run(&mut s, "palette");
    assert_eq!(floating(&s), Floating::Palette);
    s.usage_popup = Some(UsagePopup::new(SupervisorDirectory::local_only()));
    assert_eq!(floating(&s), Floating::Usage);
    s.help_open = true;
    assert_eq!(floating(&s), Floating::Help);
}

#[test]
fn the_leader_shows_what_may_follow() {
    let mut s = AppState::new();
    assert!(!pending_chord_is_space(&s));
    let _ = reduce(&mut s, key(' '));
    assert!(pending_chord_is_space(&s));
    let hints = leader_hints(&s);
    assert!(hints.iter().any(|(k, d)| k == "q" && !d.is_empty()));
    assert!(hints.iter().all(|(k, _)| !k.contains("Space")));
    let r = leader_rect(screen(), &hints).unwrap();
    let widest = hints
        .iter()
        .map(|(k, d)| k.chars().count() + 3 + d.chars().count())
        .max()
        .unwrap();
    assert_eq!(r.width as usize, widest + 4);
    assert_eq!(r.height as usize, hints.len() + 3);
    assert_eq!(r.x + r.width, 99);
    assert_eq!(r.y + r.height, 38);
    assert_eq!(leader_rect(screen(), &Vec::new()), None);
    let _ = reduce(&mut s, key('q'));
    let _ = reduce(&mut s, key('g'));
    assert!(!pending_chord_is_space(&s));
}

#[test]
fn the_sidebar_lists_projects_and_worktrees() {
    let mut s = with_projects();
    s.active_worktree = Some((0, 1));
    s.pr_statuses.insert((0, 1), PrStatus::Merged);
    let lines = sidebar_lines(&s, 30);
    let texts: Vec<&str> = lines.iter().map(|l| l.text.as_str()).collect();
    assert_eq!(
        texts,
        [
            "▼ imbuia", "○ main", "● feat-x", "▼ brick", "○ main", "○ dev", "▶ scratch"
        ]
    );
    assert_eq!(lines[0].bar, None);
    assert_eq!(lines[1].bar, Some(s.theme.fg_dim));
    assert_eq!(lines[2].bar, Some(s.theme.status_changes));
    assert_eq!(lines[0].style, row_style(&s.theme, true, true, true, false));
    assert_eq!(lines[1].style, row_style(&s.theme, false, true, false, false));
    let narrow = sidebar_lines(&s, 6);
    assert_eq!(narrow[0].text, "▼ imb…");
    assert_eq!(narrow[1].text, "○ m…");
}

#[test]
fn colors_stand_for_statuses() {
    let t = Theme::for_kind(ThemeKind::Light);
    assert_eq!(status_color(&t, None), t.fg_dim);
    assert_eq!(status_color(&t, Some(PrStatus::Open)), t.status_ok);
    assert_eq!(status_color(&t, Some(PrStatus::Failed)), t.status_error);
    assert_eq!(
        status_color(&t, Some(PrStatus::ChangesRequested)),
        t.status_error
    );
    assert_eq!(status_color(&t, Some(PrStatus::Running)), t.status_running);
    assert_eq!(status_color(&t, Some(PrStatus::Approved)), t.status_approved);
    assert_eq!(status_color(&t, Some(PrStatus::Merged)), t.status_changes);
    assert_eq!(row_style(&t, true, false, false, false).fg, t.fg_dim);
    assert_eq!(row_style(&t, true, true, false, false).fg, t.selection_fg);
    assert_eq!(row_style(&t, false, true, true, true).fg, t.fg_dim);
}

#[test]
fn tabs_are_numbered_from_one() {
    let mut s = with_projects();
    assert!(tab_labels(&s).is_empty());
    s.active_worktree = Some((0, 0));
    for id in [7, 8] {
        let _ = reduce(
            &mut s,
            Action::SessionSpawned {
                session: id,
                dest: (0, 0),
            },
        );
    }
    assert_eq!(
        tab_labels(&s),
        [(" 1 ".to_string(), false), (" 2 ".to_string(), true)]
    );
    assert!(matches!(pane(&s), Pane::Session(8)));
}

#[test]
fn an_empty_pane_says_what_to_do() {
    let s = AppState::new();
    match pane(&s) {
        Pane::Lines(l) => assert_eq!(l[0], "No projects yet."),
        other => panic!("unexpected: {other:?}"),
    }
    let mut s = with_projects();
    match pane(&s) {
        Pane::Lines(l) => assert_eq!(
            l,
            ["No worktree selected — press Enter on a worktree in the sidebar."]
        ),
        other => panic!("unexpected: {other:?}"),
    }
    s.active_worktree = Some((0, 0));
    match pane(&s) {
        Pane::Lines(l) => assert_eq!(l, ["No terminal open — press 'o' or :tabnew to open one."]),
        other => panic!("unexpected: {other:?}"),
    }
}

#[test]
fn the_action_bar_says_where_one_is() {
    let mut s = with_projects();
    let regions = chrome(s.term_size.as_rect(), s.sidebar_width);
    assert_eq!(action_bar_middle(&s, &regions), "no worktree");
    s.active_worktree = Some((0, 1));
    assert_eq!(
        action_bar_middle(&s, &regions),
        "imbuia · feat-x · 37×76"
    );
    assert_eq!(
        action_bar_middle(&AppState::new(), &regions),
        "no projects — :open <path> or press O"
    );
    assert_eq!(mode_label(Mode::Normal), Some(" -- NORMAL -- "));
    assert_eq!(mode_label(Mode::Terminal), Some(" -- TERMINAL -- "));
    assert_eq!(mode_label(Mode::Command), None);
    assert_eq!(command_cursor(Rect::new(2, 39, 10, 1), "abc"), 6);
    assert_eq!(command_cursor(Rect::new(2, 39, 10, 1), "0123456789"), 11);
}

#[test]
fn one_notice_at_a_time() {
    let mut s = AppState::new();
    assert!(matches!(notice(&s), Notice::Nothing));
    s.available_update = release_of_tag("v9.9.9".into());
    assert!(s.available_update.is_some());
    match notice(&s) {
        Notice::Banner(b) => assert_eq!(b, "v9.9.9 available · :update to install"),
        other => panic!("unexpected: {other:?}"),
    }
    s.update_status = UpdateStatus::Checking;
    assert_eq!(update_banner_text(&s), None);
    s.update_status = UpdateStatus::Installing;
    assert_eq!(update_banner_text(&s).as_deref(), Some("updating…"));
    s.command_status = Some("done".into());
    assert!(matches!(notice(&s), Notice::Status(t) if t == "done"));
    s.pending_op = Some("busy".into());
    assert!(matches!(notice(&s), Notice::Busy(t) if t == "busy"));
    s.pending_confirm = Some(PendingConfirm::RemoveWorktree {
        project_idx: 0,
        worktree_idx: 0,
        name: "x".into(),
        repo_path: "/r".into(),
        dest_path: "/r-x".into(),
        branch: None,
    });
    assert_eq!(
        confirm_prompt_text(&s).as_deref(),
        Some("delete worktree 'x'? [y/N]")
    );
    assert!(matches!(notice(&s), Notice::Confirm(_)));
}

#[test]
fn the_launcher_picker_shows_commands_and_sources() {
    let mut s = with_projects();
    s.active_worktree = Some((0, 0));
    s.projects[0].launchers = vec![imbuia::app::Launcher {
        name: "dev".into(),
        command: "x".repeat(50),
    }];
    run(&mut s, "launch");
    let popup = s.launch_popup.as_ref().unwrap();
    let rows = launch_rows(popup);
    assert_eq!(rows.len(), 2);
    assert_eq!(rows[0].head, "▸ Terminal");
    assert_eq!(rows[0].detail, "  (plain shell)");
    assert_eq!(rows[0].tag, "");
    assert!(rows[0].selected);
    assert_eq!(rows[1].head, "  dev");
    assert_eq!(rows[1].detail, format!("  {}…", "x".repeat(43)));
    assert_eq!(rows[1].tag, "  [project]");
    // "Terminal" is 8 bytes: 16 columns, raised to 28; 2 entries: 6 rows.
    assert_eq!(launch_rect(screen(), popup), Rect::new(36, 17, 28, 6));
}

#[test]
fn the_palette_keeps_its_top_edge() {
    let mut s = AppState::new();
    run(&mut s, "palette");
    let popup = s.palette_popup.as_ref().unwrap();
    let all = palette_rect(screen(), popup);
    assert_eq!(all, Rect::new(14, 6, 72, 24));
    let rows = palette_rows(popup, 72, 20);
    assert_eq!(rows.len(), 20);
    assert!(rows[0].selected && rows[0].head.starts_with("▸ "));
    assert_eq!(rows[0].head.chars().count(), 20);
    for c in "zzzz".chars() {
        let _ = reduce(&mut s, key(c));
    }
    let popup = s.palette_popup.as_ref().unwrap();
    let none = palette_rect(screen(), popup);
    assert_eq!((none.x, none.y, none.height), (14, 6, 7));
    assert!(palette_rows(popup, 72, 20).is_empty());
}

#[test]
fn the_palette_scrolls_with_its_cursor() {
    let mut s = AppState::new();
    run(&mut s, "palette");
    s.palette_popup.as_mut().unwrap().cursor = 5;
    let rows = palette_rows(s.palette_popup.as_ref().unwrap(), 72, 3);
    assert_eq!(rows.len(), 3);
    assert!(rows[2].selected);
    assert!(!rows[0].selected && !rows[1].selected);
}

#[test]
fn the_open_popup_lists_directories() {
    let mut s = AppState::new();
    run(&mut s, "open");
    let before = s.open_project_popup.as_ref().unwrap();
    let texts = open_texts(before, &s.supervisors);
    assert_eq!(texts.dir, "(listing…)");
    assert_eq!(texts.supervisor, "local");
    assert_eq!(texts.supervisor_hint, "");
    assert_eq!(texts.checkbox, " [ ] ");
    assert!(browser_rows(before, 5).is_empty());
    let _ = reduce(
        &mut s,
        Action::DirListed {
            dir: "/home".into(),
            parent: Some("/".into()),
            entries: vec![
                imbuia::ipc::DirEntry {
                    name: "a".into(),
                    is_repo: true,
                },
                imbuia::ipc::DirEntry {
                    name: "b".into(),
                    is_repo: false,
                },
            ],
        },
    );
    let popup = s.open_project_popup.as_ref().unwrap();
    assert_eq!(open_texts(popup, &s.supervisors).dir, "/home");
    let rows = browser_rows(popup, 5);
    let labels: Vec<&str> = rows.iter().map(|r| r.label.as_str()).collect();
    assert_eq!(labels, ["  ../", "  ◆ a/", "    b/"]);
    assert!(rows[1].selected && rows[1].repo && !rows[2].selected);
    assert_eq!(open_rect(screen()), Rect::new(15, 12, 70, 16));
}

#[test]
fn usage_is_summed_over_sessions_and_programs() {
    let mut popup = UsagePopup::new(SupervisorDirectory::local_only());
    assert!(usage_title(&popup).contains("waiting"));
    let report = UsageReport {
        sessions: vec![SessionUsage {
            session_id: 1,
            project_slug: "p".into(),
            worktree_name: "w".into(),
            root: node(10, "sh", 100, vec![node(11, "vi", 20, vec![])]),
        }],
        supervisor: node(2, "imbuia", 7, vec![]),
        client: None,
        ts_ms: 0,
        cpu_count: 8,
    };
    imbuia::usage::add_report(&mut popup, imbuia::app::local(), report);
    popup.client = Some(node(3, "imbuia", 5, vec![]));
    popup.expanded.insert(1);
    assert!(usage_title(&popup).contains("expand"));
    let rows = usage_visible_rows(&popup);
    let labels: Vec<String> = rows.iter().map(usage_label).collect();
    assert_eq!(
        labels,
        [
            "▏local",
            "▾ p/w  (pid 10)",
            "    └ vi  (pid 11)",
            "  ◆ imbuia (supervisor pid 2)",
            "◆ imbuia (client pid 3)"
        ]
    );
    assert_eq!(usage_memory(&rows[1]), Some(120));
    assert_eq!(usage_memory(&rows[2]), Some(20));
    assert_eq!(usage_totals(&rows), Some((120, 132)));
    assert_eq!(everything_label(&popup), "Σ everything  (8 cores available)");
    assert_eq!(usage_rect(screen()), Rect::new(3, 5, 94, 30));
}

#[test]
fn memory_that_cannot_be_counted_is_not_shown() {
    let huge = node(1, "a", u64::MAX, vec![node(2, "b", 1, vec![])]);
    assert_eq!(huge.checked_total_rss(), None);
    assert_eq!(node(1, "a", 3, vec![node(2, "b", 1, vec![])]).total_rss(), 4);
}

#[test]
fn popups_have_their_places() {
    assert_eq!(edit_rect(screen()), Rect::new(4, 8, 92, 24));
    assert_eq!(help_rect(screen()), Rect::new(11, 2, 78, 36));
    let mut s = with_projects();
    run(&mut s, "worktree");
    let popup = s.popup.as_ref().unwrap();
    let r = input_rect(screen(), popup);
    let wish = popup.title.len().max(popup.prompt.len() + 4) + 6;
    assert_eq!((r.width as usize, r.height), (wish.clamp(40, 96), 5));
    let inner = Rect::new(r.x + 1, r.y + 1, r.width - 2, r.height - 2);
    assert_eq!(
        input_cursor(inner, popup),
        Some(inner.x + 3 + popup.prompt.chars().count() as u16)
    );
    assert_eq!(input_cursor(Rect::new(0, 0, 3, 1), popup), None);
}

#[test]
fn completions_lie_above_the_action_bar() {
    let mut s = AppState::new();
    let _ = reduce(&mut s, key(':'));
    let _ = reduce(&mut s, key('t'));
    let comp = s.command_completion.as_ref().unwrap();
    let n = comp.matches.len();
    assert!(n >= 2);
    let rows = completion_rows(comp);
    assert_eq!(rows.len(), n);
    assert!(rows[0].0.starts_with(" :t") && rows[0].0.ends_with("  "));
    assert!(rows[0].1.ends_with(' '));
    assert_eq!(rows[0].0.len(), rows[1].0.len());
    let bar = Rect::new(0, 39, 100, 1);
    let r = completion_rect(bar, comp).unwrap();
    assert_eq!(r.y + r.height, 39);
    assert_eq!(r.height as usize, n.min(8));
    assert_eq!(completion_rect(Rect::new(0, 0, 100, 1), comp), None);
}

#[test]
fn help_names_the_live_bindings() {
    let s = AppState::new();
    let lines = help_lines(&s);
    assert!(matches!(&lines[0], HelpLine::Header(h) if *h == "MODES"));
    assert!(lines
        .iter()
        .any(|l| matches!(l, HelpLine::Row { keys, .. } if keys.contains("<C-\\><C-n>"))));
    let v = help_view(60, 30, 100);
    assert_eq!((v.rows, v.max_scroll, v.scroll), (29, 31, 31));
    assert_eq!(v.footer, " j/k or ↑↓ or wheel · 32/32 · Esc close");
    let v = help_view(10, 30, 0);
    assert_eq!(v.footer, " j/k or ↑↓ or wheel · Esc close");
}
