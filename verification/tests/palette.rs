use imbuia::cmdtable::COMMANDS;
use imbuia::keybinds::{defaults, BindableAction, ALL};
use imbuia::palette::{build_entries, filter, PaletteExec};

#[test]
fn entry_count_is_stable() {
    // 10 pairs + 8 command-only + 1 prefill (set) + 12 action-only.
    let entries = build_entries(&defaults());
    assert_eq!(entries.len(), 31);
}

#[test]
fn no_duplicate_names() {
    let entries = build_entries(&defaults());
    let mut names: Vec<&str> = entries.iter().map(|e| e.name).collect();
    names.sort_unstable();
    names.dedup();
    assert_eq!(names.len(), entries.len());
}

#[test]
fn every_command_is_reachable() {
    // Every ex command's canonical name appears exactly once, except
    // `palette` itself (no self-entry).
    let entries = build_entries(&defaults());
    for spec in COMMANDS {
        let canonical = spec.name();
        if canonical == "palette" {
            continue;
        }
        assert!(
            entries.iter().any(|e| e.name == canonical),
            "command {canonical:?} missing from palette"
        );
    }
}

#[test]
fn every_normal_action_is_reachable_except_exclusions() {
    let entries = build_entries(&defaults());
    for action in ALL {
        let excluded = matches!(
            action,
            BindableAction::LeaveTerminal | BindableAction::CommandPalette
        );
        let present = entries
            .iter()
            .any(|e| matches!(e.run, PaletteExec::Action(a) if a == action));
        assert_eq!(
            present,
            !excluded,
            "action {} presence wrong",
            action.name()
        );
    }
}

#[test]
fn pair_entries_carry_the_action_keybind() {
    let km = defaults();
    let entries = build_entries(&km);
    let launch = entries.iter().find(|e| e.name == "launch").unwrap();
    assert_eq!(launch.keybind, km.binding_for(BindableAction::LaunchPicker));
    assert!(launch.keybind.is_some());
}

#[test]
fn empty_query_returns_all_in_order() {
    let entries = build_entries(&defaults());
    let idx = filter(&entries, "");
    assert_eq!(idx, (0..entries.len()).collect::<Vec<_>>());
}

#[test]
fn name_prefix_ranks_first() {
    let entries = build_entries(&defaults());
    let idx = filter(&entries, "up");
    // `update` (name-prefix) must come before `usage` and friends that
    // only match by subsequence/description.
    assert_eq!(entries[idx[0]].name, "update");
}

#[test]
fn subsequence_matches_name() {
    let entries = build_entries(&defaults());
    let idx = filter(&entries, "wkt");
    assert!(idx.iter().any(|&i| entries[i].name == "worktree"));
}

#[test]
fn description_matches_too() {
    let entries = build_entries(&defaults());
    let idx = filter(&entries, "memory");
    // `:usage` is found via its description ("…live memory/CPU usage…").
    assert!(idx.iter().any(|&i| entries[i].name == "usage"));
}

#[test]
fn no_match_returns_empty() {
    let entries = build_entries(&defaults());
    assert!(filter(&entries, "zzzzqqqq").is_empty());
}
