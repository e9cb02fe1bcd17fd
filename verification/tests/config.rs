use imbuia::clipboard::{enforce_size, MAX_UPLOAD_BYTES};
use imbuia::config::{
    compute_slug, is_valid_slug, known_host_fingerprint, known_host_line,
    load_authorized_fingerprints, slugify,
};
use imbuia::ipc::{read_frame_len, MAX_FRAME};
use imbuia::updater::current_version;

#[test]
fn upload_limit_accepts_boundary() {
    assert!(enforce_size(MAX_UPLOAD_BYTES).is_ok());
    assert!(enforce_size(MAX_UPLOAD_BYTES + 1).is_err());
}

#[test]
fn current_version_parses() {
    assert!(current_version().is_some());
}

#[test]
fn read_frame_rejects_oversized_len() {
    assert!(
        read_frame_len(&(MAX_FRAME + 1).to_be_bytes()).is_none(),
        "oversized frame should be rejected"
    );
    assert_eq!(read_frame_len(&MAX_FRAME.to_be_bytes()), Some(MAX_FRAME));
}

#[test]
fn slugify_lowercases_and_dashes() {
    assert_eq!(slugify("Imbuia"), "imbuia");
    assert_eq!(slugify("My Project!"), "my-project");
    assert_eq!(slugify("  weird   spaces  "), "weird-spaces");
    assert_eq!(slugify("////"), "project");
}

#[test]
fn slug_collision_appends_counter() {
    let existing = vec!["imbuia".into(), "imbuia-2".into()];
    assert_eq!(compute_slug("Imbuia", &existing), "imbuia-3");
}

#[test]
fn rejects_traversal_slug() {
    assert!(!is_valid_slug("../etc"));
    assert!(!is_valid_slug("foo/bar"));
    assert!(!is_valid_slug(""));
    assert!(!is_valid_slug(&"a".repeat(65)));
    assert!(is_valid_slug("imbuia"));
    assert!(is_valid_slug("foo-bar_2"));
}

#[test]
fn known_hosts_tofu_and_authorized_keys() {
    // Unknown host before anything is pinned.
    let mut known = String::new();
    assert_eq!(known_host_fingerprint(&known, "h:1"), None);
    known.push_str(&known_host_line("h:1", "abc123"));
    known.push_str(&known_host_line("other:2", "def456"));
    assert_eq!(
        known_host_fingerprint(&known, "h:1").as_deref(),
        Some("abc123")
    );
    assert_eq!(
        known_host_fingerprint(&known, "other:2").as_deref(),
        Some("def456")
    );
    assert_eq!(known_host_fingerprint(&known, "missing:3"), None);

    // authorized_keys: comments + blank lines ignored, comment after fp ok.
    let set =
        load_authorized_fingerprints("# allowed clients\nabc123  # laptop\n\ndef456\n");
    assert!(set.contains(&"abc123".to_string()));
    assert!(set.contains(&"def456".to_string()));
    assert!(!set.contains(&"# allowed clients".to_string()));
    assert_eq!(set.len(), 2);
}

#[test]
fn slugs_are_tidy_and_their_own_slugs() {
    for name in ["--A  b_C9--", "project", "x", "\u{e9}t\u{e9} 2"] {
        let slug = slugify(name);
        assert_eq!(slugify(&slug), slug);
        assert!(!slug.starts_with('-') && !slug.ends_with('-') && !slug.contains("--"));
    }
    assert_eq!(slugify("--A  b_C9--"), "a-b-c9");
}
