use thane::policy::PersistPolicy;

#[test]
fn test_truncate_scrollback() {
    let policy = PersistPolicy { max_scrollback_lines: 3, ..Default::default() };

    let scrollback = "line1\nline2\nline3\nline4\nline5";
    let truncated = policy.truncate_scrollback(scrollback);
    assert_eq!(truncated, "line3\nline4\nline5");
}

#[test]
fn test_no_truncation_needed() {
    let policy = PersistPolicy { max_scrollback_lines: 10, ..Default::default() };

    let scrollback = "line1\nline2\nline3";
    let truncated = policy.truncate_scrollback(scrollback);
    assert_eq!(truncated, scrollback);
}

#[test]
fn persist_policy_defaults() {
    let p = PersistPolicy::default();
    assert_eq!(p.max_scrollback_lines, 5000);
    assert_eq!(p.max_workspaces, 50);
    assert_eq!(p.auto_save_interval_secs, 8);
    assert_eq!(p.max_snapshot_bytes, 50 * 1024 * 1024);
}

#[test]
fn truncated_scrollback_never_exceeds_limit() {
    let policy = PersistPolicy { max_scrollback_lines: 2, ..Default::default() };
    let text = "a\nb\nc\nd\n";
    let t = policy.truncate_scrollback(text);
    assert!(t.lines().count() <= 2);
    assert_eq!(t, "c\nd");
}
