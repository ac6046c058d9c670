use thane::claude_md::{
    claude_md_path, claude_md_path_in, has_current_instructions, remove_old_instructions, thane_instructions, upgraded_claude_md,
    MARKER, OLD_MARKER,
};

#[test]
fn test_claude_md_path_returns_some() {
    // On any system with a home directory, this should return Some.
    let path = claude_md_path(".agent", "AGENT.md");
    assert!(path.is_some());
    let p = path.unwrap();
    assert!(p.ends_with(".agent/AGENT.md"));
}

#[test]
fn memory_file_under_given_home() {
    assert_eq!(
        claude_md_path_in(Some("/home/u".to_string()), ".agent", "AGENT.md"),
        Some("/home/u/.agent/AGENT.md".to_string())
    );
    assert_eq!(claude_md_path_in(None, ".agent", "AGENT.md"), None);
}

#[test]
fn test_marker_detection() {
    let content_with = format!("# My stuff\n\n{MARKER}\nmore content");
    assert!(content_with.contains(MARKER));

    let content_without = "# My stuff\nno marker here";
    assert!(!content_without.contains(MARKER));
}

#[test]
fn test_instructions_contain_versioned_marker() {
    let instructions = thane_instructions();
    assert!(instructions.contains(MARKER));
    assert!(instructions.contains("thane-agent-queue-instructions-v4"));
}

#[test]
fn test_instructions_contain_working_directory_guidance() {
    assert!(thane_instructions().contains("Working directory"));
}

#[test]
fn test_old_marker_is_different_from_current() {
    assert_ne!(OLD_MARKER, MARKER);
}

#[test]
fn test_remove_old_instructions() {
    let old_block = format!("\n{OLD_MARKER}\n## thane Agent Queue Integration\n\nOld content here.\n");
    let original = format!("# My stuff\n\nSome content.{old_block}");

    let result = remove_old_instructions(&original);
    assert_eq!(result, "# My stuff\n\nSome content.");
    assert!(!result.contains(OLD_MARKER));
}

#[test]
fn test_remove_old_instructions_no_marker() {
    let content = "# My stuff\n\nNo marker here.".to_string();
    let result = remove_old_instructions(&content);
    assert_eq!(result, content);
}

#[test]
fn test_upgrade_old_to_new() {
    let old_instructions = format!("\n{OLD_MARKER}\n## thane Agent Queue Integration\n\nOld v1 content.\n");
    let original = format!("# User Content\n\nStuff here.{old_instructions}");

    assert!(original.contains(OLD_MARKER));
    assert!(!original.contains(MARKER));

    let mut upgraded = remove_old_instructions(&original);
    if !upgraded.is_empty() && !upgraded.ends_with('\n') {
        upgraded.push('\n');
    }
    upgraded.push_str(&thane_instructions());

    assert!(upgraded.contains(MARKER));
    assert!(upgraded.contains("# User Content"));
    assert!(upgraded.contains("Stuff here."));
    assert!(upgraded.contains("Working directory"));
    assert!(!upgraded.contains("Old v1 content."));
}

#[test]
fn upgrade_appends_instructions_once() {
    let upgraded = upgraded_claude_md("# Existing content\n").unwrap();
    assert!(upgraded.starts_with("# Existing content\n"));
    assert!(has_current_instructions(&upgraded));
    // A second upgrade has nothing to do.
    assert!(upgraded_claude_md(&upgraded).is_none());
}

#[test]
fn upgrade_separates_content_without_final_newline() {
    let upgraded = upgraded_claude_md("# Notes").unwrap();
    assert!(upgraded.starts_with("# Notes\n"));
    assert!(upgraded.ends_with(&thane_instructions()));
}
