use std::time::Duration;

use thane::version::{is_version_newer, latest_linux_version, version_from_field, LatestVersionError};
use thane::workspace_status::{
    resolve_agent_stall_status, shorten_path, shorten_path_with, AgentStatus, Elapsed, PanelDetection, AGENT_STALL_THRESHOLD_SECS,
};

fn elapsed(d: Duration) -> Elapsed {
    Elapsed { secs: d.as_secs(), nanos: d.subsec_nanos() }
}

fn make_active(panel: u128, name: &str, since: Option<Duration>) -> PanelDetection {
    PanelDetection {
        panel,
        status: AgentStatus::Active,
        agent_name: Some(name.to_string()),
        since_output: since.map(elapsed),
    }
}

fn make_inactive(panel: u128, since: Option<Duration>) -> PanelDetection {
    PanelDetection { panel, status: AgentStatus::Inactive, agent_name: None, since_output: since.map(elapsed) }
}

fn agent_of(agents: &[(u128, String)], panel: u128) -> Option<&str> {
    agents.iter().find(|(p, _)| *p == panel).map(|(_, n)| n.as_str())
}

#[test]
fn stall_no_agents_returns_inactive() {
    let (status, agents) = resolve_agent_stall_status(&[]);
    assert_eq!(status, AgentStatus::Inactive);
    assert!(agents.is_empty());
}

#[test]
fn stall_active_agent_with_recent_output() {
    let detections = vec![make_active(1, "aider", Some(Duration::from_secs(10)))];
    let (status, agents) = resolve_agent_stall_status(&detections);
    assert_eq!(status, AgentStatus::Active);
    assert_eq!(agent_of(&agents, 1).unwrap(), "aider");
}

#[test]
fn stall_active_agent_with_old_output() {
    let detections = vec![make_active(1, "aider", Some(Duration::from_secs(90)))];
    let (status, agents) = resolve_agent_stall_status(&detections);
    assert_eq!(status, AgentStatus::Stalled);
    assert_eq!(agent_of(&agents, 1).unwrap(), "aider");
}

#[test]
fn stall_active_agent_with_no_recorded_output() {
    let detections = vec![make_active(1, "codex", None)];
    let (status, agents) = resolve_agent_stall_status(&detections);
    assert_eq!(status, AgentStatus::Stalled);
    assert_eq!(agent_of(&agents, 1).unwrap(), "codex");
}

#[test]
fn stall_mixed_active_wins_over_stalled() {
    let detections = vec![
        make_active(1, "aider", Some(Duration::from_secs(120))),
        make_active(2, "aider", Some(Duration::from_secs(5))),
    ];
    let (status, _agents) = resolve_agent_stall_status(&detections);
    assert_eq!(status, AgentStatus::Active);
}

#[test]
fn stall_inactive_agent_regardless_of_timestamps() {
    let detections = vec![make_inactive(1, Some(Duration::from_secs(5)))];
    let (status, agents) = resolve_agent_stall_status(&detections);
    assert_eq!(status, AgentStatus::Inactive);
    assert!(agents.is_empty());
}

#[test]
fn stall_boundary_at_exactly_threshold() {
    let threshold = Duration::from_secs(AGENT_STALL_THRESHOLD_SECS);
    let detections = vec![make_active(1, "aider", Some(threshold))];
    let (status, _) = resolve_agent_stall_status(&detections);
    assert_eq!(status, AgentStatus::Active);
}

#[test]
fn stall_boundary_one_second_past_threshold() {
    let threshold = Duration::from_secs(AGENT_STALL_THRESHOLD_SECS);
    let detections = vec![make_active(1, "aider", Some(threshold + Duration::from_secs(1)))];
    let (status, _) = resolve_agent_stall_status(&detections);
    assert_eq!(status, AgentStatus::Stalled);
}

#[test]
fn stall_just_past_threshold_by_a_nanosecond() {
    let d = Duration::from_secs(AGENT_STALL_THRESHOLD_SECS) + Duration::from_nanos(1);
    let (status, _) = resolve_agent_stall_status(&[make_active(1, "aider", Some(d))]);
    assert_eq!(status, AgentStatus::Stalled);
}

#[test]
fn stalled_then_inactive_stays_stalled() {
    let detections = vec![make_active(1, "a", None), make_inactive(2, None)];
    let (status, agents) = resolve_agent_stall_status(&detections);
    assert_eq!(status, AgentStatus::Stalled);
    assert_eq!(agents, vec![(1, "a".to_string())]);
}

#[test]
fn newer_major() {
    assert!(is_version_newer("2.0.0", "1.0.0"));
}

#[test]
fn newer_minor() {
    assert!(is_version_newer("0.2.0", "0.1.0"));
}

#[test]
fn newer_patch() {
    assert!(is_version_newer("0.1.1", "0.1.0"));
}

#[test]
fn same_version() {
    assert!(!is_version_newer("0.1.0", "0.1.0"));
}

#[test]
fn older_version() {
    assert!(!is_version_newer("0.1.0", "0.2.0"));
}

#[test]
fn release_newer_than_prerelease() {
    assert!(is_version_newer("0.1.0", "0.1.0-beta.2"));
}

#[test]
fn prerelease_not_newer_than_release() {
    assert!(!is_version_newer("0.1.0-beta.2", "0.1.0"));
}

#[test]
fn same_prerelease() {
    assert!(!is_version_newer("0.1.0-beta.2", "0.1.0-beta.2"));
}

#[test]
fn strips_v_prefix() {
    assert!(is_version_newer("v0.2.0", "v0.1.0"));
    assert!(!is_version_newer("v0.1.0", "v0.2.0"));
}

#[test]
fn higher_version_with_prerelease_is_newer() {
    assert!(is_version_newer("0.2.0-beta.1", "0.1.0"));
}

#[test]
fn missing_parts_count_as_zero() {
    assert!(!is_version_newer("1.0", "1.0.0"));
    assert!(is_version_newer("1.0.1", "1"));
    assert!(is_version_newer("1.x.2", "1.1"));
}

#[test]
fn shorten_path_replaces_home() {
    assert_eq!(shorten_path_with("/home/u/proj", Some("/home/u".to_string())), "~/proj");
    assert_eq!(shorten_path_with("/srv/x", Some("/home/u".to_string())), "/srv/x");
    assert_eq!(shorten_path_with("/srv/x", None), "/srv/x");
}

#[test]
fn latest_version_reads_linux_key() {
    assert_eq!(latest_linux_version("{\"macos\": \"1.0.0\", \"linux\": \" 1.2.3\\n\"}"), Ok("1.2.3".to_string()));
}

#[test]
fn latest_version_errors() {
    assert_eq!(latest_linux_version("not json"), Err(LatestVersionError::InvalidJson));
    assert_eq!(latest_linux_version("{\"macos\": \"1.0.0\"}"), Err(LatestVersionError::MissingKey));
    assert_eq!(latest_linux_version("{\"linux\": 3}"), Err(LatestVersionError::MissingKey));
    assert_eq!(latest_linux_version("[\"linux\"]"), Err(LatestVersionError::MissingKey));
    assert_eq!(latest_linux_version("{\"linux\": \"   \"}"), Err(LatestVersionError::EmptyVersion));
}

#[test]
fn version_from_field_trims() {
    assert_eq!(version_from_field(Some(Some("  v2.0.1 ".to_string()))), Ok("v2.0.1".to_string()));
    assert_eq!(version_from_field(Some(Some(String::new()))), Err(LatestVersionError::EmptyVersion));
    assert_eq!(version_from_field(Some(None)), Err(LatestVersionError::MissingKey));
    assert_eq!(version_from_field(None), Err(LatestVersionError::InvalidJson));
}

#[test]
fn shorten_path_leaves_relative_paths() {
    assert_eq!(shorten_path("relative/dir"), "relative/dir");
}

#[test]
fn stall_same_panel_keeps_last_name() {
    let recent = Some(Duration::from_secs(1));
    let detections = vec![
        make_active(1, "aider", recent),
        make_active(2, "codex", recent),
        make_active(1, "goose", recent),
        PanelDetection { panel: 2, status: AgentStatus::Active, agent_name: None, since_output: recent.map(elapsed) },
    ];
    let (status, agents) = resolve_agent_stall_status(&detections);
    assert_eq!(status, AgentStatus::Active);
    assert_eq!(agents.len(), 2);
    assert_eq!(agent_of(&agents, 1), Some("goose"));
    assert_eq!(agent_of(&agents, 2), Some("codex"));
}
