use thane::namespace::{
    id_map_line, isolation_outcome, mount_targets, namespace_wanted, unshare_failure, userns_supported_from,
    NamespaceError,
};
use thane::pidlock::{already_running, lock_contents, lock_path, running_pid, AcquireError};
use thane::sandbox::{EnforcementLevel, SandboxPolicy};

fn disabled_policy() -> SandboxPolicy {
    SandboxPolicy {
        enabled: false,
        enforcement: EnforcementLevel::Enforcing,
        allow_network: true,
        root_dir: String::new(),
        read_only_paths: Vec::new(),
        read_write_paths: Vec::new(),
        denied_paths: vec!["/home/user/.ssh".to_string()],
        max_open_files: None,
        max_write_bytes: None,
        cpu_time_limit: None,
    }
}

fn confined_to(root: &str) -> SandboxPolicy {
    SandboxPolicy { enabled: true, root_dir: root.to_string(), ..disabled_policy() }
}

#[test]
fn namespace_test_disabled_policy_is_noop() {
    let policy = disabled_policy();
    assert!(!namespace_wanted(&policy));
}

#[test]
fn test_empty_denied_paths_is_noop() {
    let mut policy = confined_to("/home/user/project");
    policy.denied_paths = Vec::new();
    assert!(!namespace_wanted(&policy));
}

#[test]
fn namespace_test_try_apply_disabled() {
    let policy = disabled_policy();
    // Nothing is attempted, so trying reports that isolation was not applied.
    assert!(!namespace_wanted(&policy));
}

#[test]
fn test_try_apply_no_denied_paths() {
    let mut policy = confined_to("/home/user/project");
    policy.denied_paths = Vec::new();
    assert!(!namespace_wanted(&policy));
}

#[test]
fn test_userns_support_check() {
    assert!(userns_supported_from(Some("1\n".to_string()), None));
    assert!(!userns_supported_from(Some("0\n".to_string()), Some("100".to_string())));
    assert!(userns_supported_from(None, Some(" 15000\n".to_string())));
    assert!(!userns_supported_from(None, Some("0".to_string())));
    assert!(!userns_supported_from(None, Some("many".to_string())));
    assert!(!userns_supported_from(None, None));
}

#[test]
fn namespace_wanted_with_denied_paths() {
    assert!(namespace_wanted(&confined_to("/p")));
}

#[test]
fn unshare_eperm_means_not_supported() {
    assert!(matches!(unshare_failure(Some(1), "Operation not permitted".to_string()), NamespaceError::NotSupported));
    assert!(matches!(unshare_failure(Some(22), "Invalid argument".to_string()), NamespaceError::Unshare(ref m) if m == "Invalid argument"));
    assert!(matches!(isolation_outcome(Err(NamespaceError::NotSupported)), Ok(false)));
    assert!(matches!(isolation_outcome(Ok(())), Ok(true)));
    assert!(matches!(isolation_outcome(Err(NamespaceError::Unshare("x".to_string()))), Err(NamespaceError::Unshare(_))));
}

#[test]
fn mount_targets_skip_missing_and_nul() {
    let mut policy = confined_to("/p");
    policy.denied_paths = vec!["/a".to_string(), "/b".to_string(), "/c\0d".to_string()];
    assert_eq!(mount_targets(&policy, &[true, false, true]), vec!["/a".to_string()]);
}

#[test]
fn id_maps_and_messages() {
    assert_eq!(id_map_line(1000), "0 1000 1\n");
    assert_eq!(NamespaceError::NotSupported.message(), "Mount namespace isolation not supported");
    assert_eq!(
        NamespaceError::Mount { path: "/a".to_string(), source: "busy".to_string() }.message(),
        "Failed to mount tmpfs over /a: busy"
    );
}

#[test]
fn pid_lock_file_and_holder() {
    assert_eq!(lock_path("/run/user/1000/thane"), "/run/user/1000/thane/thane.pid");
    assert_eq!(running_pid("4242\n"), Some(4242));
    assert_eq!(running_pid(""), None);
    assert_eq!(running_pid("abc"), None);
    assert_eq!(lock_contents(31337), "31337");
    assert_eq!(running_pid(&lock_contents(31337)), Some(31337));
    assert!(matches!(already_running(" 77 "), AcquireError::AlreadyRunning(Some(77))));
}

#[test]
fn acquire_error_messages() {
    assert_eq!(AcquireError::AlreadyRunning(Some(12)).message(), "Another thane instance is already running (PID 12)");
    assert_eq!(AcquireError::AlreadyRunning(None).message(), "Another thane instance is already running");
    assert_eq!(AcquireError::Io("denied".to_string()).message(), "Lock file error: denied");
}
