use thane::landlock::{
    allowed_access, landlock_start, landlock_supported_from, landlock_try_outcome, linux_resource_limits,
    rlimit_failure, LandlockAccess, LandlockError, LandlockStart, ResourceLimitError,
    LANDLOCK_ACCESS_FS_READWRITE_DIR, LANDLOCK_ACCESS_FS_READWRITE_FILE, LANDLOCK_ACCESS_FS_READ_DIR,
    LANDLOCK_ACCESS_FS_READ_DIR_FULL, LANDLOCK_ACCESS_FS_READ_FILE_ONLY,
};
use thane::sandbox::{EnforcementLevel, RlimitResource, SandboxPolicy};

fn disabled_policy() -> SandboxPolicy {
    SandboxPolicy {
        enabled: false,
        enforcement: EnforcementLevel::Enforcing,
        allow_network: true,
        root_dir: String::new(),
        read_only_paths: Vec::new(),
        read_write_paths: Vec::new(),
        denied_paths: Vec::new(),
        max_open_files: None,
        max_write_bytes: None,
        cpu_time_limit: None,
    }
}

fn confined_to(root: &str) -> SandboxPolicy {
    SandboxPolicy { enabled: true, root_dir: root.to_string(), ..disabled_policy() }
}

#[test]
fn test_access_flags_consistency() {
    assert_eq!(LANDLOCK_ACCESS_FS_READ_DIR_FULL & LANDLOCK_ACCESS_FS_READWRITE_DIR, LANDLOCK_ACCESS_FS_READ_DIR_FULL);
    assert_eq!(
        LANDLOCK_ACCESS_FS_READ_FILE_ONLY & LANDLOCK_ACCESS_FS_READWRITE_FILE,
        LANDLOCK_ACCESS_FS_READ_FILE_ONLY
    );
    assert_eq!(LANDLOCK_ACCESS_FS_READ_FILE_ONLY & LANDLOCK_ACCESS_FS_READ_DIR, 0);
    assert_eq!(LANDLOCK_ACCESS_FS_READWRITE_FILE & LANDLOCK_ACCESS_FS_READ_DIR, 0);
}

#[test]
fn landlock_test_disabled_policy_is_noop() {
    let policy = disabled_policy();
    assert!(!policy.enabled);
    assert_eq!(landlock_start(&policy, true), LandlockStart::Skip);
    assert_eq!(landlock_start(&policy, false), LandlockStart::Skip);
}

#[test]
fn landlock_test_try_apply_disabled() {
    let policy = disabled_policy();
    let start = landlock_start(&policy, true);
    let result = landlock_try_outcome(start, Ok(())).unwrap();
    assert!(!result);
}

#[test]
fn test_apply_resource_limits_disabled() {
    let policy = disabled_policy();
    assert!(!policy.enabled);
    assert!(linux_resource_limits(&policy).is_empty());
}

#[test]
fn test_apply_resource_limits_no_limits() {
    let policy = confined_to("/home/user/project");
    assert!(linux_resource_limits(&policy).is_empty());
}

#[test]
fn test_apply_resource_limits_nofile() {
    let mut policy = confined_to("/home/user/project");
    policy.max_open_files = Some(4096);

    let limits = linux_resource_limits(&policy);
    assert_eq!(limits.len(), 1);
    assert_eq!(limits[0].resource, RlimitResource::NoFile);
    assert_eq!(limits[0].soft, 4096);
    assert_eq!(limits[0].hard, 4096);
}

#[test]
fn test_apply_resource_limits_fsize() {
    let mut policy = confined_to("/home/user/project");
    policy.max_write_bytes = Some(100 * 1024 * 1024);

    let limits = linux_resource_limits(&policy);
    assert_eq!(limits.len(), 1);
    assert_eq!(limits[0].resource, RlimitResource::FSize);
}

#[test]
fn test_apply_resource_limits_cpu() {
    let mut policy = confined_to("/home/user/project");
    policy.cpu_time_limit = Some(300);

    let limits = linux_resource_limits(&policy);
    assert_eq!(limits.len(), 1);
    assert_eq!(limits[0].resource, RlimitResource::Cpu);
    assert_eq!(limits[0].soft, 300);
    assert_eq!(limits[0].hard, 310);
}

#[test]
fn test_apply_resource_limits_all() {
    let mut policy = confined_to("/home/user/project");
    policy.max_open_files = Some(1024);
    policy.max_write_bytes = Some(50 * 1024 * 1024);
    policy.cpu_time_limit = Some(60);

    let limits = linux_resource_limits(&policy);
    assert_eq!(limits.len(), 3);
}

#[test]
fn cpu_hard_limit_saturates() {
    let mut policy = confined_to("/p");
    policy.cpu_time_limit = Some(u64::MAX - 3);
    let limits = linux_resource_limits(&policy);
    assert_eq!(limits[0].hard, u64::MAX);
}

#[test]
fn landlock_unsupported_and_proceeding() {
    let policy = confined_to("/p");
    assert_eq!(landlock_start(&policy, false), LandlockStart::Unsupported);
    assert_eq!(landlock_start(&policy, true), LandlockStart::Proceed);
    assert!(!landlock_try_outcome(LandlockStart::Unsupported, Ok(())).unwrap());
    assert!(landlock_try_outcome(LandlockStart::Proceed, Ok(())).unwrap());
    let err = landlock_try_outcome(LandlockStart::Proceed, Err(LandlockError::RestrictSelf("EPERM".to_string())));
    assert!(matches!(err, Err(LandlockError::RestrictSelf(_))));
}

#[test]
fn landlock_abi_support() {
    assert!(landlock_supported_from(1));
    assert!(landlock_supported_from(3));
    assert!(!landlock_supported_from(0));
    assert!(!landlock_supported_from(-1));
}

#[test]
fn access_rights_by_kind() {
    assert_eq!(allowed_access(LandlockAccess::ReadOnly, true), LANDLOCK_ACCESS_FS_READ_DIR_FULL);
    assert_eq!(allowed_access(LandlockAccess::ReadOnly, false), LANDLOCK_ACCESS_FS_READ_FILE_ONLY);
    assert_eq!(allowed_access(LandlockAccess::ReadWrite, true), LANDLOCK_ACCESS_FS_READWRITE_DIR);
    assert_eq!(allowed_access(LandlockAccess::ReadWrite, false), LANDLOCK_ACCESS_FS_READWRITE_FILE);
}

#[test]
fn landlock_error_messages() {
    assert_eq!(
        LandlockError::NotSupported.message(),
        "Landlock not supported on this kernel (requires Linux >= 5.13)"
    );
    assert_eq!(
        LandlockError::AddRule { path: "/p".to_string(), source: "bad".to_string() }.message(),
        "Failed to add Landlock rule for path /p: bad"
    );
    let e = rlimit_failure(RlimitResource::Cpu, "denied".to_string());
    assert_eq!(e.message(), "Failed to set resource limit Cpu: denied");
    assert!(matches!(e, ResourceLimitError::SetRlimit { .. }));
}
