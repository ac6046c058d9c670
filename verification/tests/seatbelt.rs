use thane::sandbox::{EnforcementLevel, RlimitResource, SandboxPolicy};
use thane::seatbelt::{
    apply_sandbox, escape_sbpl_path, generate_sandbox_command, try_apply_mount_namespace, try_apply_sandbox, generate_seatbelt_profile, helper_exec_args, helper_limits,
    helper_profile, is_sandbox_supported, is_seccomp_supported, macos_resource_limits, SandboxError,
};

fn disabled_policy() -> SandboxPolicy {
    SandboxPolicy {
        enabled: false,
        enforcement: EnforcementLevel::Enforcing,
        allow_network: true,
        root_dir: String::new(),
        read_only_paths: Vec::new(),
        read_write_paths: Vec::new(),
        denied_paths: Vec::new(),
        max_open_files: None,
        max_write_bytes: None,
        cpu_time_limit: None,
    }
}

/// A policy confined to `root`, denying the credential directories of the
/// test user's home.
fn confined_to(root: &str) -> SandboxPolicy {
    SandboxPolicy {
        enabled: true,
        root_dir: root.to_string(),
        denied_paths: vec!["/Users/test/.ssh".to_string(), "/Users/test/.aws".to_string()],
        ..disabled_policy()
    }
}

fn profile_of(policy: &SandboxPolicy) -> String {
    let ro = vec![false; policy.read_only_paths.len()];
    let denied = vec![true; policy.denied_paths.len()];
    generate_seatbelt_profile(policy, &ro, &denied)
}

/// The environment that the policy itself asks for.
fn policy_vars(policy: &SandboxPolicy) -> Vec<(String, String)> {
    vec![
        ("THANE_SANDBOX".to_string(), "1".to_string()),
        ("THANE_SANDBOX_ROOT".to_string(), policy.root_dir.clone()),
    ]
}

fn command_of(policy: &SandboxPolicy, shell: &str) -> Option<(String, Vec<String>, Vec<String>)> {
    let ro = vec![false; policy.read_only_paths.len()];
    let denied = vec![true; policy.denied_paths.len()];
    generate_sandbox_command(
        policy,
        shell,
        &policy_vars(policy),
        Some("/Applications/thane.app/Contents/MacOS/thane-sandbox-exec".to_string()),
        true,
        &ro,
        &denied,
    )
}

#[test]
fn test_is_sandbox_supported() {
    assert!(is_sandbox_supported(), "Seatbelt is always available on macOS");
    assert!(!is_seccomp_supported());
}

#[test]
fn test_escape_sbpl_path() {
    assert_eq!(escape_sbpl_path("/normal/path"), "/normal/path");
    assert_eq!(escape_sbpl_path("/path with \"quotes\""), "/path with \\\"quotes\\\"");
    assert_eq!(escape_sbpl_path("/path\\backslash"), "/path\\\\backslash");
}

#[test]
fn test_generate_seatbelt_profile_deny_default() {
    let policy = confined_to("/Users/test/project");
    let profile = profile_of(&policy);

    assert!(profile.contains("(version 1)"));
    assert!(profile.contains("(deny file*)"));
    assert!(profile.contains("(allow process*)"));
    assert!(profile.contains("(allow mach*)"));
    assert!(profile.contains("(allow file* (subpath \"/Users/test/project\"))"));
    assert!(profile.contains("(allow file-read* (subpath \"/usr\"))"));
    assert!(profile.contains("(allow file-read* (subpath \"/bin\"))"));
    assert!(profile.contains(".ssh"));
}

#[test]
fn test_denied_paths_come_last() {
    let mut policy = confined_to("/Users/test/project");
    policy.denied_paths = vec!["/Users/test/.ssh".to_string()];
    let profile = profile_of(&policy);

    let allow_pos = profile.find("(allow file* (subpath \"/Users/test/project\"))").unwrap();
    let deny_pos = profile.find("(deny file-read* file-write* (subpath \"/Users/test/.ssh\"))").unwrap();
    assert!(deny_pos > allow_pos, "Denied paths must come after allows (last-match semantics)");
}

#[test]
fn test_generate_seatbelt_profile_network_denied() {
    let mut policy = confined_to("/Users/test/project");
    policy.allow_network = false;
    let profile = profile_of(&policy);
    assert!(profile.contains("(deny network*)"));
}

#[test]
fn test_generate_seatbelt_profile_strict_restricts_exec() {
    let mut policy = confined_to("/Users/test/project");
    policy.enforcement = EnforcementLevel::Strict;
    let profile = profile_of(&policy);
    assert!(profile.contains("(deny process-exec)"));
    assert!(profile.contains("(allow process-exec (subpath \"/usr/bin\"))"));
    assert!(profile.contains("(allow process-exec (subpath \"/bin\"))"));
}

#[test]
fn test_generate_sandbox_command_disabled() {
    let policy = disabled_policy();
    let result = command_of(&policy, "/bin/zsh");
    assert!(result.is_none());
}

#[test]
fn test_generate_sandbox_command_permissive() {
    let mut policy = confined_to("/Users/test/project");
    policy.enforcement = EnforcementLevel::Permissive;
    let result = command_of(&policy, "/bin/zsh");
    assert!(result.is_some(), "Permissive enforcement should still apply Seatbelt profile in audit-only mode");
    let (_, _, env) = result.unwrap();
    assert!(env.iter().any(|e| e == "THANE_SANDBOX_PERMISSIVE=1"), "Permissive mode must set THANE_SANDBOX_PERMISSIVE=1");
}

#[test]
fn test_generate_sandbox_command_includes_env() {
    let mut policy = confined_to("/Users/test/project");
    policy.enforcement = EnforcementLevel::Enforcing;
    if let Some((_, _, env)) = command_of(&policy, "/bin/zsh") {
        assert!(env.iter().any(|e| e == "THANE_SANDBOX=1"));
        assert!(env.iter().any(|e| e.starts_with("THANE_SANDBOX_ROOT=")));
    }
}

#[test]
fn test_generate_sandbox_command_includes_resource_limits() {
    let mut policy = confined_to("/Users/test/project");
    policy.enforcement = EnforcementLevel::Enforcing;
    policy.max_open_files = Some(4096);
    policy.max_write_bytes = Some(1_073_741_824);
    policy.cpu_time_limit = Some(300);
    if let Some((exec, _, env)) = command_of(&policy, "/bin/zsh") {
        if exec.contains("thane-sandbox-exec") {
            assert!(env.iter().any(|e| e == "THANE_SANDBOX_MAX_FILES=4096"));
            assert!(env.iter().any(|e| e == "THANE_SANDBOX_MAX_FSIZE=1073741824"));
            assert!(env.iter().any(|e| e == "THANE_SANDBOX_MAX_CPU=300"));
        }
        assert!(env.iter().any(|e| e == "THANE_SANDBOX=1"));
    }
}

#[test]
fn test_resource_limits_still_work() {
    let mut policy = confined_to("/tmp/test");
    policy.max_open_files = Some(4096);
    let limits = macos_resource_limits(&policy);
    assert_eq!(limits.len(), 1);
    assert_eq!(limits[0].resource, RlimitResource::NoFile);
    assert_eq!((limits[0].soft, limits[0].hard), (4096, 4096));
}

#[test]
fn test_tmpdir_paths_allowed() {
    let policy = confined_to("/Users/test/project");
    let profile = profile_of(&policy);
    assert!(profile.contains("(allow file* (subpath \"/var/folders\"))"));
    assert!(profile.contains("(allow file* (subpath \"/private/var/folders\"))"));
    assert!(profile.contains("(allow file* (subpath \"/private/tmp\"))"));
}

#[test]
fn sandbox_exec_fallback_and_missing_launcher() {
    let policy = confined_to("/Users/test/project");
    let ro = vec![false; policy.read_only_paths.len()];
    let denied = vec![true; policy.denied_paths.len()];
    let vars = policy_vars(&policy);
    let (exe, args, _) = generate_sandbox_command(&policy, "/bin/zsh", &vars, None, true, &ro, &denied).unwrap();
    assert_eq!(exe, "/usr/bin/sandbox-exec");
    assert_eq!(args[0], "-p");
    assert!(generate_sandbox_command(&policy, "/bin/zsh", &vars, None, false, &ro, &denied).is_none());
}

#[test]
fn sandbox_error_message() {
    let e = SandboxError::SandboxInit("denied".to_string());
    assert_eq!(e.message(), "macOS sandbox error: denied");
}

#[test]
fn helper_checks_arguments_and_profile() {
    let no_cmd = vec!["thane-sandbox-exec".to_string()];
    assert!(helper_profile(&no_cmd, Some("(version 1)".to_string())).unwrap_err().contains("no command specified"));
    let args = vec!["thane-sandbox-exec".to_string(), "/bin/zsh".to_string()];
    assert_eq!(
        helper_profile(&args, None).unwrap_err(),
        "thane-sandbox-exec: THANE_SANDBOX_PROFILE not set or empty"
    );
    assert_eq!(
        helper_profile(&args, Some(String::new())).unwrap_err(),
        "thane-sandbox-exec: THANE_SANDBOX_PROFILE not set or empty"
    );
    assert_eq!(
        helper_profile(&args, Some("a\0b".to_string())).unwrap_err(),
        "thane-sandbox-exec: profile contains null byte"
    );
    assert_eq!(helper_profile(&args, Some("(version 1)".to_string())).unwrap(), "(version 1)");
}

#[test]
fn helper_reads_limits() {
    let limits = helper_limits(Some("4096".to_string()), Some("oops".to_string()), Some("300".to_string()));
    assert_eq!(limits.len(), 2);
    assert_eq!(limits[0].resource, RlimitResource::NoFile);
    assert_eq!(limits[1].resource, RlimitResource::Cpu);
    assert_eq!((limits[1].soft, limits[1].hard), (300, 310));
}

#[test]
fn helper_exec_arguments() {
    let args = vec!["helper".to_string(), "/bin/zsh".to_string(), "-l".to_string()];
    assert_eq!(helper_exec_args(&args).unwrap(), vec!["/bin/zsh".to_string(), "-l".to_string()]);
    let bad_cmd = vec!["helper".to_string(), "/bin/z\0sh".to_string()];
    assert_eq!(helper_exec_args(&bad_cmd).unwrap_err(), "thane-sandbox-exec: command contains null byte");
    let bad_arg = vec!["helper".to_string(), "/bin/zsh".to_string(), "-\0l".to_string()];
    assert_eq!(helper_exec_args(&bad_arg).unwrap_err(), "thane-sandbox-exec: argument contains null byte");
}

#[test]
fn in_process_sandboxing_is_a_no_op() {
    let policy = confined_to("/Users/test/project");
    assert!(apply_sandbox(&policy).is_ok());
    assert!(matches!(try_apply_sandbox(&policy), Ok(false)));
    assert!(matches!(try_apply_mount_namespace(&policy), Ok(false)));
}
