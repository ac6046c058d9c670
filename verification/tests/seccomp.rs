use thane::sandbox::{EnforcementLevel, SandboxPolicy};
use thane::seccomp::{
    blocked_syscalls, build_bpf_filter, build_filter, network_syscalls, seccomp_filter_for, seccomp_supported_from,
    Arch, SeccompError, BPF_ABS, BPF_K, BPF_LD, BPF_RET, BPF_W, SECCOMP_RET_ALLOW, SECCOMP_RET_ERRNO,
    SECCOMP_RET_LOG,
};

fn disabled_policy() -> SandboxPolicy {
    SandboxPolicy {
        enabled: false,
        enforcement: EnforcementLevel::Enforcing,
        allow_network: true,
        root_dir: String::new(),
        read_only_paths: Vec::new(),
        read_write_paths: Vec::new(),
        denied_paths: Vec::new(),
        max_open_files: None,
        max_write_bytes: None,
        cpu_time_limit: None,
    }
}

fn confined_to(root: &str) -> SandboxPolicy {
    SandboxPolicy { enabled: true, root_dir: root.to_string(), ..disabled_policy() }
}

/// Runs a classic BPF program over a syscall number, as the kernel would.
fn run_filter(filter: &[thane::seccomp::SockFilter], nr: u32) -> u32 {
    let mut pc = 0usize;
    let mut acc = 0u32;
    loop {
        let ins = filter[pc];
        match ins.code {
            0x20 => {
                acc = nr;
                pc += 1;
            }
            0x15 => {
                pc += 1 + if acc == ins.k { ins.jt as usize } else { ins.jf as usize };
            }
            0x06 => return ins.k,
            other => panic!("unexpected instruction {other:#x}"),
        }
    }
}

#[test]
fn test_seccomp_supported_check() {
    // prctl(PR_GET_SECCOMP) returns 0 or 2 where seccomp exists, -1 where not.
    assert!(seccomp_supported_from(0));
    assert!(seccomp_supported_from(2));
    assert!(!seccomp_supported_from(-1));
}

#[test]
fn test_blocked_syscalls_not_empty() {
    assert!(!blocked_syscalls(Arch::X86_64).is_empty());
    assert!(!blocked_syscalls(Arch::Aarch64).is_empty());
}

#[test]
fn test_network_syscalls_not_empty() {
    assert!(!network_syscalls(Arch::X86_64).is_empty());
    assert!(!network_syscalls(Arch::Aarch64).is_empty());
}

#[test]
fn test_rseq_not_blocked() {
    assert!(!blocked_syscalls(Arch::X86_64).contains(&334));
    assert!(!blocked_syscalls(Arch::Aarch64).contains(&293));
}

#[test]
fn seccomp_test_disabled_policy_is_noop() {
    let policy = disabled_policy();
    assert!(seccomp_filter_for(&policy, Arch::X86_64).is_none());
}

#[test]
fn test_enforcing_mode_with_network_allowed_skips_seccomp() {
    let policy = confined_to("/home/user/project");
    assert_eq!(policy.enforcement, EnforcementLevel::Enforcing);
    assert!(policy.allow_network);
    assert!(seccomp_filter_for(&policy, Arch::X86_64).is_none());
}

#[test]
fn test_build_filter_strict_mode() {
    let mut policy = confined_to("/home/user/project");
    policy.enforcement = EnforcementLevel::Strict;

    let filter = build_filter(&policy, Arch::X86_64);
    assert_eq!(filter.len(), 1 + blocked_syscalls(Arch::X86_64).len() + 2);
    assert_eq!(filter[0].code, BPF_LD | BPF_W | BPF_ABS);

    let allow = &filter[filter.len() - 2];
    assert_eq!(allow.code, BPF_RET | BPF_K);
    assert_eq!(allow.k, SECCOMP_RET_ALLOW);

    let deny = &filter[filter.len() - 1];
    assert_eq!(deny.code, BPF_RET | BPF_K);
    assert_eq!(deny.k & 0xFFFF_0000, SECCOMP_RET_ERRNO);
}

#[test]
fn test_build_filter_network_blocked() {
    let mut policy = confined_to("/home/user/project");
    policy.allow_network = false;
    let filter = build_filter(&policy, Arch::X86_64);
    assert_eq!(filter.len(), 1 + network_syscalls(Arch::X86_64).len() + 2);
}

#[test]
fn test_build_filter_strict_and_no_network() {
    let mut policy = confined_to("/home/user/project");
    policy.enforcement = EnforcementLevel::Strict;
    policy.allow_network = false;

    let filter = build_filter(&policy, Arch::X86_64);
    let mut expected: Vec<u32> = Vec::new();
    expected.extend_from_slice(&blocked_syscalls(Arch::X86_64));
    expected.extend_from_slice(&network_syscalls(Arch::X86_64));
    expected.sort();
    expected.dedup();
    assert_eq!(filter.len(), 1 + expected.len() + 2);
}

#[test]
fn filter_refuses_exactly_the_blocked_calls() {
    let mut policy = confined_to("/p");
    policy.enforcement = EnforcementLevel::Strict;
    policy.allow_network = false;
    let filter = seccomp_filter_for(&policy, Arch::X86_64).unwrap();
    let blocked: Vec<u32> = blocked_syscalls(Arch::X86_64)
        .into_iter()
        .chain(network_syscalls(Arch::X86_64))
        .collect();
    for nr in 0..400u32 {
        let action = run_filter(&filter, nr);
        if blocked.contains(&nr) {
            assert_eq!(action, SECCOMP_RET_ERRNO | 1, "syscall {nr} must be refused");
        } else {
            assert_eq!(action, SECCOMP_RET_ALLOW, "syscall {nr} must be allowed");
        }
    }
}

#[test]
fn permissive_filter_logs() {
    let filter = build_bpf_filter(&[41, 42], EnforcementLevel::Permissive);
    assert_eq!(run_filter(&filter, 41), SECCOMP_RET_LOG);
    assert_eq!(run_filter(&filter, 7), SECCOMP_RET_ALLOW);
}

#[test]
fn aarch64_network_filter() {
    let mut policy = confined_to("/p");
    policy.allow_network = false;
    let filter = build_filter(&policy, Arch::Aarch64);
    assert_eq!(run_filter(&filter, 198), SECCOMP_RET_ERRNO | 1);
    assert_eq!(run_filter(&filter, 117), SECCOMP_RET_ALLOW);
}

#[test]
fn seccomp_error_message() {
    let e = SeccompError::InstallFilter("Invalid argument".to_string());
    assert_eq!(e.message(), "Failed to install seccomp filter: Invalid argument");
}
