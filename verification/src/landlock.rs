//! Landlock access rights for sandbox rules.
//!
//! Landlock is a Linux Security Module (available since Linux 5.13) that lets
//! an unprivileged process restrict its own filesystem access. A ruleset
//! handles every filesystem access right of ABI v1; each allowed path is then
//! granted the rights that suit its kind (directory or regular file).
use vstd::prelude::*;

use crate::sandbox::{ResourceLimit, RlimitResource, SandboxPolicy};
use crate::text::{push_str, string_from_chars};

verus! {

/// Landlock ABI version we target (v1 is the minimum, available since Linux 5.13).
pub const LANDLOCK_ABI_VERSION: u32 = 1;

// Landlock access flags for filesystem operations (ABI v1).
pub const LANDLOCK_ACCESS_FS_EXECUTE: u64 = 0x1;
pub const LANDLOCK_ACCESS_FS_WRITE_FILE: u64 = 0x2;
pub const LANDLOCK_ACCESS_FS_READ_FILE: u64 = 0x4;
pub const LANDLOCK_ACCESS_FS_READ_DIR: u64 = 0x8;
pub const LANDLOCK_ACCESS_FS_REMOVE_DIR: u64 = 0x10;
pub const LANDLOCK_ACCESS_FS_REMOVE_FILE: u64 = 0x20;
pub const LANDLOCK_ACCESS_FS_MAKE_CHAR: u64 = 0x40;
pub const LANDLOCK_ACCESS_FS_MAKE_DIR: u64 = 0x80;
pub const LANDLOCK_ACCESS_FS_MAKE_REG: u64 = 0x100;
pub const LANDLOCK_ACCESS_FS_MAKE_SOCK: u64 = 0x200;
pub const LANDLOCK_ACCESS_FS_MAKE_FIFO: u64 = 0x400;
pub const LANDLOCK_ACCESS_FS_MAKE_BLOCK: u64 = 0x800;
pub const LANDLOCK_ACCESS_FS_MAKE_SYM: u64 = 0x1000;

/// All filesystem access flags handled by Landlock ABI v1.
pub const LANDLOCK_ACCESS_FS_ALL: u64 = LANDLOCK_ACCESS_FS_EXECUTE | LANDLOCK_ACCESS_FS_WRITE_FILE
    | LANDLOCK_ACCESS_FS_READ_FILE | LANDLOCK_ACCESS_FS_READ_DIR | LANDLOCK_ACCESS_FS_REMOVE_DIR
    | LANDLOCK_ACCESS_FS_REMOVE_FILE | LANDLOCK_ACCESS_FS_MAKE_CHAR | LANDLOCK_ACCESS_FS_MAKE_DIR
    | LANDLOCK_ACCESS_FS_MAKE_REG | LANDLOCK_ACCESS_FS_MAKE_SOCK | LANDLOCK_ACCESS_FS_MAKE_FIFO
    | LANDLOCK_ACCESS_FS_MAKE_BLOCK | LANDLOCK_ACCESS_FS_MAKE_SYM;

/// Read-only access flags for directories (includes READ_DIR).
pub const LANDLOCK_ACCESS_FS_READ_DIR_FULL: u64 = LANDLOCK_ACCESS_FS_EXECUTE
    | LANDLOCK_ACCESS_FS_READ_FILE | LANDLOCK_ACCESS_FS_READ_DIR;

/// Read-only access flags for regular files (no READ_DIR — Landlock rejects it on non-dirs).
pub const LANDLOCK_ACCESS_FS_READ_FILE_ONLY: u64 = LANDLOCK_ACCESS_FS_EXECUTE
    | LANDLOCK_ACCESS_FS_READ_FILE;

/// Read-write access flags for directories (everything).
pub const LANDLOCK_ACCESS_FS_READWRITE_DIR: u64 = LANDLOCK_ACCESS_FS_ALL;

/// Read-write access flags for regular files (excludes dir-only operations).
pub const LANDLOCK_ACCESS_FS_READWRITE_FILE: u64 = LANDLOCK_ACCESS_FS_EXECUTE
    | LANDLOCK_ACCESS_FS_WRITE_FILE | LANDLOCK_ACCESS_FS_READ_FILE;

/// Landlock rule type for a path and everything beneath it.
pub const LANDLOCK_RULE_PATH_BENEATH: i32 = 1;

/// Landlock create_ruleset flag that asks for the ABI version.
pub const LANDLOCK_CREATE_RULESET_VERSION: u32 = 1;

/// The access a sandbox rule grants to a path.
#[derive(Debug, Clone, Copy, PartialEq, Eq, Structural)]
pub enum LandlockAccess {
    ReadOnly,
    ReadWrite,
}

/// The Landlock rights granted for a rule, by the kind of path it names.
pub open spec fn access_rights(access: LandlockAccess, is_dir: bool) -> u64 {
    match (access, is_dir) {
        (LandlockAccess::ReadOnly, true) => LANDLOCK_ACCESS_FS_READ_DIR_FULL,
        (LandlockAccess::ReadOnly, false) => LANDLOCK_ACCESS_FS_READ_FILE_ONLY,
        (LandlockAccess::ReadWrite, true) => LANDLOCK_ACCESS_FS_READWRITE_DIR,
        (LandlockAccess::ReadWrite, false) => LANDLOCK_ACCESS_FS_READWRITE_FILE,
    }
}

/// The Landlock rights granted for a rule, by the kind of path it names.
///
/// Landlock requires access flags compatible with the path type: applying
/// READ_DIR to a regular file (or MAKE_DIR etc.) returns EINVAL.
pub fn allowed_access(access: LandlockAccess, is_dir: bool) -> (r: u64)
    ensures
        r == access_rights(access, is_dir),
{
    match (access, is_dir) {
        (LandlockAccess::ReadOnly, true) => LANDLOCK_ACCESS_FS_READ_DIR_FULL,
        (LandlockAccess::ReadOnly, false) => LANDLOCK_ACCESS_FS_READ_FILE_ONLY,
        (LandlockAccess::ReadWrite, true) => LANDLOCK_ACCESS_FS_READWRITE_DIR,
        (LandlockAccess::ReadWrite, false) => LANDLOCK_ACCESS_FS_READWRITE_FILE,
    }
}

/// The rights granted are consistent: whatever read-only access grants,
/// read-write access grants too; every grant lies within the rights the
/// ruleset handles; and no grant for a regular file holds READ_DIR or any
/// other directory-only right.
pub proof fn lemma_access_flags_consistent(is_dir: bool)
    ensures
        access_rights(LandlockAccess::ReadOnly, is_dir) & access_rights(LandlockAccess::ReadWrite, is_dir)
            == access_rights(LandlockAccess::ReadOnly, is_dir),
        access_rights(LandlockAccess::ReadOnly, is_dir) & LANDLOCK_ACCESS_FS_ALL
            == access_rights(LandlockAccess::ReadOnly, is_dir),
        access_rights(LandlockAccess::ReadWrite, is_dir) & LANDLOCK_ACCESS_FS_ALL
            == access_rights(LandlockAccess::ReadWrite, is_dir),
        !is_dir ==> access_rights(LandlockAccess::ReadOnly, is_dir) & LANDLOCK_ACCESS_FS_READ_DIR == 0,
        !is_dir ==> access_rights(LandlockAccess::ReadWrite, is_dir) & (LANDLOCK_ACCESS_FS_READ_DIR
            | LANDLOCK_ACCESS_FS_REMOVE_DIR | LANDLOCK_ACCESS_FS_MAKE_DIR) == 0,
{
    assert(LANDLOCK_ACCESS_FS_ALL == 0x1fffu64) by (bit_vector);
    assert(LANDLOCK_ACCESS_FS_READ_DIR_FULL == 0xdu64) by (bit_vector);
    assert(LANDLOCK_ACCESS_FS_READ_FILE_ONLY == 0x5u64) by (bit_vector);
    assert(LANDLOCK_ACCESS_FS_READWRITE_FILE == 0x7u64) by (bit_vector);
    assert(0xdu64 & 0x1fffu64 == 0xdu64) by (bit_vector);
    assert(0x5u64 & 0x7u64 == 0x5u64) by (bit_vector);
    assert(0x5u64 & 0x1fffu64 == 0x5u64) by (bit_vector);
    assert(0x7u64 & 0x1fffu64 == 0x7u64) by (bit_vector);
    assert(0x1fffu64 & 0x1fffu64 == 0x1fffu64) by (bit_vector);
    assert(0x5u64 & 0x8u64 == 0u64) by (bit_vector);
    assert(0x7u64 & (0x8u64 | 0x10u64 | 0x80u64) == 0u64) by (bit_vector);
}

/// Error type for Landlock operations.
#[derive(Debug)]
pub enum LandlockError {
    /// Landlock not supported on this kernel.
    NotSupported,
    /// Failed to create Landlock ruleset.
    CreateRuleset(String),
    /// Failed to add a Landlock rule for a path.
    AddRule { path: String, source: String },
    /// Failed to restrict self with Landlock.
    RestrictSelf(String),
    /// Failed to open a path for a Landlock rule.
    OpenPath { path: String, source: String },
    /// Failed to set no_new_privs.
    NoNewPrivs(String),
}

impl LandlockError {
    /// The human-readable description of the error.
    pub fn message(&self) -> (r: String)
        ensures
            r@ == match self {
                LandlockError::NotSupported =>
                    "Landlock not supported on this kernel (requires Linux >= 5.13)"@,
                LandlockError::CreateRuleset(e) => "Failed to create Landlock ruleset: "@ + e@,
                LandlockError::AddRule { path, source } => "Failed to add Landlock rule for path "@
                    + path@ + ": "@ + source@,
                LandlockError::RestrictSelf(e) => "Failed to restrict self with Landlock: "@ + e@,
                LandlockError::OpenPath { path, source } => "Failed to open path for Landlock rule: "@
                    + path@ + ": "@ + source@,
                LandlockError::NoNewPrivs(e) => "Failed to set no_new_privs: "@ + e@,
            },
    {
        let mut r = String::new();
        match self {
            LandlockError::NotSupported => {
                push_str(&mut r, "Landlock not supported on this kernel (requires Linux >= 5.13)");
            },
            LandlockError::CreateRuleset(e) => {
                push_str(&mut r, "Failed to create Landlock ruleset: ");
                push_str(&mut r, e.as_str());
            },
            LandlockError::AddRule { path, source } => {
                push_str(&mut r, "Failed to add Landlock rule for path ");
                push_str(&mut r, path.as_str());
                push_str(&mut r, ": ");
                push_str(&mut r, source.as_str());
            },
            LandlockError::RestrictSelf(e) => {
                push_str(&mut r, "Failed to restrict self with Landlock: ");
                push_str(&mut r, e.as_str());
            },
            LandlockError::OpenPath { path, source } => {
                push_str(&mut r, "Failed to open path for Landlock rule: ");
                push_str(&mut r, path.as_str());
                push_str(&mut r, ": ");
                push_str(&mut r, source.as_str());
            },
            LandlockError::NoNewPrivs(e) => {
                push_str(&mut r, "Failed to set no_new_privs: ");
                push_str(&mut r, e.as_str());
            },
        }
        assert(Seq::<char>::empty() + "a"@ == "a"@);
        r
    }
}

/// Error type for resource limit operations.
#[derive(Debug)]
pub enum ResourceLimitError {
    /// Failed to set a resource limit.
    SetRlimit { resource: String, source: String },
}

impl ResourceLimitError {
    /// The human-readable description of the error.
    pub fn message(&self) -> (r: String)
        ensures
            r@ == match self {
                ResourceLimitError::SetRlimit { resource, source } => "Failed to set resource limit "@
                    + resource@ + ": "@ + source@,
            },
    {
        let mut r = String::new();
        match self {
            ResourceLimitError::SetRlimit { resource, source } => {
                push_str(&mut r, "Failed to set resource limit ");
                push_str(&mut r, resource.as_str());
                push_str(&mut r, ": ");
                push_str(&mut r, source.as_str());
            },
        }
        r
    }
}

/// What applying a policy with Landlock starts with.
#[derive(Debug, Clone, Copy, PartialEq, Eq, Structural)]
pub enum LandlockStart {
    /// The policy is disabled: nothing is restricted.
    Skip,
    /// The kernel lacks Landlock.
    Unsupported,
    /// Build and enforce the ruleset.
    Proceed,
}

/// How applying a policy starts, given whether the kernel supports
/// Landlock: a disabled policy restricts nothing, whatever the kernel.
pub fn landlock_start(policy: &SandboxPolicy, supported: bool) -> (r: LandlockStart)
    ensures
        !policy.enabled ==> r == LandlockStart::Skip,
        policy.enabled && !supported ==> r == LandlockStart::Unsupported,
        policy.enabled && supported ==> r == LandlockStart::Proceed,
{
    if !policy.enabled {
        LandlockStart::Skip
    } else if !supported {
        LandlockStart::Unsupported
    } else {
        LandlockStart::Proceed
    }
}

/// What trying Landlock reports: `false` where nothing was enforced (a
/// disabled policy or an unsupported kernel), `true` where the ruleset was
/// enforced, and the enforcement's error otherwise.
pub fn landlock_try_outcome(start: LandlockStart, enforced: Result<(), LandlockError>) -> (r: Result<
    bool,
    LandlockError,
>)
    ensures
        start != LandlockStart::Proceed ==> r matches Ok(false),
        start == LandlockStart::Proceed ==> match enforced {
            Ok(()) => r matches Ok(true),
            Err(e) => r matches Err(e2) && e2 == e,
        },
{
    match start {
        LandlockStart::Proceed => match enforced {
            Ok(()) => Ok(true),
            Err(e) => Err(e),
        },
        _ => Ok(false),
    }
}

/// The `Debug` name of a resource, as error messages give it.
pub open spec fn rlimit_name(r: RlimitResource) -> Seq<char> {
    match r {
        RlimitResource::NoFile => "NoFile"@,
        RlimitResource::FSize => "FSize"@,
        RlimitResource::Cpu => "Cpu"@,
    }
}

/// The `Debug` name of a resource.
pub fn rlimit_debug_name(r: RlimitResource) -> (s: &'static str)
    ensures
        s@ == rlimit_name(r),
{
    match r {
        RlimitResource::NoFile => "NoFile",
        RlimitResource::FSize => "FSize",
        RlimitResource::Cpu => "Cpu",
    }
}

/// Seconds of grace between the soft and the hard CPU limit.
pub const CPU_GRACE_SECS: u64 = 10;

/// The limits a policy sets with `setrlimit` on Linux: open files and file
/// size soft and hard alike, CPU time with a hard limit ten seconds past
/// the soft one (at most `u64::MAX`), each only where the policy sets it;
/// none for a disabled policy.
pub open spec fn linux_resource_limits_spec(policy: SandboxPolicy) -> Seq<ResourceLimit> {
    if !policy.enabled {
        Seq::empty()
    } else {
        (match policy.max_open_files {
            Some(v) => seq![ResourceLimit { resource: RlimitResource::NoFile, soft: v, hard: v }],
            None => Seq::empty(),
        }) + (match policy.max_write_bytes {
            Some(v) => seq![ResourceLimit { resource: RlimitResource::FSize, soft: v, hard: v }],
            None => Seq::empty(),
        }) + (match policy.cpu_time_limit {
            Some(v) => seq![ResourceLimit {
                resource: RlimitResource::Cpu,
                soft: v,
                hard: if v + CPU_GRACE_SECS <= u64::MAX { (v + CPU_GRACE_SECS) as u64 } else { u64::MAX },
            }],
            None => Seq::empty(),
        })
    }
}

/// On Linux a disabled policy sets no limit, and an enabled one sets exactly
/// the limits it configures, each once: open files (RLIMIT_NOFILE) and
/// written file size (RLIMIT_FSIZE) with equal soft and hard limits, and CPU
/// seconds (RLIMIT_CPU) with the hard limit ten seconds past the soft one
/// (capped at `u64::MAX`).
pub proof fn lemma_linux_limits_are_the_configured_ones(policy: SandboxPolicy)
    ensures
        !policy.enabled ==> linux_resource_limits_spec(policy).len() == 0,
        policy.enabled ==> {
            let r = linux_resource_limits_spec(policy);
            &&& policy.max_open_files matches Some(v) ==> r.contains(
                ResourceLimit { resource: RlimitResource::NoFile, soft: v, hard: v },
            )
            &&& policy.max_write_bytes matches Some(v) ==> r.contains(
                ResourceLimit { resource: RlimitResource::FSize, soft: v, hard: v },
            )
            &&& policy.cpu_time_limit matches Some(v) ==> (exists|i: int|
                0 <= i < r.len() && (#[trigger] r[i]).resource == RlimitResource::Cpu && r[i].soft == v && (
                v + 10 <= u64::MAX ==> r[i].hard == v + 10) && (v + 10 > u64::MAX ==> r[i].hard == u64::MAX))
            &&& forall|i: int|
                0 <= i < r.len() ==> match (#[trigger] r[i]).resource {
                    RlimitResource::NoFile => policy.max_open_files == Some(r[i].soft) && r[i].hard == r[i].soft,
                    RlimitResource::FSize => policy.max_write_bytes == Some(r[i].soft) && r[i].hard == r[i].soft,
                    RlimitResource::Cpu => policy.cpu_time_limit == Some(r[i].soft) && r[i].hard >= r[i].soft,
                }
            &&& forall|i: int, j: int|
                0 <= i < j < r.len() ==> (#[trigger] r[i]).resource != (#[trigger] r[j]).resource
        },
{
    if policy.enabled {
        let a = match policy.max_open_files {
            Some(v) => seq![ResourceLimit { resource: RlimitResource::NoFile, soft: v, hard: v }],
            None => Seq::<ResourceLimit>::empty(),
        };
        let b = match policy.max_write_bytes {
            Some(v) => seq![ResourceLimit { resource: RlimitResource::FSize, soft: v, hard: v }],
            None => Seq::<ResourceLimit>::empty(),
        };
        let c = match policy.cpu_time_limit {
            Some(v) => seq![ResourceLimit {
                resource: RlimitResource::Cpu,
                soft: v,
                hard: if v + CPU_GRACE_SECS <= u64::MAX { (v + CPU_GRACE_SECS) as u64 } else { u64::MAX },
            }],
            None => Seq::<ResourceLimit>::empty(),
        };
        let r = linux_resource_limits_spec(policy);
        assert(r == a + b + c);
        if let Some(v) = policy.max_open_files {
            assert(r[0] == a[0]);
        }
        if let Some(v) = policy.max_write_bytes {
            assert(r[a.len() as int] == b[0]);
        }
        if let Some(v) = policy.cpu_time_limit {
            assert(r[(a.len() + b.len()) as int] == c[0]);
        }
        assert forall|i: int| 0 <= i < r.len() implies #[trigger] r[i] == (if i < a.len() {
            a[i]
        } else if i < a.len() + b.len() {
            b[i - a.len()]
        } else {
            c[i - a.len() - b.len()]
        }) by {}
    }
}

/// The resource limits that applying a policy sets on Linux, in order.
pub fn linux_resource_limits(policy: &SandboxPolicy) -> (r: Vec<ResourceLimit>)
    ensures
        r@ == linux_resource_limits_spec(*policy),
{
    let mut r: Vec<ResourceLimit> = Vec::new();
    if !policy.enabled {
        assert(r@ =~= linux_resource_limits_spec(*policy));
        return r;
    }
    if let Some(v) = policy.max_open_files {
        r.push(ResourceLimit { resource: RlimitResource::NoFile, soft: v, hard: v });
    }
    if let Some(v) = policy.max_write_bytes {
        r.push(ResourceLimit { resource: RlimitResource::FSize, soft: v, hard: v });
    }
    if let Some(v) = policy.cpu_time_limit {
        r.push(ResourceLimit { resource: RlimitResource::Cpu, soft: v, hard: v.saturating_add(CPU_GRACE_SECS) });
    }
    assert(r@ =~= linux_resource_limits_spec(*policy));
    r
}

/// The error of a refused limit.
pub fn rlimit_failure(resource: RlimitResource, description: String) -> (r: ResourceLimitError)
    ensures
        r matches ResourceLimitError::SetRlimit { resource: name, source } && name@ == rlimit_name(resource)
            && source == description,
{
    ResourceLimitError::SetRlimit { resource: rlimit_debug_name(resource).to_owned(), source: description }
}

/// Whether the kernel supports Landlock, from the ABI version that
/// `landlock_create_ruleset` reported when asked for it (negative on
/// failure).
pub fn landlock_supported_from(abi: i64) -> (r: bool)
    ensures
        r == (abi >= LANDLOCK_ABI_VERSION),
{
    abi >= LANDLOCK_ABI_VERSION as i64
}

} // verus!
