//! The sandbox settings that the platform enforcement layers read.
use vstd::prelude::*;

verus! {

/// How strictly a sandbox policy is enforced.
#[derive(Debug, Clone, Copy, PartialEq, Eq, Structural)]
pub enum EnforcementLevel {
    /// Violations are only logged.
    Permissive,
    /// Filesystem and network restrictions are enforced.
    Enforcing,
    /// As `Enforcing`, and dangerous system calls and executables are refused too.
    Strict,
}

/// The settings of a workspace sandbox that the enforcement layers read.
///
/// Paths are absolute path strings.
#[derive(Debug, Clone)]
pub struct SandboxPolicy {
    /// Whether the sandbox is switched on at all.
    pub enabled: bool,
    /// How strictly violations are handled.
    pub enforcement: EnforcementLevel,
    /// Whether network access is allowed.
    pub allow_network: bool,
    /// The workspace root, which the sandboxed processes may read and write.
    pub root_dir: String,
    /// Further paths that may be read but not written.
    pub read_only_paths: Vec<String>,
    /// Further paths that may be read and written.
    pub read_write_paths: Vec<String>,
    /// Paths that may be neither read nor written, whatever else allows.
    pub denied_paths: Vec<String>,
    /// Limit on open file descriptors.
    pub max_open_files: Option<u64>,
    /// Limit on the size of a written file, in bytes.
    pub max_write_bytes: Option<u64>,
    /// Limit on CPU time, in seconds.
    pub cpu_time_limit: Option<u64>,
}

/// The POSIX resource limits that a sandbox sets.
#[derive(Debug, Clone, Copy, PartialEq, Eq, Structural)]
pub enum RlimitResource {
    /// RLIMIT_NOFILE: open file descriptors.
    NoFile,
    /// RLIMIT_FSIZE: size of a written file.
    FSize,
    /// RLIMIT_CPU: CPU seconds.
    Cpu,
}

/// One resource limit to set with `setrlimit`.
#[derive(Debug, Clone, Copy, PartialEq, Eq, Structural)]
pub struct ResourceLimit {
    pub resource: RlimitResource,
    pub soft: u64,
    pub hard: u64,
}

} // verus!
