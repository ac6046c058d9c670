//! macOS sandbox support via Apple's Seatbelt kernel framework.
//!
//! The sandbox is described by an SBPL (Seatbelt Profile Language) profile
//! that denies file operations by default and then allows the working
//! directory, system paths and toolchains. Denied paths (secrets,
//! credentials) come last: SBPL uses last-match semantics, so they override
//! any broader allow. A helper binary (`thane-sandbox-exec`) applies the
//! profile and the resource limits, then execs the target shell.
use vstd::prelude::*;

use crate::sandbox::{EnforcementLevel, ResourceLimit, RlimitResource, SandboxPolicy};
use crate::paths::{file_name_of, file_name_or_empty, paths_equal, std_paths_equal};
use crate::text::{chars_of, push_char, push_decimal, push_str, decimal};

verus! {

/// Error raised by the macOS sandbox layer.
#[derive(Debug)]
pub enum SandboxError {
    /// The Seatbelt framework refused the profile.
    SandboxInit(String),
}

impl SandboxError {
    /// The human-readable description of the error.
    pub fn message(&self) -> (r: String)
        ensures
            r@ == match self {
                SandboxError::SandboxInit(e) => "macOS sandbox error: "@ + e@,
            },
    {
        let mut r = String::new();
        match self {
            SandboxError::SandboxInit(e) => {
                push_str(&mut r, "macOS sandbox error: ");
                push_str(&mut r, e.as_str());
            },
        }
        r
    }
}

/// Check if sandbox support is available on this macOS system.
///
/// Seatbelt is a kernel framework, always available on macOS 10.5+; the
/// helper binary is bundled with the app or built alongside it.
pub fn is_sandbox_supported() -> (r: bool)
    ensures
        r,
{
    true
}

/// seccomp is not available on macOS.
pub fn is_seccomp_supported() -> (r: bool)
    ensures
        !r,
{
    false
}

/// Sandboxing is applied at process spawn time through
/// `generate_sandbox_command`, not in-process: applying a policy does nothing.
pub fn apply_sandbox(_policy: &SandboxPolicy) -> (r: Result<(), SandboxError>)
    ensures
        r is Ok,
{
    Ok(())
}

/// Sandboxing is applied at process spawn time: nothing is applied in-process.
pub fn try_apply_sandbox(_policy: &SandboxPolicy) -> (r: Result<bool, SandboxError>)
    ensures
        r matches Ok(applied) && !applied,
{
    Ok(false)
}

/// Mount namespace isolation is not available on macOS.
pub fn try_apply_mount_namespace(_policy: &SandboxPolicy) -> (r: Result<bool, SandboxError>)
    ensures
        r matches Ok(applied) && !applied,
{
    Ok(false)
}

/// seccomp is not available on macOS: applying it does nothing.
pub fn apply_seccomp(_policy: &SandboxPolicy) -> (r: Result<(), SandboxError>)
    ensures
        r is Ok,
{
    Ok(())
}

/// The limits an enabled policy sets on macOS, soft and hard alike: open
/// files, then file size, then CPU time, each only where the policy sets it.
pub open spec fn macos_resource_limits_spec(policy: SandboxPolicy) -> Seq<ResourceLimit> {
    if !policy.enabled {
        Seq::empty()
    } else {
        (match policy.max_open_files {
            Some(v) => seq![ResourceLimit { resource: RlimitResource::NoFile, soft: v, hard: v }],
            None => Seq::empty(),
        }) + (match policy.max_write_bytes {
            Some(v) => seq![ResourceLimit { resource: RlimitResource::FSize, soft: v, hard: v }],
            None => Seq::empty(),
        }) + (match policy.cpu_time_limit {
            Some(v) => seq![ResourceLimit { resource: RlimitResource::Cpu, soft: v, hard: v }],
            None => Seq::empty(),
        })
    }
}

/// The resource limits (RLIMIT_NOFILE, RLIMIT_FSIZE, RLIMIT_CPU) that applying
/// a policy sets on macOS, in the order in which they are set.
pub fn macos_resource_limits(policy: &SandboxPolicy) -> (r: Vec<ResourceLimit>)
    ensures
        r@ == macos_resource_limits_spec(*policy),
{
    let mut r: Vec<ResourceLimit> = Vec::new();
    if !policy.enabled {
        assert(r@ =~= macos_resource_limits_spec(*policy));
        return r;
    }
    if let Some(v) = policy.max_open_files {
        r.push(ResourceLimit { resource: RlimitResource::NoFile, soft: v, hard: v });
    }
    if let Some(v) = policy.max_write_bytes {
        r.push(ResourceLimit { resource: RlimitResource::FSize, soft: v, hard: v });
    }
    if let Some(v) = policy.cpu_time_limit {
        r.push(ResourceLimit { resource: RlimitResource::Cpu, soft: v, hard: v });
    }
    assert(r@ =~= macos_resource_limits_spec(*policy));
    r
}

/// On macOS a disabled policy sets no limit, and an enabled one sets exactly
/// the limits it configures, each once, soft and hard alike: open files
/// (RLIMIT_NOFILE) where `max_open_files` is set, written file size
/// (RLIMIT_FSIZE) where `max_write_bytes` is set, CPU seconds (RLIMIT_CPU)
/// where `cpu_time_limit` is set.
pub proof fn lemma_macos_limits_are_the_configured_ones(policy: SandboxPolicy)
    ensures
        !policy.enabled ==> macos_resource_limits_spec(policy).len() == 0,
        policy.enabled ==> {
            let r = macos_resource_limits_spec(policy);
            &&& policy.max_open_files matches Some(v) ==> r.contains(
                ResourceLimit { resource: RlimitResource::NoFile, soft: v, hard: v },
            )
            &&& policy.max_write_bytes matches Some(v) ==> r.contains(
                ResourceLimit { resource: RlimitResource::FSize, soft: v, hard: v },
            )
            &&& policy.cpu_time_limit matches Some(v) ==> r.contains(
                ResourceLimit { resource: RlimitResource::Cpu, soft: v, hard: v },
            )
            &&& forall|i: int|
                0 <= i < r.len() ==> (#[trigger] r[i]).soft == r[i].hard && match r[i].resource {
                    RlimitResource::NoFile => policy.max_open_files == Some(r[i].soft),
                    RlimitResource::FSize => policy.max_write_bytes == Some(r[i].soft),
                    RlimitResource::Cpu => policy.cpu_time_limit == Some(r[i].soft),
                }
            &&& forall|i: int, j: int|
                0 <= i < j < r.len() ==> (#[trigger] r[i]).resource != (#[trigger] r[j]).resource
        },
{
    if policy.enabled {
        let a = match policy.max_open_files {
            Some(v) => seq![ResourceLimit { resource: RlimitResource::NoFile, soft: v, hard: v }],
            None => Seq::<ResourceLimit>::empty(),
        };
        let b = match policy.max_write_bytes {
            Some(v) => seq![ResourceLimit { resource: RlimitResource::FSize, soft: v, hard: v }],
            None => Seq::<ResourceLimit>::empty(),
        };
        let c = match policy.cpu_time_limit {
            Some(v) => seq![ResourceLimit { resource: RlimitResource::Cpu, soft: v, hard: v }],
            None => Seq::<ResourceLimit>::empty(),
        };
        let r = macos_resource_limits_spec(policy);
        assert(r == a + b + c);
        if let Some(v) = policy.max_open_files {
            assert(r[0] == ResourceLimit { resource: RlimitResource::NoFile, soft: v, hard: v });
        }
        if let Some(v) = policy.max_write_bytes {
            assert(r[a.len() as int] == ResourceLimit { resource: RlimitResource::FSize, soft: v, hard: v });
        }
        if let Some(v) = policy.cpu_time_limit {
            assert(r[(a.len() + b.len()) as int] == ResourceLimit { resource: RlimitResource::Cpu, soft: v, hard: v });
        }
        assert forall|i: int| 0 <= i < r.len() implies #[trigger] r[i] == (if i < a.len() {
            a[i]
        } else if i < a.len() + b.len() {
            b[i - a.len()]
        } else {
            c[i - a.len() - b.len()]
        }) by {}
    }
}

// ---------------------------------------------------------------------------
// Path escaping
// ---------------------------------------------------------------------------

/// The text that one path character becomes inside an SBPL string:
/// parentheses and semicolons are dropped, backslashes and double quotes are
/// escaped with a backslash.
pub open spec fn sbpl_escape_char(c: char) -> Seq<char> {
    if c == '(' || c == ')' || c == ';' {
        Seq::empty()
    } else if c == '\\' {
        seq!['\\', '\\']
    } else if c == '"' {
        seq!['\\', '"']
    } else {
        seq![c]
    }
}

/// A path escaped for use inside an SBPL double-quoted string.
pub open spec fn sbpl_escape(s: Seq<char>) -> Seq<char>
    decreases s.len(),
{
    if s.len() == 0 {
        Seq::empty()
    } else {
        sbpl_escape(s.drop_last()) + sbpl_escape_char(s.last())
    }
}

/// Escaping keeps no SBPL operator: the result holds no parenthesis or
/// semicolon, and every double quote in it is preceded by a backslash.
pub proof fn lemma_sbpl_escape_safe(s: Seq<char>)
    ensures
        forall|i: int| 0 <= i < sbpl_escape(s).len() ==> #[trigger] sbpl_escape(s)[i] != '('
            && sbpl_escape(s)[i] != ')' && sbpl_escape(s)[i] != ';',
        forall|i: int| 0 <= i < sbpl_escape(s).len() && #[trigger] sbpl_escape(s)[i] == '"' ==> i > 0
            && sbpl_escape(s)[i - 1] == '\\',
    decreases s.len(),
{
    if s.len() > 0 {
        let p = s.drop_last();
        lemma_sbpl_escape_safe(p);
        let e = sbpl_escape(s);
        let ep = sbpl_escape(p);
        let c = sbpl_escape_char(s.last());
        assert(e == ep + c);
        assert forall|i: int| 0 <= i < e.len() implies #[trigger] e[i] != '(' && e[i] != ')' && e[i]
            != ';' by {
            if i < ep.len() {
                assert(e[i] == ep[i]);
            } else {
                assert(e[i] == c[i - ep.len()]);
            }
        }
        assert forall|i: int| 0 <= i < e.len() && #[trigger] e[i] == '"' implies i > 0 && e[i - 1]
            == '\\' by {
            if i < ep.len() {
                assert(e[i] == ep[i]);
                assert(e[i - 1] == ep[i - 1]);
            } else {
                assert(e[i] == c[i - ep.len()]);
                assert(i - ep.len() == 1);
                assert(e[i - 1] == c[0]);
            }
        }
    }
}

/// Appends the SBPL escape of `v` to `r`.
fn push_escaped(r: &mut String, v: &[char])
    ensures
        final(r)@ == old(r)@ + sbpl_escape(v@),
{
    let mut i: usize = 0;
    while i < v.len()
        invariant
            0 <= i <= v@.len(),
            r@ == old(r)@ + sbpl_escape(v@.take(i as int)),
        decreases v.len() - i,
    {
        let c = v[i];
        let ghost before = r@;
        if c == '(' || c == ')' || c == ';' {
        } else if c == '\\' {
            push_char(r, '\\');
            push_char(r, '\\');
        } else if c == '"' {
            push_char(r, '\\');
            push_char(r, '"');
        } else {
            push_char(r, c);
        }
        assert(r@ =~= before + sbpl_escape_char(c));
        assert(v@.take(i + 1).drop_last() =~= v@.take(i as int));
        i = i + 1;
    }
    assert(v@.take(v@.len() as int) =~= v@);
}

/// Escape a path string for use inside an SBPL double-quoted string.
///
/// SBPL syntax characters that could inject rules (parentheses and
/// semicolons) are removed; backslashes and double quotes are escaped.
pub fn escape_sbpl_path(path: &str) -> (r: String)
    ensures
        r@ == sbpl_escape(path@),
{
    let v = chars_of(path);
    let mut r = String::new();
    push_escaped(&mut r, v.as_slice());
    assert(r@ =~= sbpl_escape(path@));
    r
}

// ---------------------------------------------------------------------------
// Profile generation
// ---------------------------------------------------------------------------

/// One SBPL rule line: `(<action> (<filter> "<escaped path>"))`.
pub open spec fn rule(action: Seq<char>, filter: Seq<char>, path: Seq<char>) -> Seq<char> {
    "("@ + action + " ("@ + filter + " \""@ + sbpl_escape(path) + "\"))\n"@
}

/// Whether a path name looks like a file: it holds a dot but does not start
/// with one (so `config.toml` does, `.ssh` does not).
pub open spec fn looks_like_file(name: Seq<char>) -> bool {
    name.contains('.') && !(name.len() > 0 && name[0] == '.')
}

/// The SBPL filter for a read-only policy path: individual files use
/// `literal`, directories use `subpath`.
pub open spec fn read_only_filter(path: Seq<char>, is_file: bool) -> Seq<char> {
    if is_file || looks_like_file(file_name_or_empty(path)) {
        "literal"@
    } else {
        "subpath"@
    }
}

/// The SBPL filter for a denied path: directories, and names that do not
/// look like files, are denied as a whole `subpath`.
pub open spec fn denied_filter(path: Seq<char>, is_dir: bool) -> Seq<char> {
    if is_dir || !looks_like_file(file_name_or_empty(path)) {
        "subpath"@
    } else {
        "literal"@
    }
}

/// The rules for the policy's read-only paths.
pub open spec fn read_only_rules(paths: Seq<Seq<char>>, is_file: Seq<bool>) -> Seq<char>
    decreases paths.len(),
{
    if paths.len() == 0 {
        Seq::empty()
    } else {
        read_only_rules(paths.drop_last(), is_file) + rule(
            "allow file-read*"@,
            read_only_filter(paths.last(), is_file[paths.len() - 1]),
            paths.last(),
        )
    }
}

/// The rules for the policy's further read-write paths (the root is not repeated).
pub open spec fn read_write_rules(paths: Seq<Seq<char>>, root: Seq<char>) -> Seq<char>
    decreases paths.len(),
{
    if paths.len() == 0 {
        Seq::empty()
    } else {
        read_write_rules(paths.drop_last(), root) + if std_paths_equal(paths.last(), root) {
            Seq::empty()
        } else {
            rule("allow file*"@, "subpath"@, paths.last())
        }
    }
}

/// The rules for the policy's denied paths.
pub open spec fn denied_rules(paths: Seq<Seq<char>>, is_dir: Seq<bool>) -> Seq<char>
    decreases paths.len(),
{
    if paths.len() == 0 {
        Seq::empty()
    } else {
        denied_rules(paths.drop_last(), is_dir) + rule(
            "deny file-read* file-write*"@,
            denied_filter(paths.last(), is_dir[paths.len() - 1]),
            paths.last(),
        )
    }
}

/// The views of a list of path strings.
pub open spec fn path_views(paths: Seq<String>) -> Seq<Seq<char>> {
    Seq::new(paths.len(), |i: int| paths[i]@)
}

/// The fixed opening of every profile: system operations allowed, file
/// operations denied by default.
#[verifier::opaque]
pub open spec fn profile_preamble() -> Seq<char> {
    "(version 1)\n\n"@ + ";; Allow system operations (required for macOS process lifecycle)\n"@
        + "(allow process*)\n"@ + "(allow sysctl*)\n"@ + "(allow mach*)\n"@ + "(allow ipc*)\n"@
        + "(allow signal)\n"@ + "(allow system*)\n\n"@ + ";; Deny all file access by default\n"@
        + "(deny file*)\n\n"@
}

/// The read-only system paths: shell, libraries, frameworks, Homebrew.
#[verifier::opaque]
pub open spec fn system_rules() -> Seq<char> {
    ";; System paths (read-only)\n"@ + rule("allow file-read*"@, "subpath"@, "/"@) + rule(
        "allow file-read*"@,
        "subpath"@,
        "/System"@,
    ) + rule("allow file-read*"@, "subpath"@, "/Library"@) + rule(
        "allow file-read*"@,
        "subpath"@,
        "/usr"@,
    ) + rule("allow file-read*"@, "subpath"@, "/bin"@) + rule(
        "allow file-read*"@,
        "subpath"@,
        "/sbin"@,
    ) + rule("allow file-read*"@, "subpath"@, "/etc"@) + rule(
        "allow file-read*"@,
        "subpath"@,
        "/opt"@,
    ) + rule("allow file-read*"@, "subpath"@, "/Applications"@) + rule(
        "allow file-read*"@,
        "subpath"@,
        "/private/etc"@,
    ) + rule("allow file-read*"@, "subpath"@, "/private/var"@)
        + "(allow file-read* (literal \"/\"))\n\n"@
}

/// The read-write device and temporary paths: TTY, builds, temp files.
#[verifier::opaque]
pub open spec fn device_rules() -> Seq<char> {
    ";; Device and temp paths (read-write)\n"@ + rule("allow file*"@, "subpath"@, "/dev"@) + rule(
        "allow file*"@,
        "subpath"@,
        "/tmp"@,
    ) + rule("allow file*"@, "subpath"@, "/private/tmp"@) + rule(
        "allow file*"@,
        "subpath"@,
        "/var/folders"@,
    ) + rule("allow file*"@, "subpath"@, "/private/var/folders"@) + "\n"@
}

/// The exec allowlist of strict mode.
#[verifier::opaque]
pub open spec fn strict_rules() -> Seq<char> {
    ";; Strict: deny process-exec by default, allowlist system paths\n"@ + "(deny process-exec)\n"@
        + rule("allow process-exec"@, "subpath"@, "/usr/bin"@) + rule(
        "allow process-exec"@,
        "subpath"@,
        "/usr/sbin"@,
    ) + rule("allow process-exec"@, "subpath"@, "/bin"@) + rule(
        "allow process-exec"@,
        "subpath"@,
        "/sbin"@,
    ) + rule("allow process-exec"@, "subpath"@, "/usr/libexec"@) + rule(
        "allow process-exec"@,
        "subpath"@,
        "/System"@,
    ) + "\n"@
}

/// The section for the policy's read-only paths.
#[verifier::opaque]
pub open spec fn read_only_section(paths: Seq<Seq<char>>, is_file: Seq<bool>) -> Seq<char> {
    if paths.len() == 0 {
        Seq::empty()
    } else {
        ";; Policy read-only paths (dotfiles, toolchains)\n"@ + read_only_rules(paths, is_file) + "\n"@
    }
}

/// The section for the working directory and the further read-write paths.
#[verifier::opaque]
pub open spec fn read_write_section(root: Seq<char>, paths: Seq<Seq<char>>) -> Seq<char> {
    ";; Working directory (read-write)\n"@ + rule("allow file*"@, "subpath"@, root) + read_write_rules(
        paths,
        root,
    ) + "\n"@
}

/// The section for the denied paths.
#[verifier::opaque]
pub open spec fn denied_section(paths: Seq<Seq<char>>, is_dir: Seq<bool>) -> Seq<char> {
    if paths.len() == 0 {
        Seq::empty()
    } else {
        ";; Denied paths (secrets, credentials) — overrides allows above\n"@ + denied_rules(paths, is_dir)
            + "\n"@
    }
}

/// The section that only strict mode has.
pub open spec fn strict_section(enforcement: EnforcementLevel) -> Seq<char> {
    if enforcement == EnforcementLevel::Strict {
        strict_rules()
    } else {
        Seq::empty()
    }
}

/// The section that only a policy without network access has.
#[verifier::opaque]
pub open spec fn network_section(allow_network: bool) -> Seq<char> {
    if !allow_network {
        ";; Network denied (all operations including DNS)\n"@ + "(deny network*)\n\n"@
    } else {
        Seq::empty()
    }
}

/// The deny-default Seatbelt profile for a policy. `read_only_is_file[i]`
/// and `denied_is_dir[i]` tell what kind of file system object the i-th
/// read-only and denied path is.
pub open spec fn seatbelt_profile(
    policy: SandboxPolicy,
    read_only_is_file: Seq<bool>,
    denied_is_dir: Seq<bool>,
) -> Seq<char> {
    profile_preamble() + system_rules() + device_rules() + read_only_section(
        path_views(policy.read_only_paths@),
        read_only_is_file,
    ) + read_write_section(policy.root_dir@, path_views(policy.read_write_paths@)) + denied_section(
        path_views(policy.denied_paths@),
        denied_is_dir,
    ) + strict_section(policy.enforcement) + network_section(policy.allow_network)
}

/// Appends one rule line to `r`.
fn push_rule(r: &mut String, action: &str, filter: &str, path: &str)
    ensures
        final(r)@ == old(r)@ + rule(action@, filter@, path@),
{
    let ghost start = r@;
    push_str(r, "(");
    push_str(r, action);
    push_str(r, " (");
    push_str(r, filter);
    push_str(r, " \"");
    let v = chars_of(path);
    push_escaped(r, v.as_slice());
    push_str(r, "\"))\n");
    assert(r@ =~= start + rule(action@, filter@, path@));
}

/// Whether `name` looks like a file name (holds a dot, does not start with one).
fn looks_like_file_exec(name: &str) -> (r: bool)
    ensures
        r == looks_like_file(name@),
{
    let v = chars_of(name);
    let mut has_dot = false;
    let mut i: usize = 0;
    while i < v.len()
        invariant
            0 <= i <= v@.len(),
            has_dot == v@.take(i as int).contains('.'),
        decreases v.len() - i,
    {
        if v[i] == '.' {
            has_dot = true;
        }
        proof {
            let t = v@.take(i + 1);
            assert(t =~= v@.take(i as int).push(v@[i as int]));
            if v@.take(i as int).contains('.') {
                let k = choose|k: int| 0 <= k < i && v@.take(i as int)[k] == '.';
                assert(t[k] == '.');
            }
            if t.contains('.') && v@[i as int] != '.' {
                let k = choose|k: int| 0 <= k < t.len() && t[k] == '.';
                assert(v@.take(i as int)[k] == '.');
            }
            if v@[i as int] == '.' {
                assert(t[i as int] == '.');
            }
        }
        i = i + 1;
    }
    assert(v@.take(v@.len() as int) =~= v@);
    has_dot && !(v.len() > 0 && v[0] == '.')
}

/// The file name of a path as text, empty where it has none.
fn file_name_text(path: &str) -> (r: String)
    ensures
        r@ == file_name_or_empty(path@),
{
    match file_name_of(path) {
        Some(n) => n,
        None => String::new(),
    }
}

/// Appends the fixed opening of the profile.
fn push_preamble(profile: &mut String)
    ensures
        final(profile)@ == old(profile)@ + profile_preamble(),
{
    reveal(profile_preamble);
    let ghost start = profile@;
    push_str(profile, "(version 1)\n\n");
    // Allow all non-file system operations. macOS requires these for
    // dyld shared cache, Mach services, IOKit, XPC, etc.
    push_str(profile, ";; Allow system operations (required for macOS process lifecycle)\n");
    push_str(profile, "(allow process*)\n");
    push_str(profile, "(allow sysctl*)\n");
    push_str(profile, "(allow mach*)\n");
    push_str(profile, "(allow ipc*)\n");
    push_str(profile, "(allow signal)\n");
    push_str(profile, "(allow system*)\n\n");
    // Deny all file operations by default
    push_str(profile, ";; Deny all file access by default\n");
    push_str(profile, "(deny file*)\n\n");
    assert(profile@ =~= start + profile_preamble());
}

/// Appends the read-only system paths.
fn push_system_rules(profile: &mut String)
    ensures
        final(profile)@ == old(profile)@ + system_rules(),
{
    reveal(system_rules);
    let ghost start = profile@;
    push_str(profile, ";; System paths (read-only)\n");
    push_rule(profile, "allow file-read*", "subpath", "/");  // Root directory listing
    push_rule(profile, "allow file-read*", "subpath", "/System");  // macOS frameworks and dyld shared cache
    push_rule(profile, "allow file-read*", "subpath", "/Library");  // System-wide libraries and frameworks
    push_rule(profile, "allow file-read*", "subpath", "/usr");  // System binaries and libraries
    push_rule(profile, "allow file-read*", "subpath", "/bin");  // Essential binaries
    push_rule(profile, "allow file-read*", "subpath", "/sbin");  // System administration binaries
    push_rule(profile, "allow file-read*", "subpath", "/etc");  // System configuration (firmlink to /private/etc)
    push_rule(profile, "allow file-read*", "subpath", "/opt");  // Homebrew (Apple Silicon) and other tools
    push_rule(profile, "allow file-read*", "subpath", "/Applications");  // For app discovery
    push_rule(profile, "allow file-read*", "subpath", "/private/etc");  // Real /etc (firmlinked)
    push_rule(profile, "allow file-read*", "subpath", "/private/var");  // System state
    // Root directory needs literal match for readdir
    push_str(profile, "(allow file-read* (literal \"/\"))\n\n");
    assert(profile@ =~= start + system_rules());
}

/// Appends the read-write device and temporary paths.
fn push_device_rules(profile: &mut String)
    ensures
        final(profile)@ == old(profile)@ + device_rules(),
{
    reveal(device_rules);
    let ghost start = profile@;
    push_str(profile, ";; Device and temp paths (read-write)\n");
    push_rule(profile, "allow file*", "subpath", "/dev");
    push_rule(profile, "allow file*", "subpath", "/tmp");
    push_rule(profile, "allow file*", "subpath", "/private/tmp");
    push_rule(profile, "allow file*", "subpath", "/var/folders");  // macOS $TMPDIR lives here
    push_rule(profile, "allow file*", "subpath", "/private/var/folders");  // Real path behind firmlink
    push_str(profile, "\n");
    assert(profile@ =~= start + device_rules());
}

/// Appends the section for the policy's read-only paths (shell dotfiles, toolchains).
fn push_read_only_section(profile: &mut String, paths: &Vec<String>, is_file: &[bool])
    requires
        is_file@.len() == paths@.len(),
    ensures
        final(profile)@ == old(profile)@ + read_only_section(path_views(paths@), is_file@),
{
    reveal(read_only_section);
    let ghost start = profile@;
    let ghost ro = path_views(paths@);
    if paths.len() == 0 {
        assert(profile@ =~= start + Seq::<char>::empty());
        return;
    }
    push_str(profile, ";; Policy read-only paths (dotfiles, toolchains)\n");
    let ghost q = profile@;
    let mut i: usize = 0;
    while i < paths.len()
        invariant
            0 <= i <= paths@.len(),
            is_file@.len() == paths@.len(),
            ro == path_views(paths@),
            profile@ == q + read_only_rules(ro.take(i as int), is_file@),
        decreases paths.len() - i,
    {
        let ro_path = paths[i].as_str();
        // Individual files use literal, directories use subpath
        let name = file_name_text(ro_path);
        let looks = looks_like_file_exec(name.as_str());
        if is_file[i] || looks {
            push_rule(profile, "allow file-read*", "literal", ro_path);
        } else {
            push_rule(profile, "allow file-read*", "subpath", ro_path);
        }
        proof {
            assert(ro.take(i + 1).drop_last() =~= ro.take(i as int));
            assert(ro.take(i + 1).last() == ro_path@);
        }
        i = i + 1;
    }
    push_str(profile, "\n");
    assert(ro.take(ro.len() as int) =~= ro);
    assert(profile@ =~= start + (";; Policy read-only paths (dotfiles, toolchains)\n"@ + read_only_rules(
        ro,
        is_file@,
    ) + "\n"@));
}

/// Appends the working directory and the further read-write paths.
fn push_read_write_section(profile: &mut String, root: &String, paths: &Vec<String>)
    ensures
        final(profile)@ == old(profile)@ + read_write_section(root@, path_views(paths@)),
{
    reveal(read_write_section);
    let ghost start = profile@;
    push_str(profile, ";; Working directory (read-write)\n");
    push_rule(profile, "allow file*", "subpath", root.as_str());
    let ghost rw = path_views(paths@);
    let ghost q = profile@;
    let mut i: usize = 0;
    while i < paths.len()
        invariant
            0 <= i <= paths@.len(),
            rw == path_views(paths@),
            profile@ == q + read_write_rules(rw.take(i as int), root@),
        decreases paths.len() - i,
    {
        let rw_path = paths[i].as_str();
        // The root is already allowed above.
        if !paths_equal(rw_path, root.as_str()) {
            push_rule(profile, "allow file*", "subpath", rw_path);
        }
        proof {
            assert(rw.take(i + 1).drop_last() =~= rw.take(i as int));
            assert(rw.take(i + 1).last() == rw_path@);
        }
        i = i + 1;
    }
    assert(rw.take(rw.len() as int) =~= rw);
    push_str(profile, "\n");
    assert(profile@ =~= start + ";; Working directory (read-write)\n"@ + rule(
        "allow file*"@,
        "subpath"@,
        root@,
    ) + read_write_rules(rw, root@) + "\n"@);
}

/// Appends the section for the denied paths (secrets, credentials).
fn push_denied_section(profile: &mut String, paths: &Vec<String>, is_dir: &[bool])
    requires
        is_dir@.len() == paths@.len(),
    ensures
        final(profile)@ == old(profile)@ + denied_section(path_views(paths@), is_dir@),
{
    reveal(denied_section);
    let ghost start = profile@;
    let ghost denied = path_views(paths@);
    if paths.len() == 0 {
        assert(profile@ =~= start + Seq::<char>::empty());
        return;
    }
    push_str(profile, ";; Denied paths (secrets, credentials) — overrides allows above\n");
    let ghost q = profile@;
    let mut i: usize = 0;
    while i < paths.len()
        invariant
            0 <= i <= paths@.len(),
            is_dir@.len() == paths@.len(),
            denied == path_views(paths@),
            profile@ == q + denied_rules(denied.take(i as int), is_dir@),
        decreases paths.len() - i,
    {
        let d = paths[i].as_str();
        let name = file_name_text(d);
        let looks = looks_like_file_exec(name.as_str());
        if is_dir[i] || !looks {
            push_rule(profile, "deny file-read* file-write*", "subpath", d);
        } else {
            push_rule(profile, "deny file-read* file-write*", "literal", d);
        }
        proof {
            assert(denied.take(i + 1).drop_last() =~= denied.take(i as int));
            assert(denied.take(i + 1).last() == d@);
        }
        i = i + 1;
    }
    push_str(profile, "\n");
    assert(denied.take(denied.len() as int) =~= denied);
    assert(profile@ =~= start + (";; Denied paths (secrets, credentials) — overrides allows above\n"@
        + denied_rules(denied, is_dir@) + "\n"@));
}

/// Appends the exec allowlist of strict mode.
fn push_strict_rules(profile: &mut String)
    ensures
        final(profile)@ == old(profile)@ + strict_rules(),
{
    reveal(strict_rules);
    let ghost start = profile@;
    push_str(profile, ";; Strict: deny process-exec by default, allowlist system paths\n");
    push_str(profile, "(deny process-exec)\n");
    push_rule(profile, "allow process-exec", "subpath", "/usr/bin");
    push_rule(profile, "allow process-exec", "subpath", "/usr/sbin");
    push_rule(profile, "allow process-exec", "subpath", "/bin");
    push_rule(profile, "allow process-exec", "subpath", "/sbin");
    push_rule(profile, "allow process-exec", "subpath", "/usr/libexec");
    push_rule(profile, "allow process-exec", "subpath", "/System");
    push_str(profile, "\n");
    assert(profile@ =~= start + strict_rules());
}

/// Generate a deny-default Seatbelt Profile Language (SBPL) profile.
///
/// The profile denies all file operations by default, then explicitly
/// allows access to the working directory, system paths, and toolchains.
/// Denied paths (secrets, credentials) are emitted last to override any
/// broad allows. SBPL uses last-match semantics for overlapping rules.
///
/// `read_only_is_file[i]` tells whether the i-th read-only path is a regular
/// file, and `denied_is_dir[i]` whether the i-th denied path is a directory.
pub fn generate_seatbelt_profile(
    policy: &SandboxPolicy,
    read_only_is_file: &[bool],
    denied_is_dir: &[bool],
) -> (profile: String)
    requires
        read_only_is_file@.len() == policy.read_only_paths@.len(),
        denied_is_dir@.len() == policy.denied_paths@.len(),
    ensures
        profile@ == seatbelt_profile(*policy, read_only_is_file@, denied_is_dir@),
{
    let mut profile = String::new();
    push_preamble(&mut profile);
    assert(profile@ =~= profile_preamble());
    push_system_rules(&mut profile);
    push_device_rules(&mut profile);
    push_read_only_section(&mut profile, &policy.read_only_paths, read_only_is_file);
    push_read_write_section(&mut profile, &policy.root_dir, &policy.read_write_paths);
    // Denied paths — MUST come last to override broader allows above.
    // This blocks secrets/credentials even if they're under an allowed subtree.
    push_denied_section(&mut profile, &policy.denied_paths, denied_is_dir);
    // Strict mode: use exec allowlist instead of blacklist.
    // Only allow execution from standard system paths — block user-writable locations.
    let ghost p6 = profile@;
    if policy.enforcement == EnforcementLevel::Strict {
        push_strict_rules(&mut profile);
    } else {
        assert(profile@ =~= p6 + Seq::<char>::empty());
    }
    let ghost p7 = profile@;
    // Network restrictions — block all network operations including DNS
    if !policy.allow_network {
        push_str(&mut profile, ";; Network denied (all operations including DNS)\n");
        push_str(&mut profile, "(deny network*)\n\n");
    }
    proof {
        reveal(network_section);
        assert(profile@ =~= p7 + network_section(policy.allow_network));
    }
    profile
}

/// A `KEY=value` environment entry.
pub open spec fn env_entry(key: Seq<char>, value: Seq<char>) -> Seq<char> {
    key + "="@ + value
}

/// The environment entries for the policy's own variables.
pub open spec fn env_entries(vars: Seq<(String, String)>) -> Seq<Seq<char>> {
    Seq::new(vars.len(), |i: int| env_entry(vars[i].0@, vars[i].1@))
}

/// The environment entries of the sandboxed shell before the helper's own:
/// the policy's variables, and the audit-only marker in permissive mode.
pub open spec fn base_env(policy: SandboxPolicy, vars: Seq<(String, String)>) -> Seq<Seq<char>> {
    env_entries(vars) + if policy.enforcement == EnforcementLevel::Permissive {
        seq!["THANE_SANDBOX_PERMISSIVE=1"@]
    } else {
        Seq::empty()
    }
}

/// The optional resource limit entry `KEY=<decimal>`.
pub open spec fn limit_entry(key: Seq<char>, limit: Option<u64>) -> Seq<Seq<char>> {
    match limit {
        Some(v) => seq![key + decimal(v as nat)],
        None => Seq::empty(),
    }
}

/// The command that launches a sandboxed shell: `(executable, args, env)`.
///
/// With the helper binary, the profile and the resource limits travel in the
/// environment; without it, the deprecated `/usr/bin/sandbox-exec` takes the
/// profile as an argument, if it exists.
pub open spec fn sandbox_command(
    policy: SandboxPolicy,
    shell: Seq<char>,
    vars: Seq<(String, String)>,
    helper: Option<Seq<char>>,
    sandbox_exec_exists: bool,
    read_only_is_file: Seq<bool>,
    denied_is_dir: Seq<bool>,
) -> Option<(Seq<char>, Seq<Seq<char>>, Seq<Seq<char>>)> {
    let profile = seatbelt_profile(policy, read_only_is_file, denied_is_dir);
    if !policy.enabled {
        None
    } else {
        match helper {
            Some(h) => Some(
                (
                    h,
                    seq![shell, "-l"@],
                    base_env(policy, vars) + seq!["THANE_SANDBOX_PROFILE="@ + profile] + limit_entry(
                        "THANE_SANDBOX_MAX_FILES="@,
                        policy.max_open_files,
                    ) + limit_entry("THANE_SANDBOX_MAX_FSIZE="@, policy.max_write_bytes) + limit_entry(
                        "THANE_SANDBOX_MAX_CPU="@,
                        policy.cpu_time_limit,
                    ),
                ),
            ),
            None => if sandbox_exec_exists {
                Some(
                    (
                        "/usr/bin/sandbox-exec"@,
                        seq!["-p"@, profile, "--"@, shell, "-l"@],
                        base_env(policy, vars),
                    ),
                )
            } else {
                None
            },
        }
    }
}

/// The views of a list of strings.
pub open spec fn string_views(v: Seq<String>) -> Seq<Seq<char>> {
    Seq::new(v.len(), |i: int| v[i]@)
}

/// A `String` from a string slice.
fn owned(s: &str) -> (r: String)
    ensures
        r@ == s@,
{
    let mut r = String::new();
    push_str(&mut r, s);
    assert(r@ =~= s@);
    r
}

/// Appends `KEY=<decimal>` to `env` when the limit is set.
fn push_limit(env: &mut Vec<String>, key: &str, limit: Option<u64>)
    ensures
        string_views(final(env)@) == string_views(old(env)@) + limit_entry(key@, limit),
{
    let ghost before = env@;
    if let Some(v) = limit {
        let mut e = owned(key);
        push_decimal(&mut e, v);
        env.push(e);
        assert(string_views(env@) =~= string_views(before) + limit_entry(key@, limit));
    } else {
        assert(string_views(env@) =~= string_views(before) + limit_entry(key@, limit));
    }
}

/// Generate the command to launch a sandboxed shell via `thane-sandbox-exec`.
///
/// The helper binary reads the SBPL profile from `THANE_SANDBOX_PROFILE`,
/// applies it via `sandbox_init_with_parameters()`, applies resource limits
/// via `setrlimit`, then execs the target shell.
///
/// `vars` are the policy's environment variables, `helper` the helper binary
/// where one was found, and `sandbox_exec_exists` whether the fallback
/// `/usr/bin/sandbox-exec` exists. Returns `(executable, args, env_vars)` or
/// `None` if sandboxing is disabled or no launcher exists. In Permissive
/// mode, the Seatbelt profile is still applied (violations are logged to
/// syslog) and `THANE_SANDBOX_PERMISSIVE=1` is added to env vars.
pub fn generate_sandbox_command(
    policy: &SandboxPolicy,
    shell: &str,
    vars: &Vec<(String, String)>,
    helper: Option<String>,
    sandbox_exec_exists: bool,
    read_only_is_file: &[bool],
    denied_is_dir: &[bool],
) -> (r: Option<(String, Vec<String>, Vec<String>)>)
    requires
        read_only_is_file@.len() == policy.read_only_paths@.len(),
        denied_is_dir@.len() == policy.denied_paths@.len(),
    ensures
        match r {
            Some((exe, args, env)) => sandbox_command(
                *policy,
                shell@,
                vars@,
                match helper {
                    Some(h) => Some(h@),
                    None => None,
                },
                sandbox_exec_exists,
                read_only_is_file@,
                denied_is_dir@,
            ) == Some((exe@, string_views(args@), string_views(env@))),
            None => sandbox_command(
                *policy,
                shell@,
                vars@,
                match helper {
                    Some(h) => Some(h@),
                    None => None,
                },
                sandbox_exec_exists,
                read_only_is_file@,
                denied_is_dir@,
            ) is None,
        },
{
    if !policy.enabled {
        return None;
    }
    let profile = generate_seatbelt_profile(policy, read_only_is_file, denied_is_dir);
    let mut env_vars: Vec<String> = Vec::new();
    let mut i: usize = 0;
    while i < vars.len()
        invariant
            0 <= i <= vars@.len(),
            string_views(env_vars@) == env_entries(vars@.take(i as int)),
        decreases vars.len() - i,
    {
        let mut e = owned(vars[i].0.as_str());
        push_str(&mut e, "=");
        push_str(&mut e, vars[i].1.as_str());
        let ghost prev = string_views(env_vars@);
        env_vars.push(e);
        proof {
            let t = env_entries(vars@.take(i + 1));
            assert(prev.len() == i);
            assert(env_vars@.len() == i + 1);
            assert(t.len() == i + 1);
            assert forall|k: int| 0 <= k < i + 1 implies string_views(env_vars@)[k] == t[k] by {
                if k < i {
                    assert(string_views(env_vars@)[k] == prev[k]);
                    assert(vars@.take(i + 1)[k] == vars@.take(i as int)[k]);
                } else {
                    assert(vars@.take(i + 1)[k] == vars@[i as int]);
                }
            }
            assert(string_views(env_vars@) =~= t);
        }
        i = i + 1;
    }
    assert(vars@.take(vars@.len() as int) =~= vars@);
    // In permissive mode, still apply the Seatbelt profile (violations are
    // logged to syslog) but set an env var so the shell/tools know this is
    // audit-only.
    if policy.enforcement == EnforcementLevel::Permissive {
        env_vars.push(owned("THANE_SANDBOX_PERMISSIVE=1"));
    }
    assert(string_views(env_vars@) =~= base_env(*policy, vars@));
    match helper {
        Some(h) => {
            // The helper reads the profile from env, applies sandbox +
            // resource limits, then execs the shell.
            let mut p = owned("THANE_SANDBOX_PROFILE=");
            push_str(&mut p, profile.as_str());
            let ghost e0 = string_views(env_vars@);
            env_vars.push(p);
            assert(string_views(env_vars@) =~= e0 + seq!["THANE_SANDBOX_PROFILE="@ + profile@]);
            push_limit(&mut env_vars, "THANE_SANDBOX_MAX_FILES=", policy.max_open_files);
            push_limit(&mut env_vars, "THANE_SANDBOX_MAX_FSIZE=", policy.max_write_bytes);
            push_limit(&mut env_vars, "THANE_SANDBOX_MAX_CPU=", policy.cpu_time_limit);
            let args = vec![owned(shell), owned("-l")];
            assert(string_views(args@) =~= seq![shell@, "-l"@]);
            Some((h, args, env_vars))
        },
        None => {
            // Fall back to sandbox-exec (deprecated but still works)
            if !sandbox_exec_exists {
                return None;
            }
            let args = vec![owned("-p"), profile, owned("--"), owned(shell), owned("-l")];
            let ghost pv = seatbelt_profile(*policy, read_only_is_file@, denied_is_dir@);
            assert(string_views(args@) =~= seq!["-p"@, pv, "--"@, shell@, "-l"@]);
            Some((owned("/usr/bin/sandbox-exec"), args, env_vars))
        },
    }
}

// ---------------------------------------------------------------------------
// The sandbox helper binary
// ---------------------------------------------------------------------------

/// The environment variable that carries the SBPL profile to the helper.
pub const HELPER_PROFILE_VAR: &'static str = "THANE_SANDBOX_PROFILE";

/// What the helper does with its command line and profile before applying
/// the sandbox: a command is needed, and a profile that is set, not empty
/// and free of NUL bytes. The error is the message the helper prints.
pub fn helper_profile(args: &[String], profile: Option<String>) -> (r: Result<String, String>)
    ensures
        args@.len() < 2 ==> (r matches Err(m) && m@
            == "thane-sandbox-exec: no command specified\nUsage: thane-sandbox-exec <shell> [args...]"@),
        args@.len() >= 2 ==> match profile {
            Some(p) => if p@.len() == 0 {
                r matches Err(m) && m@ == "thane-sandbox-exec: THANE_SANDBOX_PROFILE not set or empty"@
            } else if p@.contains('\0') {
                r matches Err(m) && m@ == "thane-sandbox-exec: profile contains null byte"@
            } else {
                r matches Ok(q) && q@ == p@
            },
            None => r matches Err(m) && m@ == "thane-sandbox-exec: THANE_SANDBOX_PROFILE not set or empty"@,
        },
{
    if args.len() < 2 {
        return Err("thane-sandbox-exec: no command specified\nUsage: thane-sandbox-exec <shell> [args...]".to_owned());
    }
    match profile {
        None => Err("thane-sandbox-exec: THANE_SANDBOX_PROFILE not set or empty".to_owned()),
        Some(p) => {
            if p.as_str().is_empty() {
                return Err("thane-sandbox-exec: THANE_SANDBOX_PROFILE not set or empty".to_owned());
            }
            let v = chars_of(p.as_str());
            match crate::text::find_char(&v, '\0') {
                Some(_) => Err("thane-sandbox-exec: profile contains null byte".to_owned()),
                None => Ok(p),
            }
        },
    }
}

/// A helper limit read from the environment: the value where it is a
/// number.
pub open spec fn helper_limit_value(var: Option<Seq<char>>) -> Option<u64> {
    match var {
        Some(v) => crate::text::parse_u64_spec(v),
        None => None,
    }
}

/// The limits the helper sets from `THANE_SANDBOX_MAX_FILES`,
/// `THANE_SANDBOX_MAX_FSIZE` and `THANE_SANDBOX_MAX_CPU`: each that holds a
/// number, CPU time with a hard limit ten seconds past the soft one.
pub open spec fn helper_limits_spec(files: Option<Seq<char>>, fsize: Option<Seq<char>>, cpu: Option<Seq<char>>) -> Seq<
    ResourceLimit,
> {
    (match helper_limit_value(files) {
        Some(v) => seq![ResourceLimit { resource: RlimitResource::NoFile, soft: v, hard: v }],
        None => Seq::empty(),
    }) + (match helper_limit_value(fsize) {
        Some(v) => seq![ResourceLimit { resource: RlimitResource::FSize, soft: v, hard: v }],
        None => Seq::empty(),
    }) + (match helper_limit_value(cpu) {
        Some(v) => seq![ResourceLimit { resource: RlimitResource::Cpu, soft: v, hard: (v + 10) as u64 }],
        None => Seq::empty(),
    })
}

/// A helper limit's value, where the variable holds a number.
fn helper_limit(var: &Option<String>) -> (r: Option<u64>)
    ensures
        r == helper_limit_value(crate::dirs::opt_view(*var)),
{
    match var {
        Some(v) => {
            let c = chars_of(v.as_str());
            crate::text::parse_u64(&c)
        },
        None => None,
    }
}

/// The resource limits the helper sets, in order, from the values of its
/// limit variables. The hard CPU limit is ten seconds past the soft one,
/// so a CPU limit within ten seconds of `u64::MAX`, whose hard limit
/// overflows, is not accepted.
pub fn helper_limits(files: Option<String>, fsize: Option<String>, cpu: Option<String>) -> (r: Vec<ResourceLimit>)
    requires
        helper_limit_value(crate::dirs::opt_view(cpu)) matches Some(v) ==> v <= u64::MAX - 10,
    ensures
        r@ == helper_limits_spec(
            crate::dirs::opt_view(files),
            crate::dirs::opt_view(fsize),
            crate::dirs::opt_view(cpu),
        ),
{
    let mut r: Vec<ResourceLimit> = Vec::new();
    if let Some(v) = helper_limit(&files) {
        r.push(ResourceLimit { resource: RlimitResource::NoFile, soft: v, hard: v });
    }
    if let Some(v) = helper_limit(&fsize) {
        r.push(ResourceLimit { resource: RlimitResource::FSize, soft: v, hard: v });
    }
    if let Some(v) = helper_limit(&cpu) {
        r.push(ResourceLimit { resource: RlimitResource::Cpu, soft: v, hard: v + 10 });
    }
    assert(r@ =~= helper_limits_spec(
        crate::dirs::opt_view(files),
        crate::dirs::opt_view(fsize),
        crate::dirs::opt_view(cpu),
    ));
    r
}

/// The command line the helper executes: its arguments after its own
/// name, refused where the command, or then any argument, holds a NUL byte.
pub fn helper_exec_args(args: &[String]) -> (r: Result<Vec<String>, String>)
    requires
        args@.len() >= 2,
    ensures
        args@[1]@.contains('\0') ==> (r matches Err(m) && m@ == "thane-sandbox-exec: command contains null byte"@),
        !args@[1]@.contains('\0') && (exists|i: int| 1 <= i < args@.len() && #[trigger] args@[i]@.contains('\0'))
            ==> (r matches Err(m) && m@ == "thane-sandbox-exec: argument contains null byte"@),
        (forall|i: int| 1 <= i < args@.len() ==> !#[trigger] args@[i]@.contains('\0')) ==> (r matches Ok(v)
            && crate::text::string_views(v@) == crate::text::string_views(args@.skip(1))),
{
    let c0 = chars_of(args[1].as_str());
    match crate::text::find_char(&c0, '\0') {
        Some(k) => {
            assert(args@[1]@[k as int] == '\0');
            assert(args@[1]@.contains('\0'));
            return Err("thane-sandbox-exec: command contains null byte".to_owned());
        },
        None => {
            assert(!args@[1]@.contains('\0'));
        },
    }
    let mut out: Vec<String> = Vec::new();
    let mut i: usize = 1;
    while i < args.len()
        invariant
            1 <= i <= args@.len(),
            !args@[1]@.contains('\0'),
            forall|j: int| 1 <= j < i ==> !#[trigger] args@[j]@.contains('\0'),
            out@.len() == i - 1,
            forall|j: int| 0 <= j < i - 1 ==> (#[trigger] out@[j])@ == args@[j + 1]@,
        decreases args.len() - i,
    {
        let c = chars_of(args[i].as_str());
        match crate::text::find_char(&c, '\0') {
            Some(k) => {
                assert(args@[i as int]@[k as int] == '\0');
                assert(args@[i as int]@.contains('\0'));
                return Err("thane-sandbox-exec: argument contains null byte".to_owned());
            },
            None => {
                assert(!args@[i as int]@.contains('\0'));
            },
        }
        let a = args[i].clone();
        out.push(a);
        i = i + 1;
    }
    assert(crate::text::string_views(out@) =~= crate::text::string_views(args@.skip(1)));
    Ok(out)
}

} // verus!
