//! Mount namespace isolation for hiding denied paths from sandboxed
//! processes: a new user and mount namespace, with an empty tmpfs mounted
//! over each denied path so that it appears empty rather than only
//! access-denied. The system calls stay with the caller; this module holds
//! the decisions around them.
use vstd::prelude::*;

use crate::sandbox::SandboxPolicy;
use crate::seccomp::eperm;
use crate::text::{chars_of, decimal, parse_u64, parse_u64_spec, push_decimal, push_str, trim, trim_str};

verus! {

/// Error type for namespace operations.
#[derive(Debug)]
pub enum NamespaceError {
    /// `unshare(2)` failed, with the system's description.
    Unshare(String),
    /// Mounting a tmpfs over a path failed.
    Mount { path: String, source: String },
    /// User namespaces are disabled on this host.
    NotSupported,
}

impl NamespaceError {
    /// The human-readable description of the error.
    pub fn message(&self) -> (r: String)
        ensures
            r@ == match self {
                NamespaceError::Unshare(e) => "Failed to unshare mount namespace: "@ + e@,
                NamespaceError::Mount { path, source } => "Failed to mount tmpfs over "@ + path@ + ": "@ + source@,
                NamespaceError::NotSupported => "Mount namespace isolation not supported"@,
            },
    {
        let mut r = String::new();
        match self {
            NamespaceError::Unshare(e) => {
                push_str(&mut r, "Failed to unshare mount namespace: ");
                push_str(&mut r, e.as_str());
            },
            NamespaceError::Mount { path, source } => {
                push_str(&mut r, "Failed to mount tmpfs over ");
                push_str(&mut r, path.as_str());
                push_str(&mut r, ": ");
                push_str(&mut r, source.as_str());
            },
            NamespaceError::NotSupported => {
                push_str(&mut r, "Mount namespace isolation not supported");
            },
        }
        assert(Seq::<char>::empty() + "a"@ == "a"@);
        r
    }
}

/// Whether a policy asks for namespace isolation: only an enabled policy
/// with denied paths does.
pub open spec fn namespace_wanted_spec(policy: SandboxPolicy) -> bool {
    policy.enabled && policy.denied_paths@.len() > 0
}

/// Whether a policy asks for namespace isolation.
pub fn namespace_wanted(policy: &SandboxPolicy) -> (r: bool)
    ensures
        r == namespace_wanted_spec(*policy),
{
    policy.enabled && policy.denied_paths.len() > 0
}

/// The error of a failed `unshare(2)`: `EPERM` means that user namespaces
/// are disabled; anything else is passed on with its description.
pub fn unshare_failure(errno: Option<i32>, description: String) -> (r: NamespaceError)
    ensures
        errno == Some(1i32) ==> r is NotSupported,
        errno != Some(1i32) ==> r == NamespaceError::Unshare(description),
{
    let eperm_code = eperm();
    match errno {
        Some(e) => if e == eperm_code {
            NamespaceError::NotSupported
        } else {
            NamespaceError::Unshare(description)
        },
        None => NamespaceError::Unshare(description),
    }
}

/// A one-line id map that maps id 0 inside the namespace to `id` outside.
pub open spec fn id_map_spec(id: u32) -> Seq<char> {
    "0 "@ + decimal(id as nat) + " 1\n"@
}

/// The `uid_map` or `gid_map` text for the caller's id: `0 <id> 1`.
pub fn id_map_line(id: u32) -> (r: String)
    ensures
        r@ == id_map_spec(id),
{
    let mut r = String::new();
    push_str(&mut r, "0 ");
    push_decimal(&mut r, id as u64);
    push_str(&mut r, " 1\n");
    r
}

/// The denied paths that get a tmpfs: those that exist and whose text holds
/// no NUL, in the policy's order.
pub open spec fn mount_targets_spec(paths: Seq<String>, exists: Seq<bool>) -> Seq<Seq<char>>
    decreases paths.len(),
{
    if paths.len() == 0 {
        Seq::empty()
    } else {
        mount_targets_spec(paths.drop_last(), exists.drop_last()) + if exists.last() && !paths.last()@.contains(
            '\0',
        ) {
            seq![paths.last()@]
        } else {
            Seq::empty()
        }
    }
}

/// The denied paths that get a tmpfs, given which of them exist.
pub fn mount_targets(policy: &SandboxPolicy, exists: &[bool]) -> (r: Vec<String>)
    requires
        exists@.len() == policy.denied_paths@.len(),
    ensures
        crate::text::string_views(r@) == mount_targets_spec(policy.denied_paths@, exists@),
{
    let mut out: Vec<String> = Vec::new();
    let mut i: usize = 0;
    while i < exists.len()
        invariant
            0 <= i <= exists@.len(),
            exists@.len() == policy.denied_paths@.len(),
            crate::text::string_views(out@) == mount_targets_spec(
                policy.denied_paths@.take(i as int),
                exists@.take(i as int),
            ),
        decreases exists.len() - i,
    {
        assert(policy.denied_paths@.take(i + 1).drop_last() =~= policy.denied_paths@.take(i as int));
        assert(exists@.take(i + 1).drop_last() =~= exists@.take(i as int));
        let p = &policy.denied_paths[i];
        let v = chars_of(p.as_str());
        let has_nul = match crate::text::find_char(&v, '\0') {
            Some(_) => true,
            None => false,
        };
        proof {
            if has_nul {
                assert(v@.contains('\0'));
            } else {
                assert(!v@.contains('\0'));
            }
        }
        let ghost prev = crate::text::string_views(out@);
        if exists[i] && !has_nul {
            out.push(p.clone());
        }
        assert(crate::text::string_views(out@) =~= prev + if exists@[i as int] && !policy.denied_paths@[i as int]@.contains('\0') {
            seq![policy.denied_paths@[i as int]@]
        } else {
            Seq::empty()
        });
        i = i + 1;
    }
    assert(policy.denied_paths@.take(i as int) =~= policy.denied_paths@);
    assert(exists@.take(i as int) =~= exists@);
    out
}

/// What trying namespace isolation reports once it was attempted: applied,
/// or not available where user namespaces are disabled; other errors are
/// passed on.
pub fn isolation_outcome(applied: Result<(), NamespaceError>) -> (r: Result<bool, NamespaceError>)
    ensures
        match applied {
            Ok(()) => r == Ok::<bool, NamespaceError>(true),
            Err(NamespaceError::NotSupported) => r == Ok::<bool, NamespaceError>(false),
            Err(e) => r == Err::<bool, NamespaceError>(e),
        },
{
    match applied {
        Ok(()) => Ok(true),
        Err(NamespaceError::NotSupported) => Ok(false),
        Err(e) => Err(e),
    }
}

/// Whether user namespaces are available, from the kernel settings: the
/// `unprivileged_userns_clone` switch where it can be read (on when it is
/// `1`), otherwise a positive `max_user_namespaces`; unknown means no.
pub open spec fn userns_supported_spec(unprivileged_clone: Option<Seq<char>>, max_namespaces: Option<Seq<char>>) -> bool {
    match unprivileged_clone {
        Some(s) => trim(s) == "1"@,
        None => match max_namespaces {
            Some(m) => match parse_u64_spec(trim(m)) {
                Some(n) => n > 0,
                None => false,
            },
            None => false,
        },
    }
}

/// Whether user namespaces are available, given the contents of
/// `/proc/sys/kernel/unprivileged_userns_clone` and
/// `/proc/sys/user/max_user_namespaces` (`None` where unreadable).
pub fn userns_supported_from(unprivileged_clone: Option<String>, max_namespaces: Option<String>) -> (r: bool)
    ensures
        r == userns_supported_spec(crate::dirs::opt_view(unprivileged_clone), crate::dirs::opt_view(max_namespaces)),
{
    match unprivileged_clone {
        Some(s) => {
            let t = trim_str(s.as_str());
            let v = chars_of(t.as_str());
            proof {
                reveal_strlit("1");
            }
            crate::text::chars_eq_str(&v, "1")
        },
        None => match max_namespaces {
            Some(m) => {
                let t = trim_str(m.as_str());
                let v = chars_of(t.as_str());
                match parse_u64(&v) {
                    Some(n) => n > 0,
                    None => false,
                }
            },
            None => false,
        },
    }
}

} // verus!
