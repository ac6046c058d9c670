//! Platform directory resolution: where thane keeps its configuration, data,
//! cache, runtime files, sessions and IPC socket.
//!
//! The base directories come from the environment (through the `dirs`
//! crate); thane's own directories are `thane` beneath them, with fixed
//! fallbacks where a base directory is unknown.
use vstd::prelude::*;

use crate::text::{chars_of, decimal, push_decimal, push_str};

verus! {

/// The application name used for every directory.
pub const APP_NAME: &'static str = "thane";

/// A path with `comp` appended, as std's `PathBuf::push` does it: an absolute
/// `comp` replaces the path; otherwise a `/` separates the two unless the path
/// is empty or already ends with one.
pub open spec fn path_join(base: Seq<char>, comp: Seq<char>) -> Seq<char> {
    if comp.len() > 0 && comp[0] == '/' {
        comp
    } else if base.len() == 0 || base.last() == '/' {
        base + comp
    } else {
        base + seq!['/'] + comp
    }
}

/// `base` with `comp` appended as a path component (std's `Path::join`).
pub fn join_path(base: &str, comp: &str) -> (r: String)
    ensures
        r@ == path_join(base@, comp@),
{
    let b = chars_of(base);
    let c = chars_of(comp);
    if c.len() > 0 && c[0] == '/' {
        return comp.to_owned();
    }
    let mut r = base.to_owned();
    if !(b.len() == 0 || b[b.len() - 1] == '/') {
        push_str(&mut r, "/");
        proof {
            reveal_strlit("/");
        }
    }
    push_str(&mut r, comp);
    proof {
        reveal_strlit("/");
        assert(seq!['/'] =~= "/"@);
    }
    r
}

/// A relative component joined to a path is where the path ends.
pub proof fn lemma_join_ends_with(base: Seq<char>, comp: Seq<char>)
    requires
        comp.len() > 0,
        comp[0] != '/',
    ensures
        crate::text::ends_with(path_join(base, comp), comp),
        crate::text::starts_with(path_join(base, comp), base),
{
    let j = path_join(base, comp);
    assert(j.skip(j.len() - comp.len()) =~= comp);
    assert(j.take(base.len() as int) =~= base);
}

// ---------------------------------------------------------------------------
// The environment
// ---------------------------------------------------------------------------

/// The user's home directory (`dirs::home_dir`), where known.
#[verifier::external_body]
pub(crate) fn home_dir() -> Option<String> {
    dirs::home_dir().map(|p| p.to_string_lossy().into_owned())
}

/// The user's configuration directory (`dirs::config_dir`), where known.
#[verifier::external_body]
fn base_config_dir() -> Option<String> {
    dirs::config_dir().map(|p| p.to_string_lossy().into_owned())
}

/// The user's data directory (`dirs::data_dir`), where known.
#[verifier::external_body]
pub(crate) fn base_data_dir() -> Option<String> {
    dirs::data_dir().map(|p| p.to_string_lossy().into_owned())
}

/// The user's cache directory (`dirs::cache_dir`), where known.
#[verifier::external_body]
fn base_cache_dir() -> Option<String> {
    dirs::cache_dir().map(|p| p.to_string_lossy().into_owned())
}

/// The user's runtime directory (`dirs::runtime_dir`), where known.
#[verifier::external_body]
fn base_runtime_dir() -> Option<String> {
    dirs::runtime_dir().map(|p| p.to_string_lossy().into_owned())
}

/// The real user id of the process (`nix::unistd::getuid`).
#[verifier::external_body]
fn current_uid() -> u32 {
    nix::unistd::getuid().as_raw()
}

/// A path with the application name appended.
pub open spec fn app_dir(base: Seq<char>) -> Seq<char> {
    path_join(base, APP_NAME@)
}

/// The base directory, or a fallback where it is unknown.
pub open spec fn or_fallback(base: Option<Seq<char>>, fallback: Seq<char>) -> Seq<char> {
    match base {
        Some(b) => b,
        None => fallback,
    }
}

/// The views of an optional string.
pub open spec fn opt_view(s: Option<String>) -> Option<Seq<char>> {
    match s {
        Some(v) => Some(v@),
        None => None,
    }
}

/// `base` joined with the application name, with a fallback base.
fn app_dir_from(base: Option<String>, fallback: &str) -> (r: String)
    ensures
        r@ == app_dir(or_fallback(opt_view(base), fallback@)),
{
    match base {
        Some(b) => join_path(b.as_str(), APP_NAME),
        None => join_path(fallback, APP_NAME),
    }
}

/// The runtime directory fallback for a user: `/tmp/thane-<uid>`.
pub open spec fn runtime_fallback(uid: u32) -> Seq<char> {
    "/tmp/"@ + APP_NAME@ + "-"@ + decimal(uid as nat)
}

/// The runtime directory fallback for a user: `/tmp/thane-<uid>`.
pub fn runtime_fallback_for(uid: u32) -> (r: String)
    ensures
        r@ == runtime_fallback(uid),
{
    let mut r = String::new();
    push_str(&mut r, "/tmp/");
    push_str(&mut r, APP_NAME);
    push_str(&mut r, "-");
    push_decimal(&mut r, uid as u64);
    assert(r@ =~= runtime_fallback(uid));
    r
}

// ---------------------------------------------------------------------------
// Platform directories
// ---------------------------------------------------------------------------

/// Platform-specific directory resolution.
pub trait PlatformDirs {
    /// Config directory (e.g. ~/.config/thane)
    fn config_dir(&self) -> String;
    /// Data directory (e.g. ~/.local/share/thane)
    fn data_dir(&self) -> String;
    /// Cache directory (e.g. ~/.cache/thane)
    fn cache_dir(&self) -> String;
    /// Runtime directory (e.g. /run/user/1000/thane)
    fn runtime_dir(&self) -> String;
    /// Session storage directory
    fn sessions_dir(&self) -> String;
    /// Socket path for IPC
    fn socket_path(&self) -> String;
}

/// XDG-based directory resolution for Linux.
pub struct LinuxDirs;

/// The Linux data directory: `thane` under the XDG data directory, or under
/// `~/.local/share`.
pub open spec fn linux_data_dir(base: Option<Seq<char>>) -> Seq<char> {
    app_dir(or_fallback(base, "~/.local/share"@))
}

/// The Linux runtime directory: `thane` under the XDG runtime directory, or
/// under `/tmp/thane-<uid>`.
pub open spec fn linux_runtime_dir(base: Option<Seq<char>>, uid: u32) -> Seq<char> {
    app_dir(or_fallback(base, runtime_fallback(uid)))
}

impl LinuxDirs {
    /// The Linux data directory for a known or unknown XDG data directory.
    pub fn data_dir_from(base: Option<String>) -> (r: String)
        ensures
            r@ == linux_data_dir(opt_view(base)),
    {
        app_dir_from(base, "~/.local/share")
    }

    /// The Linux runtime directory for a known or unknown XDG runtime directory.
    pub fn runtime_dir_from(base: Option<String>, uid: u32) -> (r: String)
        ensures
            r@ == linux_runtime_dir(opt_view(base), uid),
    {
        match base {
            Some(b) => join_path(b.as_str(), APP_NAME),
            None => {
                let f = runtime_fallback_for(uid);
                join_path(f.as_str(), APP_NAME)
            },
        }
    }

    /// Plans directory for queued plan files.
    pub fn plans_dir(&self) -> (r: String)
        ensures
            exists|base: Option<Seq<char>>| r@ == path_join(linux_data_dir(base), "plans"@),
    {
        let d = self.data_dir();
        join_path(d.as_str(), "plans")
    }

    /// Path to the setup-complete sentinel file.
    pub fn setup_sentinel(&self) -> (r: String)
        ensures
            exists|base: Option<Seq<char>>| r@ == path_join(linux_data_dir(base), ".setup-complete"@),
    {
        let d = self.data_dir();
        join_path(d.as_str(), ".setup-complete")
    }
}

impl PlatformDirs for LinuxDirs {
    fn config_dir(&self) -> (r: String)
        ensures
            exists|base: Option<Seq<char>>| r@ == app_dir(or_fallback(base, "~/.config"@)),
    {
        app_dir_from(base_config_dir(), "~/.config")
    }

    fn data_dir(&self) -> (r: String)
        ensures
            exists|base: Option<Seq<char>>| r@ == linux_data_dir(base),
    {
        let b = base_data_dir();
        let r = Self::data_dir_from(b);
        r
    }

    fn cache_dir(&self) -> (r: String)
        ensures
            exists|base: Option<Seq<char>>| r@ == app_dir(or_fallback(base, "~/.cache"@)),
    {
        app_dir_from(base_cache_dir(), "~/.cache")
    }

    fn runtime_dir(&self) -> (r: String)
        ensures
            exists|base: Option<Seq<char>>, uid: u32| r@ == linux_runtime_dir(base, uid),
    {
        let b = base_runtime_dir();
        // Fallback: /tmp/thane-<uid>
        let uid = current_uid();
        Self::runtime_dir_from(b, uid)
    }

    fn sessions_dir(&self) -> (r: String)
        ensures
            exists|base: Option<Seq<char>>| r@ == path_join(linux_data_dir(base), "sessions"@),
    {
        let d = self.data_dir();
        join_path(d.as_str(), "sessions")
    }

    fn socket_path(&self) -> (r: String)
        ensures
            exists|base: Option<Seq<char>>, uid: u32| r@ == path_join(
                linux_runtime_dir(base, uid),
                "thane.sock"@,
            ),
    {
        let d = self.runtime_dir();
        join_path(d.as_str(), "thane.sock")
    }
}

/// macOS directory resolution using ~/Library paths.
pub struct MacosDirs;

/// A macOS base directory: the known one, or one beneath the home directory
/// (or `/tmp` where that is unknown too).
pub open spec fn macos_base(base: Option<Seq<char>>, home: Option<Seq<char>>, under_home: Seq<char>) -> Seq<
    char,
> {
    match base {
        Some(b) => b,
        None => path_join(or_fallback(home, "/tmp"@), under_home),
    }
}

/// The macOS data directory (Application Support is used for both config and data).
pub open spec fn macos_data_dir(base: Option<Seq<char>>, home: Option<Seq<char>>) -> Seq<char> {
    app_dir(macos_base(base, home, "Library/Application Support"@))
}

/// A macOS application directory for a known or unknown base directory.
fn macos_app_dir(base: Option<String>, under_home: &str) -> (r: String)
    ensures
        exists|home: Option<Seq<char>>| r@ == app_dir(macos_base(opt_view(base), home, under_home@)),
{
    match base {
        Some(b) => {
            let r = join_path(b.as_str(), APP_NAME);
            assert(r@ == app_dir(macos_base(opt_view(Some(b)), None, under_home@)));
            r
        },
        None => {
            let home = home_dir();
            let h = match home {
                Some(h) => h,
                None => "/tmp".to_owned(),
            };
            let b = join_path(h.as_str(), under_home);
            let r = join_path(b.as_str(), APP_NAME);
            proof {
                let hv: Option<Seq<char>> = opt_view(home);
                assert(r@ == app_dir(macos_base(None, hv, under_home@)));
            }
            r
        },
    }
}

impl MacosDirs {
    /// Plans directory for queued plan files.
    pub fn plans_dir(&self) -> (r: String)
        ensures
            exists|base: Option<Seq<char>>, home: Option<Seq<char>>| r@ == path_join(
                macos_data_dir(base, home),
                "plans"@,
            ),
    {
        let d = self.data_dir();
        join_path(d.as_str(), "plans")
    }

    /// Path to the setup-complete sentinel file.
    pub fn setup_sentinel(&self) -> (r: String)
        ensures
            exists|base: Option<Seq<char>>, home: Option<Seq<char>>| r@ == path_join(
                macos_data_dir(base, home),
                ".setup-complete"@,
            ),
    {
        let d = self.data_dir();
        join_path(d.as_str(), ".setup-complete")
    }
}

impl PlatformDirs for MacosDirs {
    fn config_dir(&self) -> (r: String)
        ensures
            exists|base: Option<Seq<char>>, home: Option<Seq<char>>| r@ == app_dir(
                macos_base(base, home, "Library/Application Support"@),
            ),
    {
        let b = base_config_dir();
        let r = macos_app_dir(b, "Library/Application Support");
        proof {
            let home = choose|home: Option<Seq<char>>| r@ == app_dir(macos_base(opt_view(b), home, "Library/Application Support"@));
            assert(r@ == app_dir(macos_base(opt_view(b), home, "Library/Application Support"@)));
        }
        r
    }

    fn data_dir(&self) -> (r: String)
        ensures
            exists|base: Option<Seq<char>>, home: Option<Seq<char>>| r@ == macos_data_dir(base, home),
    {
        let b = base_data_dir();
        let r = macos_app_dir(b, "Library/Application Support");
        proof {
            let home = choose|home: Option<Seq<char>>| r@ == app_dir(macos_base(opt_view(b), home, "Library/Application Support"@));
            assert(r@ == macos_data_dir(opt_view(b), home));
        }
        r
    }

    fn cache_dir(&self) -> (r: String)
        ensures
            exists|base: Option<Seq<char>>, home: Option<Seq<char>>| r@ == app_dir(
                macos_base(base, home, "Library/Caches"@),
            ),
    {
        let b = base_cache_dir();
        let r = macos_app_dir(b, "Library/Caches");
        proof {
            let home = choose|home: Option<Seq<char>>| r@ == app_dir(macos_base(opt_view(b), home, "Library/Caches"@));
            assert(r@ == app_dir(macos_base(opt_view(b), home, "Library/Caches"@)));
        }
        r
    }

    fn runtime_dir(&self) -> (r: String)
        ensures
            exists|base: Option<Seq<char>>, home: Option<Seq<char>>| r@ == path_join(
                macos_data_dir(base, home),
                "run"@,
            ),
    {
        // macOS doesn't have XDG_RUNTIME_DIR; use Application Support/thane/run.
        let d = self.data_dir();
        join_path(d.as_str(), "run")
    }

    fn sessions_dir(&self) -> (r: String)
        ensures
            exists|base: Option<Seq<char>>, home: Option<Seq<char>>| r@ == path_join(
                macos_data_dir(base, home),
                "sessions"@,
            ),
    {
        let d = self.data_dir();
        join_path(d.as_str(), "sessions")
    }

    fn socket_path(&self) -> (r: String)
        ensures
            exists|base: Option<Seq<char>>, home: Option<Seq<char>>| r@ == path_join(
                path_join(macos_data_dir(base, home), "run"@),
                "thane.sock"@,
            ),
    {
        let d = self.runtime_dir();
        join_path(d.as_str(), "thane.sock")
    }
}

} // verus!
