//! The single-instance lock: an exclusive advisory lock on `thane.pid` in
//! the runtime directory, holding the pid of the instance that owns it.
use vstd::prelude::*;

use crate::dirs::{join_path, path_join};
use crate::text::{chars_of, decimal, parse_u32, parse_u32_spec, push_decimal, push_str, trim, trim_str};

verus! {

/// The name of the lock file.
pub const LOCK_FILE_NAME: &'static str = "thane.pid";

/// Why the lock could not be taken.
#[derive(Debug)]
pub enum AcquireError {
    /// Another thane instance is already running (with its pid where the
    /// lock file names one).
    AlreadyRunning(Option<u32>),
    /// A file-system error, with the system's description.
    Io(String),
}

impl AcquireError {
    /// The human-readable description of the error.
    pub fn message(&self) -> (r: String)
        ensures
            r@ == match self {
                AcquireError::AlreadyRunning(Some(pid)) => "Another thane instance is already running (PID "@
                    + decimal(*pid as nat) + ")"@,
                AcquireError::AlreadyRunning(None) => "Another thane instance is already running"@,
                AcquireError::Io(e) => "Lock file error: "@ + e@,
            },
    {
        let mut r = String::new();
        match self {
            AcquireError::AlreadyRunning(Some(pid)) => {
                push_str(&mut r, "Another thane instance is already running (PID ");
                push_decimal(&mut r, *pid as u64);
                push_str(&mut r, ")");
            },
            AcquireError::AlreadyRunning(None) => {
                push_str(&mut r, "Another thane instance is already running");
            },
            AcquireError::Io(e) => {
                push_str(&mut r, "Lock file error: ");
                push_str(&mut r, e.as_str());
            },
        }
        assert(Seq::<char>::empty() + "a"@ == "a"@);
        r
    }
}

/// The lock file in a runtime directory.
pub fn lock_path(runtime_dir: &str) -> (r: String)
    ensures
        r@ == path_join(runtime_dir@, LOCK_FILE_NAME@),
{
    join_path(runtime_dir, LOCK_FILE_NAME)
}

/// The pid that a held lock file names: its trimmed contents read as a
/// number, if they are one.
pub fn running_pid(contents: &str) -> (r: Option<u32>)
    ensures
        r == parse_u32_spec(trim(contents@)),
{
    let t = trim_str(contents);
    let v = chars_of(t.as_str());
    parse_u32(&v)
}

/// The error when the lock is held by another instance whose lock file
/// holds `contents`.
pub fn already_running(contents: &str) -> (r: AcquireError)
    ensures
        r == AcquireError::AlreadyRunning(parse_u32_spec(trim(contents@))),
{
    AcquireError::AlreadyRunning(running_pid(contents))
}

/// The contents written to a lock file that this process holds: its pid.
pub fn lock_contents(pid: u32) -> (r: String)
    ensures
        r@ == decimal(pid as nat),
{
    let mut r = String::new();
    push_decimal(&mut r, pid as u64);
    r
}

/// A lock file written by a holder names that holder.
pub proof fn lemma_lock_contents_name_holder(pid: u32)
    ensures
        parse_u32_spec(trim(decimal(pid as nat))) == Some(pid),
{
    crate::text::lemma_decimal(pid as nat);
    crate::text::lemma_unsigned_text_of_decimal(pid as nat);
    lemma_trim_digits(decimal(pid as nat));
}

/// Text without whitespace at either end is its own trim.
proof fn lemma_trim_digits(s: Seq<char>)
    requires
        s.len() > 0,
        crate::text::all_digits(s),
    ensures
        trim(s) == s,
{
    assert(crate::text::is_digit(s[0]));
    assert(crate::text::is_digit(s.last()));
}

} // verus!
