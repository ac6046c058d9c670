//! Authorization of IPC clients.
//!
//! A connecting client is checked by the server's access mode: anyone may
//! connect in open mode; in ancestry mode the client must be a descendant
//! process of the server; in token mode it must present the secret token.
//!
//! Whether a process descends from another is found by walking up the process
//! tree one parent at a time. Reading a parent is I/O, so the walk is a state
//! machine here: it says which parent it needs, the caller reads it and feeds
//! it back, until the walk reaches a verdict.
use vstd::prelude::*;

use crate::text::{chars_eq, chars_of, push_char, push_decimal, push_str, decimal};

verus! {

/// Access mode for IPC connections.
#[derive(Debug, Clone, PartialEq, Eq)]
pub enum AccessMode {
    /// No authentication required (for development).
    Open,
    /// Client must be a descendant process of the thane instance.
    Ancestry,
    /// Client must provide a password/token.
    Token(String),
}

impl Default for AccessMode {
    /// Ancestry mode is the default.
    fn default() -> (r: Self)
        ensures
            r == AccessMode::Ancestry,
    {
        AccessMode::Ancestry
    }
}

/// Why a client was refused.
#[derive(Debug, Clone, Copy, PartialEq, Eq, Structural)]
pub enum AuthError {
    /// The client process is not a descendant of thane.
    NotDescendant(u32),
    /// The client gave a wrong token, or none.
    InvalidToken,
    /// The client's process id could not be determined.
    NoPeerCredentials,
}

impl AuthError {
    /// The human-readable description of the error.
    pub fn message(&self) -> (r: String)
        ensures
            r@ == match self {
                AuthError::NotDescendant(pid) => "access denied: client PID "@ + decimal(*pid as nat)
                    + " is not a descendant of thane"@,
                AuthError::InvalidToken => "access denied: invalid token"@,
                AuthError::NoPeerCredentials => "access denied: could not determine client PID"@,
            },
    {
        let mut r = String::new();
        match self {
            AuthError::NotDescendant(pid) => {
                push_str(&mut r, "access denied: client PID ");
                push_decimal(&mut r, *pid as u64);
                push_str(&mut r, " is not a descendant of thane");
            },
            AuthError::InvalidToken => {
                push_str(&mut r, "access denied: invalid token");
            },
            AuthError::NoPeerCredentials => {
                push_str(&mut r, "access denied: could not determine client PID");
            },
        }
        assert(Seq::<char>::empty() + "access denied: invalid token"@ == "access denied: invalid token"@);
        r
    }
}

/// Whether the token a client gave is the expected one.
pub open spec fn token_matches(expected: Seq<char>, provided: Option<Seq<char>>) -> bool {
    provided == Some(expected)
}

/// The verdict on a client, given whether its process descends from the server's.
pub open spec fn access_verdict(
    mode: AccessMode,
    client_pid: Option<u32>,
    provided_token: Option<Seq<char>>,
    client_descends: bool,
) -> Result<(), AuthError> {
    match mode {
        AccessMode::Open => Ok(()),
        AccessMode::Ancestry => match client_pid {
            None => Err(AuthError::NoPeerCredentials),
            Some(pid) => if client_descends {
                Ok(())
            } else {
                Err(AuthError::NotDescendant(pid))
            },
        },
        AccessMode::Token(expected) => if token_matches(expected@, provided_token) {
            Ok(())
        } else {
            Err(AuthError::InvalidToken)
        },
    }
}

/// The client whose ancestry a mode asks to check before a verdict.
pub open spec fn ancestry_to_check(mode: AccessMode, client_pid: Option<u32>) -> Option<u32> {
    match (mode, client_pid) {
        (AccessMode::Ancestry, Some(pid)) => Some(pid),
        _ => None,
    }
}

/// The client process that must be checked for descent from the server
/// before `verify_access` can decide, if any: only ancestry mode with a known
/// client asks for it.
pub fn ancestry_check_needed(mode: &AccessMode, client_pid: Option<u32>) -> (r: Option<u32>)
    ensures
        r == ancestry_to_check(*mode, client_pid),
{
    match (mode, client_pid) {
        (AccessMode::Ancestry, Some(pid)) => Some(pid),
        _ => None,
    }
}

/// Verify that a connecting client is authorized.
///
/// `client_descends` is whether the client process descends from the server
/// process `server_pid` (the verdict of an `AncestryWalk`); it is read only
/// in ancestry mode.
pub fn verify_access(
    mode: &AccessMode,
    client_pid: Option<u32>,
    server_pid: u32,
    provided_token: Option<&str>,
    client_descends: bool,
) -> (r: Result<(), AuthError>)
    ensures
        r == access_verdict(
            *mode,
            client_pid,
            match provided_token {
                Some(t) => Some(t@),
                None => None,
            },
            client_descends,
        ),
{
    match mode {
        AccessMode::Open => Ok(()),
        AccessMode::Ancestry => {
            let client_pid = match client_pid {
                Some(pid) => pid,
                None => return Err(AuthError::NoPeerCredentials),
            };
            if client_descends {
                Ok(())
            } else {
                Err(AuthError::NotDescendant(client_pid))
            }
        },
        AccessMode::Token(expected) => {
            let ok = match provided_token {
                Some(t) => {
                    let tv = chars_of(t);
                    let ev = chars_of(expected.as_str());
                    chars_eq(tv.as_slice(), ev.as_slice())
                },
                None => false,
            };
            if ok {
                Ok(())
            } else {
                Err(AuthError::InvalidToken)
            }
        },
    }
}

// ---------------------------------------------------------------------------
// Walking up the process tree
// ---------------------------------------------------------------------------

/// The walk from `current` up to `ancestor`, following the parents read so far
/// (`None`: a parent that could not be read). `Some(verdict)` once decided,
/// `None` while a further parent is needed.
///
/// A process counts as a descendant of itself. The walk stops, without a
/// match, at pid 1 or below, or where a parent cannot be read.
pub open spec fn walk_verdict(current: u32, ancestor: u32, parents: Seq<Option<u32>>) -> Option<bool>
    decreases parents.len(),
{
    if current == ancestor {
        Some(true)
    } else if current <= 1 {
        Some(false)
    } else if parents.len() == 0 {
        None
    } else {
        match parents[0] {
            None => Some(false),
            Some(p) => walk_verdict(p, ancestor, parents.drop_first()),
        }
    }
}

/// What the walk needs next.
#[derive(Debug, Clone, Copy, PartialEq, Eq, Structural)]
pub enum WalkStep {
    /// The walk is over: whether the child descends from the ancestor.
    Done(bool),
    /// The parent of this process must be read and fed back.
    ReadParent(u32),
}

/// A walk up the process tree from a child towards a possible ancestor.
pub struct AncestryWalk {
    child: u32,
    ancestor: u32,
    current: u32,
    failed: bool,
    parents: Ghost<Seq<Option<u32>>>,
}

impl AncestryWalk {
    /// The process the walk started from.
    pub closed spec fn child(&self) -> u32 {
        self.child
    }

    /// The possible ancestor.
    pub closed spec fn ancestor(&self) -> u32 {
        self.ancestor
    }

    /// The parents fed to the walk so far.
    pub closed spec fn parents(&self) -> Seq<Option<u32>> {
        self.parents@
    }

    /// The walk's state is the walk from the child over the parents fed so far.
    pub closed spec fn wf(&self) -> bool {
        &&& walk_verdict(self.child, self.ancestor, self.parents@) == if self.failed {
            Some(false)
        } else {
            walk_verdict(self.current, self.ancestor, Seq::empty())
        }
        &&& !self.failed ==> self.parents@.len() == 0 || self.parents@.last() == Some(self.current)
        &&& !self.failed ==> forall|k: int| 0 <= k < self.parents@.len() ==> self.parents@[k] is Some
    }

    /// The process whose parent the walk needs next.
    pub closed spec fn asking(&self) -> u32 {
        self.current
    }

    /// Starts a walk from `child_pid` towards `ancestor_pid`.
    pub fn new(child_pid: u32, ancestor_pid: u32) -> (w: Self)
        ensures
            w.wf(),
            w.child() == child_pid,
            w.ancestor() == ancestor_pid,
            w.parents() == Seq::<Option<u32>>::empty(),
    {
        AncestryWalk {
            child: child_pid,
            ancestor: ancestor_pid,
            current: child_pid,
            failed: false,
            parents: Ghost(Seq::empty()),
        }
    }

    /// What the walk needs next: its verdict, or the parent of a process.
    pub fn step(&self) -> (s: WalkStep)
        requires
            self.wf(),
        ensures
            match s {
                WalkStep::Done(d) => walk_verdict(self.child(), self.ancestor(), self.parents())
                    == Some(d),
                WalkStep::ReadParent(pid) => walk_verdict(self.child(), self.ancestor(), self.parents())
                    is None && pid == self.asking() && pid > 1 && pid != self.ancestor(),
            },
    {
        if self.failed {
            WalkStep::Done(false)
        } else if self.current == self.ancestor {
            WalkStep::Done(true)
        } else if self.current <= 1 {
            WalkStep::Done(false)
        } else {
            WalkStep::ReadParent(self.current)
        }
    }

    /// Feeds the parent of the process the walk asked about (`None` where it
    /// could not be read).
    pub fn feed_parent(&mut self, parent: Option<u32>)
        requires
            old(self).wf(),
            walk_verdict(old(self).child(), old(self).ancestor(), old(self).parents()) is None,
        ensures
            final(self).wf(),
            final(self).child() == old(self).child(),
            final(self).ancestor() == old(self).ancestor(),
            final(self).parents() == old(self).parents().push(parent),
            parent matches Some(p) ==> final(self).asking() == p,
    {
        let ghost old_parents = self.parents@;
        proof {
            lemma_walk_extend(self.child, self.ancestor, old_parents, parent);
            if old_parents.len() > 0 {
                lemma_walk_last(self.child, self.ancestor, old_parents);
            }
        }
        match parent {
            None => {
                self.failed = true;
            },
            Some(p) => {
                self.current = p;
            },
        }
        self.parents = Ghost(old_parents.push(parent));
        proof {
            let np = old_parents.push(parent);
            assert forall|k: int| 0 <= k < np.len() && !self.failed implies np[k] is Some by {
                if k < old_parents.len() {
                    assert(np[k] == old_parents[k]);
                }
            }
        }
    }
}

/// A walk that has not decided, fed one more parent, goes on from that parent.
proof fn lemma_walk_extend(child: u32, ancestor: u32, parents: Seq<Option<u32>>, parent: Option<u32>)
    requires
        walk_verdict(child, ancestor, parents) is None,
        forall|k: int| 0 <= k < parents.len() ==> parents[k] is Some,
    ensures
        walk_verdict(child, ancestor, parents.push(parent)) == match parent {
            None => Some(false),
            Some(p) => walk_verdict(p, ancestor, Seq::empty()),
        },
    decreases parents.len(),
{
    assert(child != ancestor && child > 1);
    if parents.len() == 0 {
        assert(parents.push(parent).drop_first() =~= Seq::<Option<u32>>::empty());
        assert(parents.push(parent)[0] == parent);
    } else {
        let q = parents[0]->0;
        assert(parents.push(parent)[0] == parents[0]);
        assert(parents.push(parent).drop_first() =~= parents.drop_first().push(parent));
        lemma_walk_extend(q, ancestor, parents.drop_first(), parent);
    }
}

/// An undecided walk over known parents stands at the last parent read.
proof fn lemma_walk_last(child: u32, ancestor: u32, parents: Seq<Option<u32>>)
    requires
        parents.len() > 0,
        forall|k: int| 0 <= k < parents.len() ==> parents[k] is Some,
    ensures
        walk_verdict(child, ancestor, parents) is None ==> walk_verdict(
            parents.last()->0,
            ancestor,
            Seq::empty(),
        ) is None,
    decreases parents.len(),
{
    let q = parents[0]->0;
    if parents.len() > 1 {
        assert(parents.drop_first().last() == parents.last());
        assert forall|k: int| 0 <= k < parents.drop_first().len() implies parents.drop_first()[k] is Some by {
            assert(parents.drop_first()[k] == parents[k + 1]);
        }
        lemma_walk_last(q, ancestor, parents.drop_first());
    } else {
        assert(parents.drop_first() =~= Seq::<Option<u32>>::empty());
        assert(parents.last() == parents[0]);
    }
}

/// Who is let in: in open mode every client; in token mode exactly the
/// clients that present the expected token, whatever their process; in
/// ancestry mode exactly the clients whose process is known and descends
/// from the server, a known client that does not being refused by its pid
/// and an unknown one for want of credentials.
pub proof fn lemma_access_rules(
    expected: String,
    client_pid: Option<u32>,
    provided: Option<Seq<char>>,
    descends: bool,
)
    ensures
        access_verdict(AccessMode::Open, client_pid, provided, descends) == Ok::<(), AuthError>(()),
        access_verdict(AccessMode::Token(expected), client_pid, provided, descends) is Ok <==> provided == Some(
            expected@,
        ),
        access_verdict(AccessMode::Token(expected), client_pid, provided, descends) is Err ==> access_verdict(
            AccessMode::Token(expected),
            client_pid,
            provided,
            descends,
        ) == Err::<(), AuthError>(AuthError::InvalidToken),
        access_verdict(AccessMode::Ancestry, client_pid, provided, descends) is Ok <==> client_pid is Some
            && descends,
        client_pid is None ==> access_verdict(AccessMode::Ancestry, client_pid, provided, descends) == Err::<
            (),
            AuthError,
        >(AuthError::NoPeerCredentials),
        client_pid is Some && !descends ==> access_verdict(AccessMode::Ancestry, client_pid, provided, descends)
            == Err::<(), AuthError>(AuthError::NotDescendant(client_pid->0)),
{
}

/// The ancestry walk decides "descends" exactly when the chain of parents
/// fed to it reaches the ancestor: a process descends from itself; a chain
/// of readable parents above pid 1 that ends at the ancestor means the
/// child descends; a parent that cannot be read before the ancestor is
/// reached means it does not.
pub proof fn lemma_walk_follows_parents(child: u32, ancestor: u32, parents: Seq<Option<u32>>, i: int)
    ensures
        walk_verdict(ancestor, ancestor, parents) == Some(true),
        0 <= i < parents.len() && child != ancestor && child > 1 && parents[i] == Some(ancestor) && (forall|
            j: int,
        | 0 <= j < i ==> (#[trigger] parents[j]) is Some && parents[j]->0 != ancestor && parents[j]->0 > 1)
            ==> walk_verdict(child, ancestor, parents) == Some(true),
        0 <= i < parents.len() && child != ancestor && child > 1 && parents[i] is None && (forall|j: int|
            0 <= j < i ==> (#[trigger] parents[j]) is Some && parents[j]->0 != ancestor && parents[j]->0 > 1)
            ==> walk_verdict(child, ancestor, parents) == Some(false),
    decreases parents.len(),
{
    if 0 <= i < parents.len() && child != ancestor && child > 1 && (forall|j: int|
        0 <= j < i ==> (#[trigger] parents[j]) is Some && parents[j]->0 != ancestor && parents[j]->0 > 1) {
        if i > 0 {
            let rest = parents.drop_first();
            assert(parents[0] is Some && parents[0]->0 != ancestor && parents[0]->0 > 1);
            assert forall|j: int| 0 <= j < i - 1 implies (#[trigger] rest[j]) is Some && rest[j]->0 != ancestor
                && rest[j]->0 > 1 by {
                assert(rest[j] == parents[j + 1]);
            }
            assert(rest[i - 1] == parents[i]);
            lemma_walk_follows_parents(parents[0]->0, ancestor, rest, i - 1);
        } else {
            if let Some(p) = parents[0] {
                assert(p == ancestor ==> walk_verdict(p, ancestor, parents.drop_first()) == Some(true));
            }
        }
    }
}

/// The lowercase hexadecimal digit of a value below sixteen.
pub open spec fn hex_char(d: nat) -> char {
    if d < 10 {
        (('0' as nat) + d) as char
    } else {
        (('a' as nat) + d - 10) as char
    }
}

/// The last `k` hexadecimal digits of `n`, most significant first,
/// zero-padded (as `{:0k$x}` writes a number below `16^k`).
pub open spec fn hex_digits(n: nat, k: nat) -> Seq<char>
    decreases k,
{
    if k == 0 {
        Seq::empty()
    } else {
        hex_digits(n / 16, (k - 1) as nat).push(hex_char(n % 16))
    }
}

/// Appends the last `k` hexadecimal digits of `n` to `s`.
fn push_hex(s: &mut String, n: u64, k: u32)
    ensures
        final(s)@ == old(s)@ + hex_digits(n as nat, k as nat),
    decreases k,
{
    if k > 0 {
        push_hex(s, n / 16, k - 1);
        let d = (n % 16) as u32;
        let c: char = if d < 10 {
            char_from_value(0x30 + d)
        } else {
            char_from_value(0x61 + d - 10)
        };
        push_char(s, c);
    }
}

/// The character of an ASCII code.
fn char_from_value(v: u32) -> (c: char)
    requires
        0x30 <= v <= 0x39 || 0x61 <= v <= 0x66,
    ensures
        c as u32 == v,
{
    if v == 0x30 { '0' } else if v == 0x31 { '1' } else if v == 0x32 { '2' } else if v == 0x33 { '3' }
    else if v == 0x34 { '4' } else if v == 0x35 { '5' } else if v == 0x36 { '6' } else if v == 0x37 { '7' }
    else if v == 0x38 { '8' } else if v == 0x39 { '9' } else if v == 0x61 { 'a' } else if v == 0x62 { 'b' }
    else if v == 0x63 { 'c' } else if v == 0x64 { 'd' } else if v == 0x65 { 'e' } else { 'f' }
}

/// An authentication token: two 64-bit values as sixteen lowercase
/// hexadecimal digits each.
pub fn token_hex(h1: u64, h2: u64) -> (r: String)
    ensures
        r@ == hex_digits(h1 as nat, 16) + hex_digits(h2 as nat, 16),
{
    let mut r = String::new();
    push_hex(&mut r, h1, 16);
    push_hex(&mut r, h2, 16);
    r
}

/// Whether `c` is a hexadecimal digit.
pub open spec fn is_hex_char(c: char) -> bool {
    ('0' <= c && c <= '9') || ('a' <= c && c <= 'f')
}

/// `k` hexadecimal digits are `k` characters, each a hexadecimal digit.
pub proof fn lemma_hex_digits(n: nat, k: nat)
    ensures
        hex_digits(n, k).len() == k,
        forall|i: int| 0 <= i < k ==> is_hex_char(#[trigger] hex_digits(n, k)[i]),
    decreases k,
{
    if k > 0 {
        lemma_hex_digits(n / 16, (k - 1) as nat);
        let d = n % 16;
        assert(is_hex_char(hex_char(d)));
        assert forall|i: int| 0 <= i < k implies is_hex_char(#[trigger] hex_digits(n, k)[i]) by {
            if i < k - 1 {
                assert(hex_digits(n, k)[i] == hex_digits(n / 16, (k - 1) as nat)[i]);
            }
        }
    }
}

/// A token is 32 hexadecimal digits.
pub proof fn lemma_token_shape(h1: u64, h2: u64)
    ensures
        (hex_digits(h1 as nat, 16) + hex_digits(h2 as nat, 16)).len() == 32,
        forall|i: int| 0 <= i < 32 ==> is_hex_char(#[trigger] (hex_digits(h1 as nat, 16) + hex_digits(h2 as nat, 16))[i]),
{
    lemma_hex_digits(h1 as nat, 16);
    lemma_hex_digits(h2 as nat, 16);
    let t = hex_digits(h1 as nat, 16) + hex_digits(h2 as nat, 16);
    assert forall|i: int| 0 <= i < 32 implies is_hex_char(#[trigger] t[i]) by {
        if i < 16 {
            assert(t[i] == hex_digits(h1 as nat, 16)[i]);
        } else {
            assert(t[i] == hex_digits(h2 as nat, 16)[i - 16]);
        }
    }
}

} // verus!
