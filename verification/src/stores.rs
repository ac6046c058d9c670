//! The JSON stores of sessions, closed-workspace history and the agent
//! queue's history: where their files live, the temporary files of their
//! atomic writes, and the pruning of the queue history.
use vstd::prelude::*;

use crate::dirs::{join_path, path_join};
use crate::text::{decimal, push_decimal, push_str};
use crate::timestamp::{before, days_before, days_before_secs, days_before_spec, is_before, Timestamp, EARLIEST_SECS};

verus! {

/// The name of a store's temporary file for an atomic write by process
/// `pid`: `<file>.<pid>.tmp`.
pub open spec fn temp_name(file: Seq<char>, pid: u32) -> Seq<char> {
    file + "."@ + decimal(pid as nat) + ".tmp"@
}

/// `<file>.<pid>.tmp` in `dir`.
fn temp_in(dir: &str, file: &str, pid: u32) -> (r: String)
    ensures
        r@ == path_join(dir@, temp_name(file@, pid)),
{
    let mut name = String::new();
    push_str(&mut name, file);
    push_str(&mut name, ".");
    push_decimal(&mut name, pid as u64);
    push_str(&mut name, ".tmp");
    join_path(dir, name.as_str())
}

/// Atomic file-based session storage: `session.json`, written through a
/// temporary file and a rename.
pub struct SessionStore {
    dir: String,
}

impl SessionStore {
    /// The store's directory.
    pub closed spec fn dir_spec(&self) -> Seq<char> {
        self.dir@
    }

    /// A store in `dir`.
    pub fn new(dir: String) -> (r: Self)
        ensures
            r.dir_spec() == dir@,
    {
        SessionStore { dir }
    }

    /// The saved session.
    pub fn session_file(&self) -> (r: String)
        ensures
            r@ == path_join(self.dir_spec(), "session.json"@),
    {
        join_path(self.dir.as_str(), "session.json")
    }

    /// The temporary file that process `pid` writes before renaming it over
    /// the session.
    pub fn temp_file(&self, pid: u32) -> (r: String)
        ensures
            r@ == path_join(self.dir_spec(), temp_name("session.json"@, pid)),
    {
        temp_in(self.dir.as_str(), "session.json", pid)
    }
}

/// Atomic file-based storage of the closed-workspace history:
/// `history.json`, written as sessions are.
pub struct HistoryStore {
    dir: String,
}

impl HistoryStore {
    /// The store's directory.
    pub closed spec fn dir_spec(&self) -> Seq<char> {
        self.dir@
    }

    /// A store in `dir`.
    pub fn new(dir: String) -> (r: Self)
        ensures
            r.dir_spec() == dir@,
    {
        HistoryStore { dir }
    }

    /// The saved history.
    pub fn history_file(&self) -> (r: String)
        ensures
            r@ == path_join(self.dir_spec(), "history.json"@),
    {
        join_path(self.dir.as_str(), "history.json")
    }

    /// The temporary file that process `pid` writes before renaming it over
    /// the history.
    pub fn temp_file(&self, pid: u32) -> (r: String)
        ensures
            r@ == path_join(self.dir_spec(), temp_name("history.json"@, pid)),
    {
        temp_in(self.dir.as_str(), "history.json", pid)
    }
}

/// The most entries that the queue history keeps.
pub const MAX_QUEUE_ENTRIES: usize = 500;

/// The age in days past which a completed queue entry is pruned.
pub const MAX_QUEUE_AGE_DAYS: u32 = 90;

/// Atomic file-based storage of completed agent-queue entries:
/// `queue_history.json`.
pub struct QueueHistoryStore {
    dir: String,
}

/// Whether an entry completed at `completed` survives the age limit at
/// `cutoff`: unfinished entries always do, others when completed after it.
pub open spec fn recent(completed: Option<Timestamp>, cutoff: Timestamp) -> bool {
    match completed {
        None => true,
        Some(t) => is_before(cutoff, t),
    }
}

/// The indices of the entries that survive the age limit, in order.
pub open spec fn recent_indices(completed: Seq<Option<Timestamp>>, cutoff: Timestamp) -> Seq<usize>
    decreases completed.len(),
{
    if completed.len() == 0 {
        Seq::empty()
    } else {
        recent_indices(completed.drop_last(), cutoff) + if recent(completed.last(), cutoff) {
            seq![(completed.len() - 1) as usize]
        } else {
            Seq::empty()
        }
    }
}

/// The indices of the entries that pruning keeps: those within the age
/// limit, and of them only the newest 500 (the last ones).
pub open spec fn pruned_indices(completed: Seq<Option<Timestamp>>, now: Timestamp) -> Seq<usize> {
    let kept = recent_indices(completed, days_before_spec(now, MAX_QUEUE_AGE_DAYS as int));
    if kept.len() > MAX_QUEUE_ENTRIES {
        kept.skip(kept.len() - MAX_QUEUE_ENTRIES)
    } else {
        kept
    }
}

impl QueueHistoryStore {
    /// The store's directory.
    pub closed spec fn dir_spec(&self) -> Seq<char> {
        self.dir@
    }

    /// A store in `dir`.
    pub fn new(dir: String) -> (r: Self)
        ensures
            r.dir_spec() == dir@,
    {
        QueueHistoryStore { dir }
    }

    /// The saved queue history.
    pub fn history_file(&self) -> (r: String)
        ensures
            r@ == path_join(self.dir_spec(), "queue_history.json"@),
    {
        join_path(self.dir.as_str(), "queue_history.json")
    }

    /// The temporary file that process `pid` writes before renaming it over
    /// the queue history.
    pub fn temp_file(&self, pid: u32) -> (r: String)
        ensures
            r@ == path_join(self.dir_spec(), temp_name("queue_history.json"@, pid)),
    {
        temp_in(self.dir.as_str(), "queue_history.json", pid)
    }

    /// The entries that pruning keeps at `now`, by index, given when each
    /// entry completed: entries that completed 90 days ago or earlier go,
    /// then the oldest go until at most 500 remain.
    pub fn prune_entries(completed: &[Option<Timestamp>], now: Timestamp) -> (r: Vec<usize>)
        requires
            days_before_secs(now, MAX_QUEUE_AGE_DAYS as int) >= EARLIEST_SECS,
        ensures
            r@ == pruned_indices(completed@, now),
    {
        let cutoff = days_before(now, MAX_QUEUE_AGE_DAYS);
        let mut kept: Vec<usize> = Vec::new();
        let mut i: usize = 0;
        while i < completed.len()
            invariant
                0 <= i <= completed@.len(),
                cutoff == days_before_spec(now, MAX_QUEUE_AGE_DAYS as int),
                kept@ == recent_indices(completed@.take(i as int), cutoff),
            decreases completed.len() - i,
        {
            assert(completed@.take(i + 1).drop_last() =~= completed@.take(i as int));
            assert(completed@.take(i + 1).last() == completed@[i as int]);
            let keep = match completed[i] {
                None => true,
                Some(t) => before(cutoff, t),
            };
            if keep {
                kept.push(i);
            }
            i = i + 1;
        }
        assert(completed@.take(completed@.len() as int) =~= completed@);
        if kept.len() > MAX_QUEUE_ENTRIES {
            let excess = kept.len() - MAX_QUEUE_ENTRIES;
            let mut out: Vec<usize> = Vec::new();
            let mut j = excess;
            while j < kept.len()
                invariant
                    excess <= j <= kept@.len(),
                    out@ == kept@.subrange(excess as int, j as int),
                decreases kept.len() - j,
            {
                out.push(kept[j]);
                j = j + 1;
                assert(out@ =~= kept@.subrange(excess as int, j as int));
            }
            assert(kept@.subrange(excess as int, kept@.len() as int) =~= kept@.skip(excess as int));
            out
        } else {
            kept
        }
    }
}

/// The indices that survive the age limit are increasing, in range, and
/// name entries within the limit.
pub proof fn lemma_recent_indices(completed: Seq<Option<Timestamp>>, cutoff: Timestamp)
    requires
        completed.len() <= usize::MAX,
    ensures
        recent_indices(completed, cutoff).len() <= completed.len(),
        forall|k: int|
            0 <= k < recent_indices(completed, cutoff).len() ==> {
                let i = #[trigger] recent_indices(completed, cutoff)[k];
                &&& i < completed.len()
                &&& recent(completed[i as int], cutoff)
            },
        forall|a: int, b: int|
            0 <= a < b < recent_indices(completed, cutoff).len() ==> #[trigger] recent_indices(completed, cutoff)[a]
                < #[trigger] recent_indices(completed, cutoff)[b],
        (forall|i: int| 0 <= i < completed.len() ==> recent(#[trigger] completed[i], cutoff)) ==> recent_indices(
            completed,
            cutoff,
        ).len() == completed.len(),
    decreases completed.len(),
{
    if completed.len() > 0 {
        let prev = completed.drop_last();
        lemma_recent_indices(prev, cutoff);
        assert forall|i: int| 0 <= i < prev.len() implies prev[i] == completed[i] by {}
        let pk = recent_indices(prev, cutoff);
        let kept = recent_indices(completed, cutoff);
        let last = completed.last();
        let tail: Seq<usize> = if recent(last, cutoff) {
            seq![(completed.len() - 1) as usize]
        } else {
            Seq::empty()
        };
        assert(kept == pk + tail);
        assert forall|k: int| 0 <= k < kept.len() implies {
            let i = #[trigger] kept[k];
            &&& i < completed.len()
            &&& recent(completed[i as int], cutoff)
        } by {
            if k < pk.len() {
                assert(kept[k] == pk[k]);
                let i = pk[k];
                assert(recent(prev[i as int], cutoff));
            } else {
                assert(kept[k] == tail[k - pk.len()]);
            }
        }
        assert forall|a: int, b: int| 0 <= a < b < kept.len() implies #[trigger] kept[a] < #[trigger] kept[b] by {
            if b < pk.len() {
                assert(kept[a] == pk[a]);
                assert(kept[b] == pk[b]);
            } else {
                assert(kept[a] == pk[a]);
                assert(pk[a] < prev.len());
                assert(kept[b] == tail[b - pk.len()]);
            }
        }
        if forall|i: int| 0 <= i < completed.len() ==> recent(#[trigger] completed[i], cutoff) {
            assert forall|i: int| 0 <= i < prev.len() implies recent(#[trigger] prev[i], cutoff) by {
                assert(recent(completed[i], cutoff));
            }
            assert(recent(completed[completed.len() - 1], cutoff));
        }
    }
}

/// Pruning keeps at most 500 entries, each within the age limit, in their
/// original order; where every entry is recent and there are at most 500,
/// it keeps them all.
pub proof fn lemma_prune_bounds(completed: Seq<Option<Timestamp>>, now: Timestamp)
    requires
        completed.len() <= usize::MAX,
    ensures
        pruned_indices(completed, now).len() <= MAX_QUEUE_ENTRIES,
        forall|k: int|
            0 <= k < pruned_indices(completed, now).len() ==> {
                let i = #[trigger] pruned_indices(completed, now)[k];
                &&& i < completed.len()
                &&& recent(completed[i as int], days_before_spec(now, MAX_QUEUE_AGE_DAYS as int))
            },
        forall|a: int, b: int|
            0 <= a < b < pruned_indices(completed, now).len() ==> #[trigger] pruned_indices(completed, now)[a]
                < #[trigger] pruned_indices(completed, now)[b],
        completed.len() <= MAX_QUEUE_ENTRIES && (forall|i: int|
            0 <= i < completed.len() ==> recent(
                #[trigger] completed[i],
                days_before_spec(now, MAX_QUEUE_AGE_DAYS as int),
            )) ==> pruned_indices(completed, now).len() == completed.len(),
{
    let cutoff = days_before_spec(now, MAX_QUEUE_AGE_DAYS as int);
    lemma_recent_indices(completed, cutoff);
    let kept = recent_indices(completed, cutoff);
    if kept.len() > MAX_QUEUE_ENTRIES {
        let p = kept.skip(kept.len() - MAX_QUEUE_ENTRIES);
        assert forall|k: int| 0 <= k < p.len() implies p[k] == kept[k + kept.len() - MAX_QUEUE_ENTRIES] by {}
        assert forall|a: int, b: int| 0 <= a < b < p.len() implies #[trigger] p[a] < #[trigger] p[b] by {
            assert(p[a] == kept[a + kept.len() - MAX_QUEUE_ENTRIES]);
            assert(p[b] == kept[b + kept.len() - MAX_QUEUE_ENTRIES]);
        }
    }
}

} // verus!
