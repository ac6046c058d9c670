//! Points in UTC time as the stores compare them: whole seconds since the
//! Unix epoch and a sub-second part, as `chrono::DateTime<Utc>` holds them
//! (the sub-second part reaches past one second only inside a leap second).
use vstd::prelude::*;

verus! {

/// Seconds in a day.
pub const SECS_PER_DAY: i64 = 86400;

/// Nanoseconds in a second.
pub const NANOS_PER_SEC: u32 = 1_000_000_000;

/// The earliest second that `chrono` can represent: the first of January of
/// the year -262143, in seconds since the epoch.
pub const EARLIEST_SECS: i64 = -8334601315200;

/// A point in UTC time.
#[derive(Debug, Clone, Copy, PartialEq, Eq, Structural)]
pub struct Timestamp {
    /// Whole seconds since 1970-01-01T00:00:00Z.
    pub secs: i64,
    /// Nanoseconds into the second; `1_000_000_000` and above inside a leap
    /// second.
    pub nanos: u32,
}

/// Whether `a` comes strictly before `b` (chrono's order: by second, then
/// by the sub-second part).
pub open spec fn is_before(a: Timestamp, b: Timestamp) -> bool {
    a.secs < b.secs || (a.secs == b.secs && a.nanos < b.nanos)
}

/// Whether `a` comes strictly before `b`.
pub fn before(a: Timestamp, b: Timestamp) -> (r: bool)
    ensures
        r == is_before(a, b),
{
    a.secs < b.secs || (a.secs == b.secs && a.nanos < b.nanos)
}

/// The second of `now` minus whole days, as chrono computes `now -
/// Duration::days(days)`: a leap second is first moved to the start of the
/// following second.
pub open spec fn days_before_secs(now: Timestamp, days: int) -> int {
    if now.nanos >= NANOS_PER_SEC {
        now.secs + 1 - days * SECS_PER_DAY
    } else {
        now.secs - days * SECS_PER_DAY
    }
}

/// `now` minus whole days, as chrono computes it.
pub open spec fn days_before_spec(now: Timestamp, days: int) -> Timestamp {
    Timestamp {
        secs: days_before_secs(now, days) as i64,
        nanos: if now.nanos >= NANOS_PER_SEC { (now.nanos - NANOS_PER_SEC) as u32 } else { now.nanos },
    }
}

/// `now` minus `days` whole days (chrono's `now - Duration::days(days)`).
/// chrono refuses a result before its earliest date, so such a result is
/// left out.
pub fn days_before(now: Timestamp, days: u32) -> (r: Timestamp)
    requires
        days_before_secs(now, days as int) >= EARLIEST_SECS,
        days_before_secs(now, days as int) <= i64::MAX,
    ensures
        r == days_before_spec(now, days as int),
{
    let d: i64 = days as i64 * SECS_PER_DAY;
    if now.nanos >= NANOS_PER_SEC {
        Timestamp { secs: now.secs - d + 1, nanos: now.nanos - NANOS_PER_SEC }
    } else {
        Timestamp { secs: now.secs - d, nanos: now.nanos }
    }
}

} // verus!
