//! Points in time, as seconds and nanoseconds since 1970-01-01 00:00:00 UTC.

use vstd::prelude::*;

verus! {

/// The number of seconds in seven days.
pub const WEEK_SECS: i64 = 7 * 24 * 3600;

/// The latest second that the clock can report: the last second of the year
/// 262142.
pub const MAX_CLOCK_SECS: i64 = 8_210_266_876_799;

/// A point in time: whole seconds since the epoch, and the nanoseconds past
/// that second.
#[derive(Clone, Copy, PartialEq, Eq, Structural, Debug)]
pub struct Timestamp {
    pub secs: i64,
    pub nanos: u32,
}

impl Timestamp {
    /// `self` is later than `other`: by the seconds first, then by the
    /// nanoseconds.
    pub open spec fn later_than(self, other: Timestamp) -> bool {
        self.secs > other.secs || (self.secs == other.secs && self.nanos > other.nanos)
    }

    /// Whether `self` is later than `other`.
    pub fn is_after(&self, other: &Timestamp) -> (b: bool)
        ensures
            b == self.later_than(*other),
    {
        self.secs > other.secs || (self.secs == other.secs && self.nanos > other.nanos)
    }

    /// The point in time `seconds` after `self`.
    pub fn plus_seconds(&self, seconds: i64) -> (t: Timestamp)
        requires
            i64::MIN <= self.secs + seconds <= i64::MAX,
        ensures
            t.secs == self.secs + seconds,
            t.nanos == self.nanos,
    {
        Timestamp { secs: self.secs + seconds, nanos: self.nanos }
    }
}

/// Reads the clock with `chrono::Utc::now` and splits the result with
/// `DateTime::timestamp` and `DateTime::timestamp_subsec_nanos`. The clock
/// reports no time before the epoch and none past the year 262142, and fewer
/// than a thousand million nanoseconds; which time it reports is left open.
#[verifier::external_body]
pub(crate) fn now() -> (t: Timestamp)
    ensures
        0 <= t.secs <= MAX_CLOCK_SECS,
        t.nanos < 1_000_000_000,
{
    let t = chrono::Utc::now();
    Timestamp { secs: t.timestamp(), nanos: t.timestamp_subsec_nanos() }
}

/// Formats the local time of the machine with `chrono::Local::now` and
/// `DateTime::format` as `%Y-%m-%d_%H-%M-%S`. The text depends on the clock
/// and on the machine's time zone, so nothing is claimed of it.
#[verifier::external_body]
pub(crate) fn local_stamp() -> (s: String) {
    chrono::Local::now().format("%Y-%m-%d_%H-%M-%S").to_string()
}

} // verus!
