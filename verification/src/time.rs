//! Points in time, as `chrono::DateTime<Utc>` holds them: whole seconds since
//! the Unix epoch and nanoseconds within the second.
use vstd::prelude::*;

verus! {

/// The earliest second `chrono` can represent (1 January of year -262143).
pub const MIN_TIMESTAMP_SECS: i64 = -8334601315200i64;

/// The latest second `chrono` can represent (31 December of year 262142).
pub const MAX_TIMESTAMP_SECS: i64 = 8210266876799i64;

/// The largest number of seconds in a `chrono::TimeDelta` built from whole
/// seconds (`i64::MAX` milliseconds, rounded down to seconds).
pub const MAX_DELTA_SECS: i64 = 9223372036854775i64;

/// A point in time: seconds since 1970-01-01T00:00:00Z and the nanoseconds
/// within that second.
#[derive(Debug, Clone, Copy, PartialEq, Eq, Structural)]
pub struct Timestamp {
    pub secs: i64,
    pub nanos: u32,
}

impl Timestamp {
    /// The time lies in `chrono`'s range, and the nanoseconds are below one
    /// second.
    pub open spec fn wf(self) -> bool {
        MIN_TIMESTAMP_SECS <= self.secs <= MAX_TIMESTAMP_SECS && self.nanos < 1_000_000_000
    }

    /// `self` is strictly earlier than `other`.
    pub open spec fn earlier(self, other: Timestamp) -> bool {
        self.secs < other.secs || (self.secs == other.secs && self.nanos < other.nanos)
    }

    /// The point in time with the given seconds and nanoseconds, if it is
    /// one that `chrono` can represent.
    pub fn new(secs: i64, nanos: u32) -> (r: Option<Timestamp>)
        ensures
            r matches Some(t) ==> t.wf() && t.secs == secs && t.nanos == nanos,
            r is None ==> !(Timestamp { secs, nanos }).wf(),
    {
        if MIN_TIMESTAMP_SECS <= secs && secs <= MAX_TIMESTAMP_SECS && nanos < 1_000_000_000 {
            Some(Timestamp { secs, nanos })
        } else {
            None
        }
    }

    /// Whether `self` is strictly earlier than `other`.
    pub fn is_earlier_than(&self, other: &Timestamp) -> (r: bool)
        ensures
            r == self.earlier(*other),
    {
        self.secs < other.secs || (self.secs == other.secs && self.nanos < other.nanos)
    }
}

/// `chrono::Utc::now`. Its contract: a time at or after the epoch, in
/// `chrono`'s range (`Utc::now` panics when the system clock reads before
/// 1970, so every time it returns is one); which time is not stated.
#[verifier::external_body]
pub(crate) fn current_time() -> (r: Timestamp)
    ensures
        r.wf(),
        r.secs >= 0,
{
    let now = chrono::Utc::now();
    Timestamp { secs: now.timestamp(), nanos: now.timestamp_subsec_nanos() }
}

/// What `DateTime::to_rfc3339` writes for a time.
pub uninterp spec fn rfc3339(secs: i64, nanos: u32) -> Seq<char>;

/// `chrono::DateTime::<Utc>::to_rfc3339`. Its contract: the text is `rfc3339`
/// of the time; its format is not stated.
#[verifier::external_body]
pub(crate) fn format_rfc3339(t: &Timestamp) -> (r: String)
    requires
        t.wf(),
    ensures
        r@ == rfc3339(t.secs, t.nanos),
{
    chrono::DateTime::from_timestamp(t.secs, t.nanos).unwrap().to_rfc3339()
}

/// `t + TimeDelta::hours(hours)` is defined: the hours make a valid
/// `TimeDelta`, and the sum stays in `chrono`'s range.
pub open spec fn hours_addable(t: Timestamp, hours: i64) -> bool {
    &&& -MAX_DELTA_SECS <= hours * 3600 <= MAX_DELTA_SECS
    &&& MIN_TIMESTAMP_SECS <= t.secs + hours * 3600 <= MAX_TIMESTAMP_SECS
}

/// Whether `hours` hours can be added to `t`.
pub fn can_add_hours(t: &Timestamp, hours: i64) -> (r: bool)
    ensures
        r == hours_addable(*t, hours),
{
    if hours < -(MAX_DELTA_SECS / 3600) || hours > MAX_DELTA_SECS / 3600 {
        return false;
    }
    let delta = hours * 3600;
    let secs = t.secs as i128 + delta as i128;
    MIN_TIMESTAMP_SECS as i128 <= secs && secs <= MAX_TIMESTAMP_SECS as i128
}

/// `t` plus a number of hours.
pub fn add_hours(t: &Timestamp, hours: i64) -> (r: Timestamp)
    requires
        t.wf(),
        hours_addable(*t, hours),
    ensures
        r.wf(),
        r.secs == t.secs + hours * 3600,
        r.nanos == t.nanos,
{
    Timestamp { secs: t.secs + hours * 3600, nanos: t.nanos }
}

} // verus!
