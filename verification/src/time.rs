//! Points in time, held as plain values: whole seconds since the Unix epoch and
//! the nanoseconds within that second (the fields `chrono` exposes of a UTC time).
use chrono::{DateTime, TimeDelta};
use vstd::prelude::*;

verus! {

/// A UTC point in time: `secs` seconds after the Unix epoch plus `nanos` nanoseconds.
#[derive(Copy, Clone, Debug, PartialEq, Eq, Structural)]
pub struct Timestamp {
    pub secs: i64,
    pub nanos: u32,
}

/// Whether `a` is not later than `b`: the order of their true times.
pub open spec fn spec_at_or_before(a: Timestamp, b: Timestamp) -> bool {
    a.secs < b.secs || (a.secs == b.secs && a.nanos <= b.nanos)
}

/// What `chrono` gives for the time `ms` milliseconds after (`secs`, `nanos`):
/// `DateTime::from_timestamp` followed by `checked_add_signed`, `None` out of range.
pub uninterp spec fn time_plus_millis(secs: i64, nanos: u32, ms: i64) -> Option<Timestamp>;

/// `t` moved `ms` milliseconds on by `chrono`'s `DateTime::checked_add_signed`
/// (`None` where `t` or the result is outside `chrono`'s range).
/// `TimeDelta::milliseconds` panics only on `i64::MIN`, which `requires` leaves out.
#[verifier::external_body]
pub(crate) fn checked_plus_millis(t: Timestamp, ms: i64) -> (r: Option<Timestamp>)
    requires
        ms > i64::MIN,
    ensures
        r == time_plus_millis(t.secs, t.nanos, ms),
{
    match DateTime::from_timestamp(t.secs, t.nanos) {
        Some(start) => match start.checked_add_signed(TimeDelta::milliseconds(ms)) {
            Some(end) => Some(Timestamp { secs: end.timestamp(), nanos: end.timestamp_subsec_nanos() }),
            None => None,
        },
        None => None,
    }
}

impl Timestamp {
    /// The Unix epoch, the default time.
    pub fn epoch() -> (r: Self)
        ensures
            r.secs == 0 && r.nanos == 0,
    {
        Timestamp { secs: 0, nanos: 0 }
    }

    /// Whether `self` is not later than `other`.
    pub fn at_or_before(&self, other: &Timestamp) -> (r: bool)
        ensures
            r == spec_at_or_before(*self, *other),
    {
        self.secs < other.secs || (self.secs == other.secs && self.nanos <= other.nanos)
    }
}

} // verus!
