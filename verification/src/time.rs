//! Instants on the UTC time line, and the arithmetic the session clock needs.

use vstd::prelude::*;

verus! {

/// Nanoseconds in one second.
pub const NANOS_PER_SEC: i128 = 1_000_000_000;

/// Nanoseconds in one minute.
pub const NANOS_PER_MIN: i128 = 60_000_000_000;

/// An instant: whole seconds since 1970-01-01T00:00:00Z, and the nanoseconds
/// that have passed since that second began.
#[derive(Clone, Copy, Debug, PartialEq, Eq, Structural)]
pub struct Timestamp {
    pub secs: i64,
    pub nanos: u32,
}

impl View for Timestamp {
    type V = int;

    /// The instant as a count of nanoseconds since the epoch.
    open spec fn view(&self) -> int {
        self.secs as int * 1_000_000_000 + self.nanos as int
    }
}

/// Whether more than `timeout_mins` whole minutes lie between `since` and
/// `now`, both given in nanoseconds. An instant that is not yet past
/// (`now <= since`) is never idle.
pub open spec fn idle_longer_than(since: int, now: int, timeout_mins: nat) -> bool {
    now - since > timeout_mins * 60_000_000_000
}

/// Reads the system clock through `chrono::Utc::now`, and takes the instant
/// apart with `DateTime::timestamp` and `DateTime::timestamp_subsec_nanos`.
/// Nothing is claimed of the instant: two readings may come back in either
/// order if the system clock is set between them.
#[verifier::external_body]
fn utc_now() -> (t: Timestamp) {
    let now = chrono::Utc::now();
    Timestamp { secs: now.timestamp(), nanos: now.timestamp_subsec_nanos() }
}

impl Timestamp {
    /// The instant `nanos` nanoseconds after the start of second `secs`.
    pub fn new(secs: i64, nanos: u32) -> (t: Timestamp)
        ensures
            t.secs == secs,
            t.nanos == nanos,
    {
        Timestamp { secs, nanos }
    }

    /// The current instant by the system clock.
    pub fn now() -> (t: Timestamp) {
        utc_now()
    }

    /// The instant as nanoseconds since the epoch.
    pub fn total_nanos(&self) -> (n: i128)
        ensures
            n == self@,
    {
        let secs: i128 = self.secs as i128;
        let nanos: i128 = self.nanos as i128;
        secs * NANOS_PER_SEC + nanos
    }

    /// Nanoseconds from `earlier` to `self`; negative if `earlier` is the later one.
    pub fn nanos_since(&self, earlier: &Timestamp) -> (n: i128)
        ensures
            n == self@ - earlier@,
    {
        self.total_nanos() - earlier.total_nanos()
    }

    /// Whether `self` is strictly later than `other`.
    pub fn is_after(&self, other: &Timestamp) -> (b: bool)
        ensures
            b == (self@ > other@),
    {
        self.total_nanos() > other.total_nanos()
    }

    /// Whether, at `now`, more than `timeout_mins` minutes have passed since `self`.
    pub fn idle_at(&self, now: &Timestamp, timeout_mins: u64) -> (b: bool)
        ensures
            b == idle_longer_than(self@, now@, timeout_mins as nat),
    {
        let limit: i128 = (timeout_mins as i128) * NANOS_PER_MIN;
        now.nanos_since(self) > limit
    }
}

} // verus!
