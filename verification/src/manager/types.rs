//! Points in time.
use vstd::prelude::*;

verus! {

/// Milliseconds since the protocol was opened, on this peer's clock.
#[derive(Debug, Clone, Copy, PartialEq, Eq, Structural)]
pub struct Timestamp(pub u64);

impl Timestamp {
    /// Moves the timestamp to `now`.
    pub fn set_again(&mut self, now: Timestamp)
        ensures
            *final(self) == now,
    {
        *self = now;
    }

    /// Whether more than `millis` milliseconds lie between the timestamp and `now`.
    pub fn been_longer_than(&self, millis: u64, now: Timestamp) -> (r: bool)
        ensures
            r == self.older_than(millis, now),
    {
        now.0 > self.0 && now.0 - self.0 > millis
    }

    /// Whether more than `millis` milliseconds lie between the timestamp and `now`.
    pub open spec fn older_than(self, millis: u64, now: Timestamp) -> bool {
        now.0 - self.0 > millis
    }

    /// The milliseconds.
    pub fn get(&self) -> (ms: u64)
        ensures
            ms == self.0,
    {
        self.0
    }

    /// Milliseconds from `earlier` to the timestamp; zero if it is not later, and at
    /// most what a `u32` holds.
    pub open spec fn since(self, earlier: Timestamp) -> u32 {
        if self.0 <= earlier.0 {
            0
        } else if self.0 - earlier.0 > u32::MAX {
            u32::MAX
        } else {
            (self.0 - earlier.0) as u32
        }
    }

    /// Milliseconds from `earlier` to the timestamp; zero if it is not later, and at
    /// most what a `u32` holds.
    pub fn millis_since(&self, earlier: Timestamp) -> (ms: u32)
        ensures
            ms == self.since(earlier),
    {
        let delta: u64 = self.0.saturating_sub(earlier.0);
        if delta > u32::MAX as u64 {
            u32::MAX
        } else {
            delta as u32
        }
    }
}

/// The last point in time that a peer reported, on that peer's clock.
#[derive(Debug, Clone, Copy, PartialEq, Eq, Structural)]
pub struct ForeignTimestamp(u64);

impl ForeignTimestamp {
    /// The milliseconds.
    pub closed spec fn spec_get(self) -> u64 {
        self.0
    }

    /// A timestamp of `value` milliseconds.
    pub fn new(value: u64) -> (t: Self)
        ensures
            t.spec_get() == value,
    {
        ForeignTimestamp(value)
    }

    /// Moves the timestamp to `value` milliseconds.
    pub fn update(&mut self, value: u64)
        ensures
            final(self).spec_get() == value,
    {
        self.0 = value;
    }

    /// The milliseconds.
    pub fn get(&self) -> (ms: u64)
        ensures
            ms == self.spec_get(),
    {
        self.0
    }

    /// The same point in time as a plain timestamp.
    pub fn to_timestamp(&self) -> (t: Timestamp)
        ensures
            t.0 == self.spec_get(),
    {
        Timestamp(self.0)
    }
}

impl Default for ForeignTimestamp {
    fn default() -> (t: Self)
        ensures
            t.spec_get() == 0,
    {
        ForeignTimestamp(0)
    }
}

/// Time is measured from the earlier point to the later one, as far as the number can hold it,
/// and a point is older than a time once more than that has passed.
pub proof fn time_is_measured(earlier: Timestamp, later: Timestamp, millis: u64)
    requires
        earlier.0 <= later.0,
    ensures
        later.0 - earlier.0 <= u32::MAX ==> later.since(earlier) == later.0 - earlier.0,
        later.0 - earlier.0 > u32::MAX ==> later.since(earlier) == u32::MAX,
        earlier.since(later) == 0,
        earlier.older_than(millis, later) <==> later.0 > earlier.0 + millis,
        !later.older_than(millis, earlier),
{
}

} // verus!
