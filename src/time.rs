use vstd::prelude::*;

verus! {

/// A point in time, as a signed count of microseconds since an arbitrary epoch.
#[derive(Clone, Copy, Debug, PartialEq, Eq, Structural)]
pub struct Instant {
    pub micros: i64,
}

/// A span of time, as an unsigned count of microseconds.
#[derive(Clone, Copy, Debug, PartialEq, Eq, Structural)]
pub struct Duration {
    pub micros: u64,
}

impl Instant {
    /// The instant `micros` microseconds after the epoch.
    pub fn from_micros(micros: i64) -> (r: Instant)
        ensures
            r.micros == micros,
    {
        Instant { micros }
    }

    /// The number of microseconds since the epoch.
    pub fn total_micros(&self) -> (r: i64)
        ensures
            r == self.micros,
    {
        self.micros
    }

    /// Whether `self + d` can be represented.
    pub open spec fn can_add(self, d: Duration) -> bool {
        self.micros + d.micros <= i64::MAX
    }

    /// The instant `d` after `self`.
    pub fn add_duration(self, d: Duration) -> (r: Instant)
        requires
            self.can_add(d),
        ensures
            r.micros == self.micros + d.micros,
    {
        Instant { micros: (self.micros as i128 + d.micros as i128) as i64 }
    }
}

impl Duration {
    /// A duration of `micros` microseconds.
    pub fn from_micros(micros: u64) -> (r: Duration)
        ensures
            r.micros == micros,
    {
        Duration { micros }
    }

    /// The number of microseconds in this duration.
    pub fn total_micros(&self) -> (r: u64)
        ensures
            r == self.micros,
    {
        self.micros
    }
}

} // verus!
