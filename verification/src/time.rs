//! Points in time and spans between them.
use vstd::prelude::*;

verus! {

/// A span of time.
#[derive(Clone, Copy, Debug, PartialEq, Eq, Structural)]
pub struct Duration {
    pub nanos: u128,
}

/// A point in time, counted from an arbitrary origin.
#[derive(Clone, Copy, Debug, PartialEq, Eq, Structural)]
pub struct Instant {
    pub nanos: u128,
}

/// A clock reading that can be subtracted from a later one.
pub trait Timestamp: Copy {
    /// The reading in nanoseconds.
    spec fn nanos_spec(self) -> int;

    /// The time since an earlier reading; none if that reading is later.
    fn since(&self, earlier: &Self) -> (r: Duration)
        ensures
            r.nanos == if self.nanos_spec() >= earlier.nanos_spec() {
                self.nanos_spec() - earlier.nanos_spec()
            } else {
                0
            },
    ;
}

impl Duration {
    pub fn from_secs(secs: u64) -> (r: Self)
        ensures
            r.nanos == secs * 1_000_000_000,
    {
        Duration { nanos: secs as u128 * 1_000_000_000 }
    }
}

impl Instant {
    /// The point in time that lies `d` after this one.
    pub fn plus(&self, d: Duration) -> (r: Self)
        requires
            self.nanos + d.nanos <= u128::MAX,
        ensures
            r.nanos == self.nanos + d.nanos,
    {
        Instant { nanos: self.nanos + d.nanos }
    }
}

impl Timestamp for Instant {
    open spec fn nanos_spec(self) -> int {
        self.nanos as int
    }

    fn since(&self, earlier: &Self) -> (r: Duration) {
        Duration { nanos: self.nanos.saturating_sub(earlier.nanos) }
    }
}

}
