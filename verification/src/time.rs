//! Lengths and points of time as whole nanoseconds.

use vstd::prelude::*;

verus! {

/// Nanoseconds in one second.
pub const NANOS_PER_SEC: u128 = 1_000_000_000;

/// The last nanosecond that the monotonic clock can represent: signed 64-bit
/// seconds and their nanoseconds.
pub const INSTANT_MAX_NANOS: u128 = 9_223_372_036_854_775_807_999_999_999;

/// A length of time.
#[derive(Clone, Copy, Debug, PartialEq, Eq, PartialOrd, Ord, Hash, Structural)]
pub struct Duration {
    pub nanos: u128,
}

impl Duration {
    /// A length of `secs` whole seconds.
    pub fn from_secs(secs: u64) -> (r: Self)
        ensures
            r.nanos == secs * NANOS_PER_SEC,
    {
        Self { nanos: secs as u128 * NANOS_PER_SEC }
    }

    /// A length of `millis` whole milliseconds.
    pub fn from_millis(millis: u64) -> (r: Self)
        ensures
            r.nanos == millis * 1_000_000,
    {
        Self { nanos: millis as u128 * 1_000_000 }
    }

    /// A length of `nanos` nanoseconds.
    pub fn from_nanos(nanos: u128) -> (r: Self)
        ensures
            r.nanos == nanos,
    {
        Self { nanos }
    }

    /// Whether the length is zero.
    pub fn is_zero(self) -> (r: bool)
        ensures
            r == (self.nanos == 0),
    {
        self.nanos == 0
    }
}

/// A point of time on the monotonic clock, from its start.
#[derive(Clone, Copy, Debug, PartialEq, Eq, PartialOrd, Ord, Hash, Structural)]
pub struct Instant {
    pub nanos: u128,
}

impl Instant {
    /// Whether the clock can represent the point `length` after this one.
    pub open spec fn reaches(self, length: Duration) -> bool {
        self.nanos + length.nanos <= INSTANT_MAX_NANOS
    }

    /// The point `length` after this one.
    pub open spec fn after(self, length: Duration) -> Instant {
        Instant { nanos: (self.nanos + length.nanos) as u128 }
    }

    /// Returns the point `length` after this one, or `None` beyond the
    /// clock's range.
    pub fn checked_add(self, length: Duration) -> (r: Option<Instant>)
        ensures
            r == (if self.reaches(length) {
                Some(self.after(length))
            } else {
                None
            }),
    {
        match self.nanos.checked_add(length.nanos) {
            Some(nanos) => if nanos <= INSTANT_MAX_NANOS {
                Some(Instant { nanos })
            } else {
                None
            },
            None => None,
        }
    }

    /// Returns the time from `earlier` to this point, or zero when `earlier`
    /// is the later one.
    pub fn saturating_duration_since(self, earlier: Instant) -> (r: Duration)
        ensures
            r.nanos == (if self.nanos >= earlier.nanos {
                self.nanos - earlier.nanos
            } else {
                0
            }),
    {
        if self.nanos >= earlier.nanos {
            Duration { nanos: self.nanos - earlier.nanos }
        } else {
            Duration { nanos: 0 }
        }
    }
}

/// A point of time on the wall clock, from the start of 1970 in UTC.
#[derive(Clone, Copy, Debug, PartialEq, Eq, PartialOrd, Ord, Hash, Structural)]
pub struct SystemTime {
    pub nanos: i128,
}

impl SystemTime {
    /// Whether the clock can represent `length` and the point after it.
    pub open spec fn reaches(self, length: Duration) -> bool {
        length.nanos <= INSTANT_MAX_NANOS && self.nanos + length.nanos <= INSTANT_MAX_NANOS
    }

    /// The last whole second at or before this point; a point before 1970
    /// stays as it is.
    pub open spec fn floored(self) -> SystemTime {
        if self.nanos >= 0 {
            SystemTime { nanos: (self.nanos - (self.nanos as int) % (NANOS_PER_SEC as int)) as i128 }
        } else {
            self
        }
    }

    /// The point `secs` whole seconds after the start of 1970.
    pub fn from_unix_secs(secs: u64) -> (r: Self)
        ensures
            r.nanos == secs * NANOS_PER_SEC,
    {
        SystemTime { nanos: secs as i128 * 1_000_000_000 }
    }

    /// Returns the point `length` after this one, or `None` beyond the
    /// clock's range.
    pub fn checked_add(self, length: Duration) -> (r: Option<SystemTime>)
        ensures
            r == (if self.reaches(length) {
                Some(SystemTime { nanos: (self.nanos + length.nanos) as i128 })
            } else {
                None
            }),
    {
        if length.nanos > INSTANT_MAX_NANOS {
            return None;
        }
        let limit: i128 = INSTANT_MAX_NANOS as i128;
        let added: i128 = length.nanos as i128;
        if self.nanos > limit - added {
            None
        } else {
            Some(SystemTime { nanos: self.nanos + added })
        }
    }

    /// Returns the last whole second at or before this point.
    pub fn floor_to_second(self) -> (r: SystemTime)
        ensures
            r == self.floored(),
    {
        if self.nanos >= 0 {
            SystemTime { nanos: self.nanos - self.nanos % 1_000_000_000 }
        } else {
            self
        }
    }
}

} // verus!
