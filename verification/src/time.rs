//! Frame clock: turns a pair of consecutive timestamps into a frame delta.
//!
//! The clock stores the timestamp of the previous tick, in nanoseconds.
//! Each tick takes the current timestamp, returns the distance to the
//! previous one, and remembers the new timestamp. The delta is never zero:
//! when two ticks land on the same timestamp (clock resolution below tick
//! granularity) the smallest positive value is substituted, so that a
//! frames-per-second reciprocal computed from the delta is always finite.

use vstd::prelude::*;

verus! {

/// A frame clock owned by its caller. The caller samples a monotonic (or
/// even non-monotonic) time source and hands each sample to `update_delta`.
pub struct Clock {
    /// Timestamp of the previous tick, in nanoseconds.
    previous_nanos: u64,
}

impl Clock {
    /// Distance between two timestamps, never negative.
    pub open spec fn abs_diff(a: int, b: int) -> int {
        if a >= b {
            a - b
        } else {
            b - a
        }
    }

    /// The delta a tick reports: the distance between the two timestamps,
    /// or the smallest positive duration when that distance is zero.
    pub open spec fn delta_spec(now: int, previous: int) -> int {
        if Self::abs_diff(now, previous) == 0 {
            1
        } else {
            Self::abs_diff(now, previous)
        }
    }

    /// The timestamp the clock currently remembers.
    pub closed spec fn previous(self) -> int {
        self.previous_nanos as int
    }

    /// Makes a clock whose first delta is measured against `now_nanos`.
    pub fn new(now_nanos: u64) -> (clock: Clock)
        ensures
            clock.previous() == now_nanos as int,
    {
        Clock { previous_nanos: now_nanos }
    }

    /// One tick: returns the (strictly positive) delta since the previous
    /// tick and remembers `now_nanos` for the next one.
    pub fn update_delta(&mut self, now_nanos: u64) -> (delta: u64)
        ensures
            delta as int == Self::delta_spec(now_nanos as int, old(self).previous()),
            delta >= 1,
            final(self).previous() == now_nanos as int,
    {
        let delta: u64 = if now_nanos >= self.previous_nanos {
            now_nanos - self.previous_nanos
        } else {
            self.previous_nanos - now_nanos
        };
        self.previous_nanos = now_nanos;
        if delta == 0 {
            1
        } else {
            delta
        }
    }
}

} // verus!
