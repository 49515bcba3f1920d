//! The sump sensors' debouncer: a reading must hold for a quiet period before
//! it counts, and a changed reading before the deadline starts the period
//! over.
use vstd::prelude::*;

use crate::hydro::gpio::Level;

verus! {

/// Times are in milliseconds on a monotonic clock.
pub struct SensorDebouncer {
    pub prev_reading: Level,
    pub deadline: u64,
    pub duration: u64,
}

impl SensorDebouncer {
    /// A debouncer for `level`, read at `now`.
    pub fn new(duration: u64, level: Level, now: u64) -> (r: SensorDebouncer)
        requires
            now + duration <= u64::MAX,
        ensures
            r.prev_reading == level,
            r.deadline == now + duration,
            r.duration == duration,
    {
        SensorDebouncer { prev_reading: level, deadline: now + duration, duration }
    }

    /// A new reading at `now`: a changed reading is remembered and pushes the
    /// deadline to one duration from now; the same reading changes nothing.
    pub fn reset_deadline(&mut self, new_reading: Level, now: u64)
        requires
            now + old(self).duration <= u64::MAX,
        ensures
            final(self).duration == old(self).duration,
            final(self).prev_reading == new_reading,
            final(self).deadline == if old(self).prev_reading != new_reading {
                (now + old(self).duration) as u64
            } else {
                old(self).deadline
            },
    {
        if self.prev_reading != new_reading {
            self.prev_reading = new_reading;
            self.deadline = now + self.duration;
        }
    }

    /// Whether the deadline has passed by `now`, so that a sleeper may wake.
    pub fn elapsed(&self, now: u64) -> (r: bool)
        ensures
            r == (self.deadline <= now),
    {
        self.deadline <= now
    }
}

} // verus!
