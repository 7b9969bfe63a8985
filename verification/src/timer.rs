//! Lap timing over a clock that counts microseconds since start-up.

use vstd::prelude::*;

verus! {

/// Remembers the clock reading of the last lap.
pub struct Timer {
    start: u64,
}

impl Timer {
    /// The clock reading, in microseconds, that the next lap is measured
    /// from.
    pub closed spec fn lap_start(self) -> u64 {
        self.start
    }

    /// The clock reading that the next lap is measured from.
    pub fn started_at(&self) -> (reading: u64)
        ensures
            reading == self.lap_start(),
    {
        self.start
    }

    /// Starts timing at the clock reading `now`.
    pub fn new(now: u64) -> (timer: Self)
        ensures
            timer.lap_start() == now,
    {
        Self { start: now }
    }

    /// Ends a lap at the clock reading `now`: returns the microseconds
    /// since the last lap ended, and starts the next lap at `now`. The
    /// clock does not run backwards.
    pub fn elapsed(&mut self, now: u64) -> (lap: u64)
        requires
            old(self).lap_start() <= now,
        ensures
            lap == now - old(self).lap_start(),
            final(self).lap_start() == now,
    {
        let lap: u64 = now - self.start;
        self.start = now;
        lap
    }
}

} // verus!
