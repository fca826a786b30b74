//! The tick clock: the sole heartbeat of the simulation. The shell
//! measures elapsed wall time and asks the clock whether a tick fires;
//! the counter advances exactly once per fired tick.
use vstd::prelude::*;

use crate::config::TICK_RATE;

verus! {

/// A monotonically increasing tick counter driven by elapsed time.
pub struct TickClock {
    pub tick: u64,
}

impl TickClock {
    pub fn new() -> (c: TickClock)
        ensures
            c.tick == 0,
    {
        TickClock { tick: 0 }
    }

    /// A tick fires exactly when a full tick period has elapsed; the
    /// counter then advances by exactly one and the new value is
    /// reported for broadcast.
    pub fn on_elapsed(&mut self, elapsed_ms: u64) -> (fired: Option<u64>)
        requires
            old(self).tick < u64::MAX,
        ensures
            elapsed_ms >= TICK_RATE ==> final(self).tick == old(self).tick + 1 && fired == Some(
                final(self).tick,
            ),
            elapsed_ms < TICK_RATE ==> *final(self) == *old(self) && fired is None,
    {
        if elapsed_ms >= TICK_RATE {
            self.tick = self.tick + 1;
            Some(self.tick)
        } else {
            None
        }
    }
}

} // verus!
