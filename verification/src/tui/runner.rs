//! The terminal interface's event loop settings.
use vstd::prelude::*;

verus! {

/// Runs the interface; redraws at least every `tick_rate_ms` milliseconds.
#[derive(Debug, Clone, Copy)]
pub struct TuiRunner {
    tick_rate_ms: u64,
}

impl TuiRunner {
    pub closed spec fn tick(&self) -> u64 {
        self.tick_rate_ms
    }

    pub fn new(tick_rate_ms: u64) -> (r: TuiRunner)
        ensures
            r.tick() == tick_rate_ms,
    {
        TuiRunner { tick_rate_ms }
    }

    /// The redraw interval in milliseconds.
    pub fn tick_rate_ms(&self) -> (ms: u64)
        ensures
            ms == self.tick(),
    {
        self.tick_rate_ms
    }
}

} // verus!
