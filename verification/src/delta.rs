//! The edge detector.

use vstd::prelude::*;

verus! {

/// Remembers the previous phase and reports how far the phase moved.
pub struct Delta {
    previous: u32,
}

impl Delta {
    /// The phase seen by the last call of `process`, 0 before the first.
    pub closed spec fn previous(&self) -> int {
        self.previous as int
    }

    /// A detector that has seen phase 0.
    pub fn new() -> (delta: Delta)
        ensures
            delta.previous() == 0,
    {
        Delta { previous: 0 }
    }

    /// Returns `phase` minus the phase of the previous call, and remembers
    /// `phase`. A negative result marks the start of a new cycle.
    pub fn process(&mut self, phase: u32) -> (delta: i64)
        ensures
            delta == phase - old(self).previous(),
            final(self).previous() == phase,
    {
        let delta: i64 = phase as i64 - self.previous as i64;
        self.previous = phase;
        delta
    }
}

} // verus!
