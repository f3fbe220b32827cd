//! The timing log: notes on what happened, in the order in which they were
//! made.

use vstd::prelude::*;
use crate::engine::events::TimingLogEvent;

verus! {

pub struct Timing {
    pub log: Vec<TimingLogEvent>,
}

impl Timing {
    /// An empty log.
    pub fn new() -> (timing: Timing)
        ensures
            timing.log@.len() == 0,
    {
        Timing { log: Vec::new() }
    }

    /// Adds a note at the end of the log.
    pub fn add(&mut self, note: TimingLogEvent)
        ensures
            final(self).log@ == old(self).log@.push(note),
    {
        self.log.push(note);
    }
}

} // verus!
