//! A unit of simulated work.

use vstd::prelude::*;

verus! {

/// A unit of simulated work: it carries nothing but the time the server
/// spends on it.
#[derive(Debug, Clone, Copy, PartialEq, Eq, Structural)]
pub struct CPUProcess {
    /// Service time, in time units.
    pub interval: u64,
}

impl CPUProcess {
    /// A process that takes `interval` time units to service.
    pub fn new(interval: u64) -> (process: Self)
        ensures
            process.interval == interval,
    {
        CPUProcess { interval }
    }
}

} // verus!
