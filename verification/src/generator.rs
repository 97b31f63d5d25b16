//! The generator: it decides when the next process arrives and how long it
//! will take to service, until the configured number has arrived.

use crate::config::SimulationConfig;
use crate::process::CPUProcess;
use crate::random::random_in_range;
use vstd::prelude::*;

verus! {

/// One arrival: how long to wait before it, and the process that arrives.
#[derive(Debug, Clone, Copy, PartialEq, Eq, Structural)]
pub struct Arrival {
    pub wait: u64,
    pub process: CPUProcess,
}

/// A generator as plain values.
pub struct GeneratorState {
    /// How many processes are still to arrive.
    pub remaining: nat,
    pub min_arrival_interval: nat,
    pub max_arrival_interval: nat,
    pub min_service_time: nat,
    pub max_service_time: nat,
}

impl GeneratorState {
    /// The generator is finished when nothing is left to arrive. It then
    /// stays finished: this is when completion is signalled, once.
    pub open spec fn finished(self) -> bool {
        self.remaining == 0
    }

    /// The state after one more arrival.
    pub open spec fn after_arrival(self) -> GeneratorState {
        GeneratorState {
            remaining: (self.remaining - 1) as nat,
            min_arrival_interval: self.min_arrival_interval,
            max_arrival_interval: self.max_arrival_interval,
            min_service_time: self.min_service_time,
            max_service_time: self.max_service_time,
        }
    }

    /// `arrival` is one this generator may produce: its wait and its
    /// service time lie in their ranges.
    pub open spec fn admits(self, arrival: Arrival) -> bool {
        &&& self.min_arrival_interval <= arrival.wait < self.max_arrival_interval
        &&& self.min_service_time <= arrival.process.interval < self.max_service_time
    }
}

/// The generator of a simulation. It runs until the configured number of
/// processes has arrived and is finished from then on.
pub struct Generator {
    remaining: usize,
    min_arrival_interval: u64,
    max_arrival_interval: u64,
    min_service_time: u64,
    max_service_time: u64,
}

impl View for Generator {
    type V = GeneratorState;

    closed spec fn view(&self) -> GeneratorState {
        GeneratorState {
            remaining: self.remaining as nat,
            min_arrival_interval: self.min_arrival_interval as nat,
            max_arrival_interval: self.max_arrival_interval as nat,
            min_service_time: self.min_service_time as nat,
            max_service_time: self.max_service_time as nat,
        }
    }
}

impl Generator {
    #[verifier::type_invariant]
    spec fn ranges_hold_a_number(self) -> bool {
        &&& self.min_arrival_interval < self.max_arrival_interval
        &&& self.min_service_time < self.max_service_time
    }

    /// A generator for the given settings, with all processes still to
    /// arrive.
    pub fn new(config: &SimulationConfig) -> (generator: Self)
        ensures
            generator@ == (GeneratorState {
                remaining: config@.process_count,
                min_arrival_interval: config@.min_arrival_interval,
                max_arrival_interval: config@.max_arrival_interval,
                min_service_time: config@.min_service_time,
                max_service_time: config@.max_service_time,
            }),
    {
        let arrival = config.arrival_range();
        let service = config.service_range();
        Generator {
            remaining: config.process_count(),
            min_arrival_interval: arrival.0,
            max_arrival_interval: arrival.1,
            min_service_time: service.0,
            max_service_time: service.1,
        }
    }

    /// Whether every process has arrived.
    pub fn is_finished(&self) -> (finished: bool)
        ensures
            finished == self@.finished(),
    {
        self.remaining == 0
    }

    /// How many processes are still to arrive.
    pub fn remaining(&self) -> (remaining: usize)
        ensures
            remaining == self@.remaining,
    {
        self.remaining
    }

    /// The arrival made of a wait and a service time that were drawn, or
    /// `None` once the generator is finished.
    ///
    /// While processes are left, the arrival carries the two numbers as
    /// they are and one process fewer is left. A finished generator
    /// produces nothing and stays as it is.
    pub fn arrival_of(&mut self, wait: u64, service: u64) -> (arrival: Option<Arrival>)
        ensures
            match arrival {
                Some(a) => {
                    &&& !old(self)@.finished()
                    &&& a == (Arrival { wait, process: CPUProcess { interval: service } })
                    &&& final(self)@ == old(self)@.after_arrival()
                },
                None => {
                    &&& old(self)@.finished()
                    &&& final(self)@ == old(self)@
                },
            },
    {
        proof {
            use_type_invariant(&*self);
        }
        if self.remaining == 0 {
            return None;
        }
        self.remaining = self.remaining - 1;
        Some(Arrival { wait, process: CPUProcess::new(service) })
    }

    /// The next arrival, or `None` once the generator is finished.
    ///
    /// While processes are left, one is produced: the wait before it and its
    /// service time are drawn at random, each from its range, and one
    /// process fewer is left. Which numbers are drawn is left to chance.
    /// A finished generator produces nothing and stays as it is.
    pub fn next_arrival(&mut self) -> (arrival: Option<Arrival>)
        ensures
            match arrival {
                Some(a) => {
                    &&& !old(self)@.finished()
                    &&& old(self)@.admits(a)
                    &&& final(self)@ == old(self)@.after_arrival()
                },
                None => {
                    &&& old(self)@.finished()
                    &&& final(self)@ == old(self)@
                },
            },
    {
        proof {
            use_type_invariant(&*self);
        }
        if self.remaining == 0 {
            return None;
        }
        let wait: u64 = random_in_range(self.min_arrival_interval, self.max_arrival_interval);
        let service: u64 = random_in_range(self.min_service_time, self.max_service_time);
        self.arrival_of(wait, service)
    }
}

} // verus!
