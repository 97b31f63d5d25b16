//! The settings of a simulation, checked once before anything runs.

use vstd::prelude::*;

verus! {

/// The settings of a simulation, as plain values.
pub struct Settings {
    /// How many processes a chain takes at most.
    pub buffer_size: nat,
    /// Arrival intervals are drawn from `min_arrival_interval` up to, but
    /// not including, `max_arrival_interval`.
    pub min_arrival_interval: nat,
    pub max_arrival_interval: nat,
    /// Service times are drawn from `min_service_time` up to, but not
    /// including, `max_service_time`.
    pub min_service_time: nat,
    pub max_service_time: nat,
    /// How many processes arrive in all.
    pub process_count: nat,
}

impl Settings {
    /// A chain takes at least one process, both ranges hold at least one
    /// number, and at least one process arrives.
    pub open spec fn valid(self) -> bool {
        &&& self.buffer_size > 0
        &&& self.min_arrival_interval < self.max_arrival_interval
        &&& self.min_service_time < self.max_service_time
        &&& self.process_count > 0
    }
}

/// Why settings were refused.
#[derive(Debug, Clone, Copy, PartialEq, Eq, Structural)]
pub enum ConfigError {
    /// The buffer size is zero: no chain could ever take a process.
    ZeroBufferSize,
    /// No arrival interval can be drawn: the range is empty.
    EmptyArrivalRange,
    /// No service time can be drawn: the range is empty.
    EmptyServiceRange,
    /// No process would ever arrive.
    ZeroProcessCount,
}

/// Settings that were checked: whoever holds a value of this type holds
/// valid settings.
#[derive(Debug, Clone, Copy)]
pub struct SimulationConfig {
    buffer_size: usize,
    min_arrival_interval: u64,
    max_arrival_interval: u64,
    min_service_time: u64,
    max_service_time: u64,
    process_count: usize,
}

impl View for SimulationConfig {
    type V = Settings;

    closed spec fn view(&self) -> Settings {
        Settings {
            buffer_size: self.buffer_size as nat,
            min_arrival_interval: self.min_arrival_interval as nat,
            max_arrival_interval: self.max_arrival_interval as nat,
            min_service_time: self.min_service_time as nat,
            max_service_time: self.max_service_time as nat,
            process_count: self.process_count as nat,
        }
    }
}

impl SimulationConfig {
    #[verifier::type_invariant]
    spec fn checked(self) -> bool {
        self@.valid()
    }

    /// Checks the settings and keeps them if they are valid. The buffer
    /// size is checked first, then the arrival range, the service range and
    /// the process count; the first fault found is the one reported.
    pub fn new(
        buffer_size: usize,
        min_arrival_interval: u64,
        max_arrival_interval: u64,
        min_service_time: u64,
        max_service_time: u64,
        process_count: usize,
    ) -> (result: Result<Self, ConfigError>)
        ensures
            match result {
                Ok(config) => {
                    &&& config@.valid()
                    &&& config@ == (Settings {
                        buffer_size: buffer_size as nat,
                        min_arrival_interval: min_arrival_interval as nat,
                        max_arrival_interval: max_arrival_interval as nat,
                        min_service_time: min_service_time as nat,
                        max_service_time: max_service_time as nat,
                        process_count: process_count as nat,
                    })
                },
                Err(ConfigError::ZeroBufferSize) => buffer_size == 0,
                Err(ConfigError::EmptyArrivalRange) => {
                    &&& buffer_size > 0
                    &&& min_arrival_interval >= max_arrival_interval
                },
                Err(ConfigError::EmptyServiceRange) => {
                    &&& buffer_size > 0
                    &&& min_arrival_interval < max_arrival_interval
                    &&& min_service_time >= max_service_time
                },
                Err(ConfigError::ZeroProcessCount) => {
                    &&& buffer_size > 0
                    &&& min_arrival_interval < max_arrival_interval
                    &&& min_service_time < max_service_time
                    &&& process_count == 0
                },
            },
    {
        if buffer_size == 0 {
            Err(ConfigError::ZeroBufferSize)
        } else if min_arrival_interval >= max_arrival_interval {
            Err(ConfigError::EmptyArrivalRange)
        } else if min_service_time >= max_service_time {
            Err(ConfigError::EmptyServiceRange)
        } else if process_count == 0 {
            Err(ConfigError::ZeroProcessCount)
        } else {
            Ok(
                SimulationConfig {
                    buffer_size,
                    min_arrival_interval,
                    max_arrival_interval,
                    min_service_time,
                    max_service_time,
                    process_count,
                },
            )
        }
    }

    /// How many processes a chain takes at most; never zero.
    pub fn buffer_size(&self) -> (size: usize)
        ensures
            size == self@.buffer_size,
            size > 0,
    {
        proof {
            use_type_invariant(self);
        }
        self.buffer_size
    }

    /// The range of arrival intervals, lower bound first; never empty.
    pub fn arrival_range(&self) -> (range: (u64, u64))
        ensures
            range.0 == self@.min_arrival_interval,
            range.1 == self@.max_arrival_interval,
            range.0 < range.1,
    {
        proof {
            use_type_invariant(self);
        }
        (self.min_arrival_interval, self.max_arrival_interval)
    }

    /// The range of service times, lower bound first; never empty.
    pub fn service_range(&self) -> (range: (u64, u64))
        ensures
            range.0 == self@.min_service_time,
            range.1 == self@.max_service_time,
            range.0 < range.1,
    {
        proof {
            use_type_invariant(self);
        }
        (self.min_service_time, self.max_service_time)
    }

    /// How many processes arrive in all; never zero.
    pub fn process_count(&self) -> (count: usize)
        ensures
            count == self@.process_count,
            count > 0,
    {
        proof {
            use_type_invariant(self);
        }
        self.process_count
    }
}

} // verus!
