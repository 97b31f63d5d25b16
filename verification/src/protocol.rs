//! The handoff between generator and server as a whole: the steps that the
//! two take in turn on the shared buffer and the completion flag, and what
//! holds in every state that such steps can reach.
//!
//! The lock makes an insertion and an extraction one step each. Reading the
//! completion flag is a step of its own, taken by the server after it found
//! the buffer empty; the generator may insert and finish in between.

use crate::history::{lemma_conservation, total_items, BufferEvent, History};
use crate::process::CPUProcess;
use crate::server::{PollOutcome, ServerState};
use vstd::prelude::*;

verus! {

/// One step of the generator or of the server.
pub enum Step {
    /// The generator inserts a process. It does so only while processes are
    /// left to arrive.
    Arrive(CPUProcess),
    /// The generator raises the completion flag. It does so only when no
    /// process is left to arrive.
    Complete,
    /// The server polls the buffer: it takes out the head chain, or finds
    /// the buffer empty.
    Poll,
    /// The server reads the completion flag. It does so only after a poll
    /// that found the buffer empty.
    ReadFlag,
}

/// The state of a simulation.
pub struct Simulation {
    /// How many processes are still to arrive.
    pub remaining: nat,
    /// The completion flag.
    pub completed: bool,
    /// The insertions and the extractions that found a chain, in order.
    pub events: Seq<BufferEvent>,
    /// Where the server stands.
    pub server: ServerState,
    /// The server found the buffer empty and is about to read the flag.
    pub found_empty: bool,
    /// How many processes were handed to the server.
    pub serviced: nat,
}

impl Simulation {
    /// The state before the first step, with `process_count` processes to
    /// arrive.
    pub open spec fn start(process_count: nat) -> Simulation {
        Simulation {
            remaining: process_count,
            completed: false,
            events: Seq::<BufferEvent>::empty(),
            server: ServerState::Polling,
            found_empty: false,
            serviced: 0,
        }
    }

    /// The record of what happened to the buffer so far.
    pub open spec fn history(self, buffer_size: nat) -> History {
        History::of(self.events, buffer_size)
    }

    /// The state after one step. A step that its taker would not take in
    /// this state changes nothing.
    pub open spec fn after(self, step: Step, buffer_size: nat) -> Simulation {
        match step {
            Step::Arrive(process) => if self.remaining > 0 {
                Simulation {
                    remaining: (self.remaining - 1) as nat,
                    events: self.events.push(BufferEvent::Insert(process)),
                    ..self
                }
            } else {
                self
            },
            Step::Complete => if self.remaining == 0 {
                Simulation { completed: true, ..self }
            } else {
                self
            },
            Step::Poll => if self.server == ServerState::Terminated || self.found_empty {
                self
            } else if self.history(buffer_size).buffer.chains.len() > 0 {
                Simulation {
                    events: self.events.push(BufferEvent::Extract),
                    serviced: self.serviced + self.history(buffer_size).buffer.chains[0].len(),
                    ..self
                }
            } else if self.server == ServerState::Draining {
                Simulation {
                    server: self.server.next(PollOutcome::Empty { completed: self.completed }),
                    ..self
                }
            } else {
                Simulation { found_empty: true, ..self }
            },
            Step::ReadFlag => if self.found_empty {
                Simulation {
                    server: self.server.next(PollOutcome::Empty { completed: self.completed }),
                    found_empty: false,
                    ..self
                }
            } else {
                self
            },
        }
    }

    /// The state after a run of steps.
    pub open spec fn of(steps: Seq<Step>, process_count: nat, buffer_size: nat) -> Simulation
        decreases steps.len(),
    {
        if steps.len() == 0 {
            Simulation::start(process_count)
        } else {
            Simulation::of(steps.drop_last(), process_count, buffer_size).after(
                steps.last(),
                buffer_size,
            )
        }
    }

    /// What every reachable state obeys.
    pub open spec fn consistent(self, process_count: nat, buffer_size: nat) -> bool {
        let history = self.history(buffer_size);
        &&& history.arrivals.len() + self.remaining == process_count
        &&& self.completed ==> self.remaining == 0
        &&& self.server != ServerState::Polling ==> self.completed
        &&& self.server == ServerState::Terminated ==> history.buffer.chains.len() == 0
        &&& self.found_empty ==> self.server == ServerState::Polling
        &&& self.serviced == total_items(history.extracted)
    }
}

/// Every state that the steps can reach is consistent.
pub proof fn lemma_reachable_is_consistent(
    steps: Seq<Step>,
    process_count: nat,
    buffer_size: nat,
)
    ensures
        Simulation::of(steps, process_count, buffer_size).consistent(process_count, buffer_size),
    decreases steps.len(),
{
    if steps.len() > 0 {
        lemma_reachable_is_consistent(steps.drop_last(), process_count, buffer_size);
        let before = Simulation::of(steps.drop_last(), process_count, buffer_size);
        lemma_step_keeps_consistent(before, steps.last(), process_count, buffer_size);
    }
}

/// A step from a consistent state leads to a consistent state.
pub proof fn lemma_step_keeps_consistent(
    state: Simulation,
    step: Step,
    process_count: nat,
    buffer_size: nat,
)
    requires
        state.consistent(process_count, buffer_size),
    ensures
        state.after(step, buffer_size).consistent(process_count, buffer_size),
{
    let next = state.after(step, buffer_size);
    let before = state.history(buffer_size);
    if next.events != state.events {
        let event = next.events.last();
        assert(next.events.drop_last() =~= state.events);
        if event is Extract {
            assert(next.history(buffer_size).extracted.drop_last() =~= before.extracted);
        }
    }
}

/// The server stops only when everything is done: the completion flag is
/// up, the buffer is empty, every process has arrived, and every process
/// that arrived was handed to the server. So the processes inserted, the
/// processes drained and the configured count are the same number.
pub proof fn lemma_terminated_means_done(steps: Seq<Step>, process_count: nat, buffer_size: nat)
    requires
        Simulation::of(steps, process_count, buffer_size).server == ServerState::Terminated,
    ensures
        ({
            let state = Simulation::of(steps, process_count, buffer_size);
            &&& state.completed
            &&& state.remaining == 0
            &&& state.history(buffer_size).buffer.chains.len() == 0
            &&& state.history(buffer_size).arrivals.len() == process_count
            &&& total_items(state.history(buffer_size).extracted) == process_count
            &&& state.serviced == process_count
        }),
{
    let state = Simulation::of(steps, process_count, buffer_size);
    lemma_reachable_is_consistent(steps, process_count, buffer_size);
    lemma_conservation(state.events, buffer_size);
}

/// While the completion flag is down, or a chain is buffered, the server
/// has not stopped.
pub proof fn lemma_never_stops_early(steps: Seq<Step>, process_count: nat, buffer_size: nat)
    ensures
        ({
            let state = Simulation::of(steps, process_count, buffer_size);
            (!state.completed || state.history(buffer_size).buffer.chains.len() > 0)
                ==> state.server != ServerState::Terminated
        }),
{
    lemma_reachable_is_consistent(steps, process_count, buffer_size);
}

/// Once the completion flag is up and the buffer is empty, the server stops
/// within two polls: a poll, the reading of the flag and one more poll end
/// it, wherever it stood, and whatever the generator does in between.
pub proof fn lemma_terminates_within_two_polls(
    state: Simulation,
    process_count: nat,
    buffer_size: nat,
    idle: Step,
)
    requires
        state.consistent(process_count, buffer_size),
        state.completed,
        state.history(buffer_size).buffer.chains.len() == 0,
        idle is Arrive || idle is Complete,
    ensures
        state.after(Step::Poll, buffer_size).after(Step::ReadFlag, buffer_size).after(
            Step::Poll,
            buffer_size,
        ).server == ServerState::Terminated,
        state.after(Step::Poll, buffer_size).after(idle, buffer_size).after(
            Step::ReadFlag,
            buffer_size,
        ).after(idle, buffer_size).after(Step::Poll, buffer_size).server
            == ServerState::Terminated,
{
}

} // verus!
