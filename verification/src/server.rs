//! The server: what it does with the outcome of each poll of the buffer,
//! and when it stops.

use crate::chain::CPUQueue;
use crate::process::CPUProcess;
use vstd::prelude::*;

verus! {

/// Where the server stands between two polls. While it services a chain it
/// is on its way back to the state it polled from.
#[derive(Debug, Clone, Copy, PartialEq, Eq, Structural)]
pub enum ServerState {
    /// Arrivals may still come: an empty buffer means nothing yet.
    Polling,
    /// The generator was seen to be finished. What is still buffered is
    /// serviced, and the first poll that finds the buffer empty ends the
    /// server.
    Draining,
    /// The server has stopped: it polls no more.
    Terminated,
}

/// What a poll of the buffer found. The completion flag is read only after
/// the buffer was found empty, so only that outcome carries it.
#[derive(Debug)]
pub enum PollOutcome {
    /// The head chain was taken out.
    Chain(CPUQueue),
    /// The buffer was empty; then the completion flag was read.
    Empty { completed: bool },
}

/// What the server does next.
#[derive(Debug)]
pub enum ServerAction {
    /// Service these processes one after the other, in this order; then
    /// poll again.
    Service(Vec<CPUProcess>),
    /// Poll again at once.
    Retry,
    /// Stop polling and report.
    Stop,
}

impl ServerState {
    /// The state after a poll with the given outcome.
    ///
    /// A chain is serviced in any state that still polls, and the state
    /// stays. An empty buffer keeps the server polling while the flag is
    /// down, turns it to draining when the flag is up, and ends a draining
    /// server, which saw the flag up before and has now seen the buffer
    /// empty after that.
    pub open spec fn next(self, outcome: PollOutcome) -> ServerState {
        match self {
            ServerState::Polling => match outcome {
                PollOutcome::Chain(_) => ServerState::Polling,
                PollOutcome::Empty { completed } => if completed {
                    ServerState::Draining
                } else {
                    ServerState::Polling
                },
            },
            ServerState::Draining => match outcome {
                PollOutcome::Chain(_) => ServerState::Draining,
                PollOutcome::Empty { .. } => ServerState::Terminated,
            },
            ServerState::Terminated => ServerState::Terminated,
        }
    }

    /// The state after a run of polls, from the polling state.
    pub open spec fn after(outcomes: Seq<PollOutcome>) -> ServerState
        decreases outcomes.len(),
    {
        if outcomes.len() == 0 {
            ServerState::Polling
        } else {
            ServerState::after(outcomes.drop_last()).next(outcomes.last())
        }
    }
}

/// The buffer was found empty with the completion flag up.
pub open spec fn empty_and_completed(outcome: PollOutcome) -> bool {
    outcome matches PollOutcome::Empty { completed } && completed
}

/// Once the flag is up and the buffer is empty, the server stops within two
/// polls, whatever state it was in.
pub proof fn lemma_stops_within_two_polls(
    state: ServerState,
    first: PollOutcome,
    second: PollOutcome,
)
    requires
        empty_and_completed(first),
        empty_and_completed(second),
    ensures
        state.next(first).next(second) == ServerState::Terminated,
        state == ServerState::Draining ==> state.next(first) == ServerState::Terminated,
{
}

/// A poll that finds a chain never ends the server, nor does one that finds
/// the buffer empty unless the server is draining.
pub proof fn lemma_stops_only_when_drained(state: ServerState, outcome: PollOutcome)
    requires
        state != ServerState::Terminated,
        state.next(outcome) == ServerState::Terminated,
    ensures
        state == ServerState::Draining,
        outcome is Empty,
{
}

/// While no poll has found the buffer empty with the flag up, the server
/// keeps polling: it neither drains nor stops as long as the generator may
/// still insert.
pub proof fn lemma_polls_until_completion(outcomes: Seq<PollOutcome>)
    requires
        forall|i: int| 0 <= i < outcomes.len() ==> !empty_and_completed(#[trigger] outcomes[i]),
    ensures
        ServerState::after(outcomes) == ServerState::Polling,
    decreases outcomes.len(),
{
    if outcomes.len() > 0 {
        lemma_polls_until_completion(outcomes.drop_last());
    }
}

/// A server that has stopped saw the buffer empty with the flag up, and
/// after that saw the buffer empty once more.
pub proof fn lemma_stopped_after_completion(outcomes: Seq<PollOutcome>)
    requires
        ServerState::after(outcomes) == ServerState::Terminated,
    ensures
        exists|i: int, j: int|
            0 <= i < j < outcomes.len() && empty_and_completed(#[trigger] outcomes[i])
                && (#[trigger] outcomes[j]) is Empty,
    decreases outcomes.len(),
{
    let earlier = outcomes.drop_last();
    let last: int = outcomes.len() - 1;
    if ServerState::after(earlier) == ServerState::Terminated {
        lemma_stopped_after_completion(earlier);
        let (i, j) = choose|i: int, j: int|
            0 <= i < j < earlier.len() && empty_and_completed(#[trigger] earlier[i]) && (
            #[trigger] earlier[j]) is Empty;
        assert(empty_and_completed(outcomes[i]) && outcomes[j] is Empty);
    } else {
        // The server was draining and the last poll found the buffer empty.
        let i = lemma_draining_after_completion(earlier);
        assert(empty_and_completed(outcomes[i]) && outcomes[last] is Empty);
    }
}

/// A draining server saw the buffer empty with the flag up.
proof fn lemma_draining_after_completion(outcomes: Seq<PollOutcome>) -> (i: int)
    requires
        ServerState::after(outcomes) == ServerState::Draining,
    ensures
        0 <= i < outcomes.len(),
        empty_and_completed(outcomes[i]),
    decreases outcomes.len(),
{
    let before = ServerState::after(outcomes.drop_last());
    if before == ServerState::Draining {
        let i = lemma_draining_after_completion(outcomes.drop_last());
        i
    } else {
        outcomes.len() - 1
    }
}

/// The server of a simulation.
#[derive(Debug)]
pub struct Server {
    state: ServerState,
}

impl View for Server {
    type V = ServerState;

    closed spec fn view(&self) -> ServerState {
        self.state
    }
}

impl Server {
    /// A server that is about to poll for the first time.
    pub fn new() -> (server: Self)
        ensures
            server@ == ServerState::Polling,
    {
        Server { state: ServerState::Polling }
    }

    /// Where the server stands.
    pub fn state(&self) -> (state: ServerState)
        ensures
            state == self@,
    {
        self.state
    }

    /// Whether the server has stopped.
    pub fn is_terminated(&self) -> (terminated: bool)
        ensures
            terminated == (self@ == ServerState::Terminated),
    {
        self.state == ServerState::Terminated
    }

    /// Takes the outcome of a poll and says what to do next.
    ///
    /// A chain is to be serviced: its processes are handed out in the order
    /// of service, the last inserted first. In an empty buffer there is
    /// nothing to service: the server retries, unless it was draining, in
    /// which case it stops.
    ///
    /// A server that has stopped polls no more, so it takes no outcome.
    pub fn step(&mut self, outcome: PollOutcome) -> (action: ServerAction)
        requires
            old(self)@ != ServerState::Terminated,
        ensures
            final(self)@ == old(self)@.next(outcome),
            match outcome {
                PollOutcome::Chain(chain) => action matches ServerAction::Service(processes)
                    && processes@ == chain@.reverse(),
                PollOutcome::Empty { .. } => if old(self)@ == ServerState::Draining {
                    action is Stop
                } else {
                    action is Retry
                },
            },
            action is Stop <==> final(self)@ == ServerState::Terminated,
    {
        match outcome {
            PollOutcome::Chain(chain) => {
                let mut chain = chain;
                ServerAction::Service(chain.drain())
            },
            PollOutcome::Empty { completed } => {
                match self.state {
                    ServerState::Draining => {
                        self.state = ServerState::Terminated;
                        ServerAction::Stop
                    },
                    _ => {
                        if completed {
                            self.state = ServerState::Draining;
                        }
                        ServerAction::Retry
                    },
                }
            },
        }
    }
}

} // verus!
