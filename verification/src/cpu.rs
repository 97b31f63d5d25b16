//! The buffer between generator and server: chains in the order of their
//! creation, with running statistics on how many chains were buffered.

use crate::chain::CPUQueue;
use crate::process::CPUProcess;
use std::collections::VecDeque;
use vstd::prelude::*;

verus! {

/// What a buffer holds, as plain values.
pub struct BufferState {
    /// The buffered chains, oldest first; each chain oldest process first.
    pub chains: Seq<Seq<CPUProcess>>,
    /// The sum, over all insertions so far, of the number of chains right
    /// after the insertion.
    pub total_occupancy_samples: nat,
    /// The largest number of chains seen right after an insertion.
    pub peak_chain_count: nat,
}

impl BufferState {
    /// The buffer before anything was inserted.
    pub open spec fn empty() -> BufferState {
        BufferState {
            chains: Seq::<Seq<CPUProcess>>::empty(),
            total_occupancy_samples: 0,
            peak_chain_count: 0,
        }
    }

    /// There is a head chain and it holds fewer than `buffer_size`
    /// processes, so the next process joins it.
    pub open spec fn head_is_open(self, buffer_size: nat) -> bool {
        self.chains.len() > 0 && self.chains[0].len() < buffer_size
    }

    /// The chains after `process` was inserted: it joins the head chain if
    /// that is open, else it starts a new chain at the tail.
    pub open spec fn chains_after_insert(self, process: CPUProcess, buffer_size: nat) -> Seq<
        Seq<CPUProcess>,
    > {
        if self.head_is_open(buffer_size) {
            self.chains.update(0, self.chains[0].push(process))
        } else {
            self.chains.push(seq![process])
        }
    }

    /// The buffer after `process` was inserted: the chains as above, the
    /// new number of chains added to the running sum, and the peak raised to
    /// it where it was lower.
    pub open spec fn insert(self, process: CPUProcess, buffer_size: nat) -> BufferState {
        let chains = self.chains_after_insert(process, buffer_size);
        BufferState {
            chains,
            total_occupancy_samples: self.total_occupancy_samples + chains.len(),
            peak_chain_count: if chains.len() > self.peak_chain_count {
                chains.len()
            } else {
                self.peak_chain_count
            },
        }
    }

    /// The buffer after its head chain was taken out; statistics stay.
    /// An empty buffer stays as it is.
    pub open spec fn extract_head(self) -> BufferState {
        if self.chains.len() == 0 {
            self
        } else {
            BufferState {
                chains: self.chains.skip(1),
                total_occupancy_samples: self.total_occupancy_samples,
                peak_chain_count: self.peak_chain_count,
            }
        }
    }

    /// No chain holds more than `buffer_size` processes.
    pub open spec fn within_capacity(self, buffer_size: nat) -> bool {
        forall|i: int| 0 <= i < self.chains.len() ==> (#[trigger] self.chains[i]).len() <= buffer_size
    }

    /// No chain is empty, the peak is no lower than the present number of
    /// chains, and the running sum is no lower than the peak.
    pub open spec fn well_formed(self) -> bool {
        &&& forall|i: int| 0 <= i < self.chains.len() ==> (#[trigger] self.chains[i]).len() > 0
        &&& self.chains.len() <= self.peak_chain_count
        &&& self.peak_chain_count <= self.total_occupancy_samples
    }
}

/// Inserting keeps every chain within the buffer size and the buffer well
/// formed; the sum of samples never decreases and the peak never falls.
pub proof fn lemma_insert_preserves(state: BufferState, process: CPUProcess, buffer_size: nat)
    requires
        buffer_size > 0,
    ensures
        state.within_capacity(buffer_size) ==> state.insert(process, buffer_size).within_capacity(
            buffer_size,
        ),
        state.well_formed() ==> state.insert(process, buffer_size).well_formed(),
        state.insert(process, buffer_size).total_occupancy_samples
            >= state.total_occupancy_samples,
        state.insert(process, buffer_size).peak_chain_count >= state.peak_chain_count,
{
}

/// Taking out the head chain keeps every chain within the buffer size and
/// the buffer well formed, and leaves the statistics as they were.
pub proof fn lemma_extract_preserves(state: BufferState, buffer_size: nat)
    ensures
        state.within_capacity(buffer_size) ==> state.extract_head().within_capacity(buffer_size),
        state.well_formed() ==> state.extract_head().well_formed(),
        state.extract_head().total_occupancy_samples == state.total_occupancy_samples,
        state.extract_head().peak_chain_count == state.peak_chain_count,
{
    let after = state.extract_head();
    if state.chains.len() > 0 {
        assert forall|i: int| 0 <= i < after.chains.len() implies #[trigger] after.chains[i]
            == state.chains[i + 1] by {}
    }
}

/// A new chain is created exactly when there is no head chain or the head
/// chain is full; it then holds the inserted process alone and stands last.
/// Otherwise the process joins the head chain and no chain is created.
pub proof fn lemma_growth_trigger(state: BufferState, process: CPUProcess, buffer_size: nat)
    ensures
        state.insert(process, buffer_size).chains.len() == state.chains.len() + 1 <==> (
        state.chains.len() == 0 || state.chains[0].len() >= buffer_size),
        state.insert(process, buffer_size).chains.len() == state.chains.len() <==> (
        state.chains.len() > 0 && state.chains[0].len() < buffer_size),
        !state.head_is_open(buffer_size) ==> state.insert(process, buffer_size).chains
            == state.chains.push(seq![process]),
        state.head_is_open(buffer_size) ==> state.insert(process, buffer_size).chains
            == state.chains.update(0, state.chains[0].push(process)),
{
}

/// The numbers reported when a simulation has ended. The average number of
/// chains at insertion time is `total_occupancy_samples` divided by
/// `processes_generated`.
#[derive(Debug, Clone, Copy, PartialEq, Eq, Structural)]
pub struct OccupancyReport {
    pub total_occupancy_samples: usize,
    pub processes_generated: usize,
    pub peak_chain_count: usize,
}

/// The buffer: chains in the order of their creation, the running sum of
/// the chain counts sampled after each insertion, and their peak.
pub struct CPU {
    queue: VecDeque<CPUQueue>,
    total_queue_elements: usize,
    max_queue_elements: usize,
}

impl View for CPU {
    type V = BufferState;

    closed spec fn view(&self) -> BufferState {
        BufferState {
            chains: Seq::new(self.queue@.len(), |i: int| self.queue@[i]@),
            total_occupancy_samples: self.total_queue_elements as nat,
            peak_chain_count: self.max_queue_elements as nat,
        }
    }
}

impl CPU {
    /// A buffer without chains, whose statistics are zero.
    pub fn new() -> (cpu: Self)
        ensures
            cpu@ == BufferState::empty(),
    {
        let cpu = CPU { queue: VecDeque::new(), total_queue_elements: 0, max_queue_elements: 0 };
        assert(cpu@.chains =~= Seq::<Seq<CPUProcess>>::empty());
        cpu
    }

    /// Inserts `process`. It joins the head chain if there is one with fewer
    /// than `buffer_size` processes; otherwise a new chain with this process
    /// alone is appended at the tail. Then the number of chains is added to
    /// the running sum and raises the peak where it exceeds it.
    ///
    /// Returns whether a new chain was created.
    pub fn insert_new(&mut self, process: CPUProcess, buffer_size: usize) -> (grew: bool)
        requires
            buffer_size > 0,
            old(self)@.total_occupancy_samples + old(self)@.chains.len() + 1 <= usize::MAX,
        ensures
            final(self)@ == old(self)@.insert(process, buffer_size as nat),
            grew <==> (old(self)@.chains.len() == 0 || old(self)@.chains[0].len() >= buffer_size),
            grew <==> final(self)@.chains.len() == old(self)@.chains.len() + 1,
            !grew <==> final(self)@.chains.len() == old(self)@.chains.len(),
            old(self)@.within_capacity(buffer_size as nat) ==> final(self)@.within_capacity(
                buffer_size as nat,
            ),
            old(self)@.well_formed() ==> final(self)@.well_formed(),
    {
        let ghost before = self@;
        let grew = match self.queue.pop_front() {
            Some(mut first_queue) => {
                if first_queue.len() < buffer_size {
                    first_queue.insert(process);
                    self.queue.push_front(first_queue);
                    false
                } else {
                    self.queue.push_front(first_queue);
                    true
                }
            },
            None => true,
        };
        if grew {
            let mut new_queue = CPUQueue::new();
            new_queue.insert(process);
            self.queue.push_back(new_queue);
        }
        let count: usize = self.queue.len();
        self.total_queue_elements += count;
        if count > self.max_queue_elements {
            self.max_queue_elements = count;
        }
        proof {
            assert(self@.chains =~= before.chains_after_insert(process, buffer_size as nat));
            lemma_insert_preserves(before, process, buffer_size as nat);
        }
        grew
    }

    /// Takes out the oldest chain, if there is one, and hands it over whole.
    /// The statistics stay as they are.
    pub fn get_first(&mut self) -> (head: Option<CPUQueue>)
        ensures
            final(self)@ == old(self)@.extract_head(),
            match head {
                Some(chain) => old(self)@.chains.len() > 0 && chain@ == old(self)@.chains[0],
                None => old(self)@.chains.len() == 0,
            },
            forall|n: nat| old(self)@.within_capacity(n) ==> final(self)@.within_capacity(n),
            old(self)@.well_formed() ==> final(self)@.well_formed(),
    {
        let ghost before = self@;
        if self.queue.len() == 0 {
            return None;
        }
        let first_queue = self.queue.pop_front();
        proof {
            assert(self@.chains =~= before.chains.skip(1));
            assert forall|n: nat| before.within_capacity(n) implies self@.within_capacity(n) by {
                lemma_extract_preserves(before, n);
            }
            lemma_extract_preserves(before, 0);
        }
        first_queue
    }

    /// The number of chains in the buffer.
    pub fn chain_count(&self) -> (count: usize)
        ensures
            count == self@.chains.len(),
    {
        self.queue.len()
    }

    /// The sum, over all insertions so far, of the number of chains right
    /// after the insertion.
    pub fn total_queue_elements(&self) -> (total: usize)
        ensures
            total == self@.total_occupancy_samples,
    {
        self.total_queue_elements
    }

    /// The largest number of chains seen right after an insertion.
    pub fn max_queue_elements(&self) -> (peak: usize)
        ensures
            peak == self@.peak_chain_count,
    {
        self.max_queue_elements
    }

    /// The final numbers of a simulation that generated
    /// `processes_generated` processes. Reads the buffer and changes
    /// nothing, so asking again gives the same numbers.
    pub fn report(&self, processes_generated: usize) -> (report: OccupancyReport)
        ensures
            report == (OccupancyReport {
                total_occupancy_samples: self@.total_occupancy_samples as usize,
                processes_generated,
                peak_chain_count: self@.peak_chain_count as usize,
            }),
            report.total_occupancy_samples == self@.total_occupancy_samples,
            report.peak_chain_count == self@.peak_chain_count,
    {
        OccupancyReport {
            total_occupancy_samples: self.total_queue_elements,
            processes_generated,
            peak_chain_count: self.max_queue_elements,
        }
    }
}

} // verus!
