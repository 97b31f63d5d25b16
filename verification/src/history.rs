//! What holds of a buffer in every state it can reach: the record of a run
//! of insertions and extractions, and the laws that every such record obeys.

use crate::cpu::{lemma_extract_preserves, lemma_insert_preserves, BufferState};
use crate::process::CPUProcess;
use vstd::prelude::*;

verus! {

/// One step of a run: a process is inserted, or the server asks for the
/// head chain.
pub enum BufferEvent {
    Insert(CPUProcess),
    Extract,
}

/// The record of a run. Each chain gets a number when it is created, from
/// zero upwards, so that the order of extraction can be held against the
/// order of creation.
pub struct History {
    /// What the buffer holds now.
    pub buffer: BufferState,
    /// The creation number of each buffered chain, in the buffer's order.
    pub buffered_ids: Seq<nat>,
    /// The chains handed to the server, in the order of extraction.
    pub extracted: Seq<Seq<CPUProcess>>,
    /// Their creation numbers, in the same order.
    pub extracted_ids: Seq<nat>,
    /// How many chains were created.
    pub created: nat,
    /// The processes inserted, in the order of their arrival.
    pub arrivals: Seq<CPUProcess>,
    /// The number of chains right after each insertion, in order.
    pub samples: Seq<nat>,
}

/// The number of processes in a sequence of chains.
pub open spec fn total_items(chains: Seq<Seq<CPUProcess>>) -> nat
    decreases chains.len(),
{
    if chains.len() == 0 {
        0
    } else {
        total_items(chains.drop_last()) + chains.last().len()
    }
}

/// The sum of a sequence of numbers.
pub open spec fn sum_of(samples: Seq<nat>) -> nat
    decreases samples.len(),
{
    if samples.len() == 0 {
        0
    } else {
        sum_of(samples.drop_last()) + samples.last()
    }
}

/// The largest of a sequence of numbers; zero if there is none.
pub open spec fn max_of(samples: Seq<nat>) -> nat
    decreases samples.len(),
{
    if samples.len() == 0 {
        0
    } else if samples.last() > max_of(samples.drop_last()) {
        samples.last()
    } else {
        max_of(samples.drop_last())
    }
}

/// The processes of a sequence of chains, chain after chain.
pub open spec fn all_processes(chains: Seq<Seq<CPUProcess>>) -> Seq<CPUProcess>
    decreases chains.len(),
{
    if chains.len() == 0 {
        Seq::<CPUProcess>::empty()
    } else {
        all_processes(chains.drop_last()) + chains.last()
    }
}

impl History {
    /// The record before anything happened.
    pub open spec fn start() -> History {
        History {
            buffer: BufferState::empty(),
            buffered_ids: Seq::<nat>::empty(),
            extracted: Seq::<Seq<CPUProcess>>::empty(),
            extracted_ids: Seq::<nat>::empty(),
            created: 0,
            arrivals: Seq::<CPUProcess>::empty(),
            samples: Seq::<nat>::empty(),
        }
    }

    /// The record after one more step, with chains of at most `buffer_size`
    /// processes. An extraction from an empty buffer changes nothing.
    pub open spec fn after(self, event: BufferEvent, buffer_size: nat) -> History {
        match event {
            BufferEvent::Insert(process) => {
                let grows = !self.buffer.head_is_open(buffer_size);
                let buffer = self.buffer.insert(process, buffer_size);
                History {
                    buffer,
                    buffered_ids: if grows {
                        self.buffered_ids.push(self.created)
                    } else {
                        self.buffered_ids
                    },
                    extracted: self.extracted,
                    extracted_ids: self.extracted_ids,
                    created: if grows {
                        self.created + 1
                    } else {
                        self.created
                    },
                    arrivals: self.arrivals.push(process),
                    samples: self.samples.push(buffer.chains.len()),
                }
            },
            BufferEvent::Extract => {
                if self.buffer.chains.len() == 0 {
                    self
                } else {
                    History {
                        buffer: self.buffer.extract_head(),
                        buffered_ids: self.buffered_ids.skip(1),
                        extracted: self.extracted.push(self.buffer.chains[0]),
                        extracted_ids: self.extracted_ids.push(self.buffered_ids[0]),
                        created: self.created,
                        arrivals: self.arrivals,
                        samples: self.samples,
                    }
                }
            },
        }
    }

    /// The record of the run `events`, from an empty buffer.
    pub open spec fn of(events: Seq<BufferEvent>, buffer_size: nat) -> History
        decreases events.len(),
    {
        if events.len() == 0 {
            History::start()
        } else {
            History::of(events.drop_last(), buffer_size).after(events.last(), buffer_size)
        }
    }
}

/// The processes of a sequence of chains are those of its first chain and
/// those of the chains behind it.
proof fn lemma_total_items_first(chains: Seq<Seq<CPUProcess>>)
    requires
        chains.len() > 0,
    ensures
        total_items(chains) == chains[0].len() + total_items(chains.skip(1)),
    decreases chains.len(),
{
    if chains.len() == 1 {
        assert(chains.drop_last() =~= Seq::<Seq<CPUProcess>>::empty());
        assert(chains.skip(1) =~= Seq::<Seq<CPUProcess>>::empty());
    } else {
        lemma_total_items_first(chains.drop_last());
        assert(chains.skip(1).drop_last() =~= chains.drop_last().skip(1));
    }
}

/// In every reachable state no chain holds more than `buffer_size`
/// processes, no chain is empty, the peak is at least the present number of
/// chains, and the sum of samples is at least the peak.
pub proof fn lemma_capacity_invariant(events: Seq<BufferEvent>, buffer_size: nat)
    requires
        buffer_size > 0,
    ensures
        History::of(events, buffer_size).buffer.within_capacity(buffer_size),
        History::of(events, buffer_size).buffer.well_formed(),
    decreases events.len(),
{
    if events.len() > 0 {
        lemma_capacity_invariant(events.drop_last(), buffer_size);
        let before = History::of(events.drop_last(), buffer_size);
        match events.last() {
            BufferEvent::Insert(process) => {
                lemma_insert_preserves(before.buffer, process, buffer_size);
            },
            BufferEvent::Extract => {
                lemma_extract_preserves(before.buffer, buffer_size);
            },
        }
    }
}

/// Chains leave in the order in which they were created: the creation
/// numbers of the extracted chains, followed by those of the chains still
/// buffered, count up from zero without a gap. So the chain extracted as
/// number `k` is the chain created as number `k`, and the buffered chains
/// are the most recently created ones, oldest first.
pub proof fn lemma_fifo_of_chains(events: Seq<BufferEvent>, buffer_size: nat)
    ensures
        ({
            let h = History::of(events, buffer_size);
            &&& h.buffered_ids.len() == h.buffer.chains.len()
            &&& h.extracted_ids.len() == h.extracted.len()
            &&& h.extracted_ids + h.buffered_ids == Seq::new(h.created, |i: int| i as nat)
            &&& forall|k: int| 0 <= k < h.extracted_ids.len() ==> h.extracted_ids[k] == k
            &&& forall|i: int|
                0 <= i < h.buffered_ids.len() ==> h.buffered_ids[i] == h.extracted_ids.len() + i
        }),
    decreases events.len(),
{
    let h = History::of(events, buffer_size);
    let all = Seq::new(h.created, |i: int| i as nat);
    if events.len() > 0 {
        lemma_fifo_of_chains(events.drop_last(), buffer_size);
        let before = History::of(events.drop_last(), buffer_size);
        let ids_before = before.extracted_ids + before.buffered_ids;
        let all_before = Seq::new(before.created, |i: int| i as nat);
        assert(ids_before == all_before);
        // A step leaves the numbers given so far in place and at most adds
        // the next one at the end.
        assert forall|i: int| 0 <= i < all.len() implies (h.extracted_ids + h.buffered_ids)[i]
            == all[i] by {
            if i < before.created {
                assert(ids_before[i] == all_before[i]);
                assert((h.extracted_ids + h.buffered_ids)[i] == ids_before[i]);
            }
        }
    }
    assert(h.extracted_ids + h.buffered_ids =~= all);
    assert forall|i: int| 0 <= i < h.buffered_ids.len() implies h.buffered_ids[i]
        == h.extracted_ids.len() + i by {
        let place = h.extracted_ids.len() + i;
        assert((h.extracted_ids + h.buffered_ids)[place] == all[place]);
    }
}

/// The peak is the largest number of chains found right after an insertion,
/// and the running sum is the sum of those numbers, one for each insertion.
pub proof fn lemma_occupancy_accounting(events: Seq<BufferEvent>, buffer_size: nat)
    ensures
        ({
            let h = History::of(events, buffer_size);
            &&& h.samples.len() == h.arrivals.len()
            &&& h.buffer.peak_chain_count == max_of(h.samples)
            &&& h.buffer.total_occupancy_samples == sum_of(h.samples)
        }),
    decreases events.len(),
{
    if events.len() > 0 {
        lemma_occupancy_accounting(events.drop_last(), buffer_size);
        let before = History::of(events.drop_last(), buffer_size);
        let h = History::of(events, buffer_size);
        match events.last() {
            BufferEvent::Insert(process) => {
                assert(h.samples.drop_last() =~= before.samples);
            },
            BufferEvent::Extract => {},
        }
    }
}

/// No process is lost and none is made up: the processes inserted are those
/// in the extracted chains and those still buffered. Once the buffer is
/// empty, as many processes were handed to the server as were inserted.
pub proof fn lemma_conservation(events: Seq<BufferEvent>, buffer_size: nat)
    ensures
        ({
            let h = History::of(events, buffer_size);
            &&& h.arrivals.len() == total_items(h.extracted) + total_items(h.buffer.chains)
            &&& h.buffer.chains.len() == 0 ==> h.arrivals.len() == total_items(h.extracted)
        }),
    decreases events.len(),
{
    if events.len() > 0 {
        lemma_conservation(events.drop_last(), buffer_size);
        let before = History::of(events.drop_last(), buffer_size);
        let h = History::of(events, buffer_size);
        match events.last() {
            BufferEvent::Insert(process) => {
                if before.buffer.head_is_open(buffer_size) {
                    lemma_total_items_first(before.buffer.chains);
                    lemma_total_items_first(h.buffer.chains);
                    assert(h.buffer.chains.skip(1) =~= before.buffer.chains.skip(1));
                } else {
                    assert(h.buffer.chains.drop_last() =~= before.buffer.chains);
                }
            },
            BufferEvent::Extract => {
                if before.buffer.chains.len() > 0 {
                    lemma_total_items_first(before.buffer.chains);
                    assert(h.extracted.drop_last() =~= before.extracted);
                }
            },
        }
    }
}

/// The processes of a sequence of chains are those of its first chain
/// followed by those of the chains behind it.
proof fn lemma_all_processes_first(chains: Seq<Seq<CPUProcess>>)
    requires
        chains.len() > 0,
    ensures
        all_processes(chains) == chains[0] + all_processes(chains.skip(1)),
    decreases chains.len(),
{
    if chains.len() == 1 {
        assert(chains.drop_last() =~= Seq::<Seq<CPUProcess>>::empty());
        assert(chains.skip(1) =~= Seq::<Seq<CPUProcess>>::empty());
    } else {
        lemma_all_processes_first(chains.drop_last());
        assert(chains.skip(1).drop_last() =~= chains.drop_last().skip(1));
    }
}

/// The very processes that were inserted are those in the extracted chains
/// together with those still buffered, each as often as it was inserted.
pub proof fn lemma_every_process_accounted_for(events: Seq<BufferEvent>, buffer_size: nat)
    ensures
        ({
            let h = History::of(events, buffer_size);
            h.arrivals.to_multiset() == all_processes(h.extracted).to_multiset().add(
                all_processes(h.buffer.chains).to_multiset(),
            )
        }),
    decreases events.len(),
{
    broadcast use vstd::multiset::group_multiset_axioms;

    let h = History::of(events, buffer_size);
    let served = all_processes(h.extracted);
    let waiting = all_processes(h.buffer.chains);
    if events.len() == 0 {
        let nothing = Seq::<CPUProcess>::empty();
        vstd::seq_lib::to_multiset_len(nothing);
        assert(nothing.to_multiset() =~= nothing.to_multiset().add(nothing.to_multiset()));
        assert(h.arrivals.to_multiset() =~= served.to_multiset().add(waiting.to_multiset()));
    } else {
        lemma_every_process_accounted_for(events.drop_last(), buffer_size);
        let before = History::of(events.drop_last(), buffer_size);
        let chains = before.buffer.chains;
        let served_before = all_processes(before.extracted);
        let waiting_before = all_processes(chains);
        match events.last() {
            BufferEvent::Insert(process) => {
                vstd::seq_lib::to_multiset_build(before.arrivals, process);
                if before.buffer.head_is_open(buffer_size) {
                    let behind = all_processes(chains.skip(1));
                    lemma_all_processes_first(chains);
                    lemma_all_processes_first(h.buffer.chains);
                    assert(h.buffer.chains.skip(1) =~= chains.skip(1));
                    vstd::seq_lib::to_multiset_build(chains[0], process);
                    vstd::seq_lib::lemma_multiset_commutative(chains[0], behind);
                    vstd::seq_lib::lemma_multiset_commutative(chains[0].push(process), behind);
                } else {
                    assert(h.buffer.chains.drop_last() =~= chains);
                    assert(waiting =~= waiting_before.push(process));
                    vstd::seq_lib::to_multiset_build(waiting_before, process);
                }
                assert(waiting.to_multiset() =~= waiting_before.to_multiset().insert(process));
                assert(h.arrivals.to_multiset() =~= served.to_multiset().add(
                    waiting.to_multiset(),
                ));
            },
            BufferEvent::Extract => {
                if chains.len() > 0 {
                    lemma_all_processes_first(chains);
                    assert(h.extracted.drop_last() =~= before.extracted);
                    vstd::seq_lib::lemma_multiset_commutative(served_before, chains[0]);
                    vstd::seq_lib::lemma_multiset_commutative(chains[0], waiting);
                    assert(h.arrivals.to_multiset() =~= served.to_multiset().add(
                        waiting.to_multiset(),
                    ));
                }
            },
        }
    }
}

/// With a buffer size of one the buffer is a plain queue of processes:
/// every chain, buffered or extracted, holds exactly one process, and the
/// processes leave in the order in which they arrived. The number of chains
/// is then the number of buffered processes, so the peak is the largest
/// number of processes that were buffered at one time.
pub proof fn lemma_unit_buffer_is_plain_queue(events: Seq<BufferEvent>)
    ensures
        ({
            let h = History::of(events, 1);
            &&& forall|i: int|
                0 <= i < h.buffer.chains.len() ==> (#[trigger] h.buffer.chains[i]).len() == 1
            &&& forall|k: int| 0 <= k < h.extracted.len() ==> (#[trigger] h.extracted[k]).len() == 1
            &&& all_processes(h.extracted) + all_processes(h.buffer.chains) == h.arrivals
            &&& h.buffer.chains.len() == total_items(h.buffer.chains)
            &&& h.samples.len() == h.arrivals.len()
            &&& h.buffer.peak_chain_count == max_of(h.samples)
        }),
    decreases events.len(),
{
    let h = History::of(events, 1);
    lemma_capacity_invariant(events, 1);
    lemma_occupancy_accounting(events, 1);
    if events.len() > 0 {
        lemma_unit_buffer_is_plain_queue(events.drop_last());
        lemma_capacity_invariant(events.drop_last(), 1);
        let before = History::of(events.drop_last(), 1);
        match events.last() {
            BufferEvent::Insert(process) => {
                // Every buffered chain holds a process, so the head is full.
                assert(!before.buffer.head_is_open(1));
                assert(h.buffer.chains.drop_last() =~= before.buffer.chains);
            },
            BufferEvent::Extract => {
                if before.buffer.chains.len() > 0 {
                    lemma_all_processes_first(before.buffer.chains);
                    lemma_total_items_first(before.buffer.chains);
                    assert(h.extracted.drop_last() =~= before.extracted);
                    assert(all_processes(h.extracted) + all_processes(h.buffer.chains)
                        =~= h.arrivals);
                }
            },
        }
    }
}

/// The statistics stay within what the number of insertions allows: no
/// more chains were created than processes inserted, the buffer never held
/// more chains than that, and the sum of samples is at most its square.
pub proof fn lemma_statistics_bounds(events: Seq<BufferEvent>, buffer_size: nat)
    ensures
        ({
            let h = History::of(events, buffer_size);
            &&& h.created <= h.arrivals.len()
            &&& h.buffer.chains.len() <= h.created
            &&& h.buffer.peak_chain_count <= h.arrivals.len()
            &&& h.buffer.total_occupancy_samples <= h.arrivals.len() * h.arrivals.len()
        }),
    decreases events.len(),
{
    if events.len() > 0 {
        lemma_statistics_bounds(events.drop_last(), buffer_size);
        let before = History::of(events.drop_last(), buffer_size);
        let h = History::of(events, buffer_size);
        let n = before.arrivals.len() as int;
        assert(n * n + (n + 1) <= (n + 1) * (n + 1)) by (nonlinear_arith)
            requires
                n >= 0,
        ;
    }
}

} // verus!
