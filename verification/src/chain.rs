//! Chains: the groups in which processes wait and are handed to the server.

use crate::process::CPUProcess;
use vstd::prelude::*;

verus! {

/// A chain of processes, in the order in which they were inserted. The
/// chain itself knows no bound: it is the buffer that fills a chain only
/// up to the buffer size.
#[derive(Debug)]
pub struct CPUQueue {
    processes: Vec<CPUProcess>,
}

impl View for CPUQueue {
    type V = Seq<CPUProcess>;

    /// The processes of the chain, oldest first.
    closed spec fn view(&self) -> Seq<CPUProcess> {
        self.processes@
    }
}

impl CPUQueue {
    /// An empty chain.
    pub fn new() -> (chain: Self)
        ensures
            chain@ == Seq::<CPUProcess>::empty(),
    {
        CPUQueue { processes: Vec::new() }
    }

    /// Appends `process` behind the processes already in the chain.
    pub fn insert(&mut self, process: CPUProcess)
        ensures
            final(self)@ == old(self)@.push(process),
    {
        self.processes.push(process);
    }

    /// Takes out the process that was inserted last, if the chain holds any:
    /// within a chain, the last to come is the first to be served.
    pub fn extract(&mut self) -> (process: Option<CPUProcess>)
        ensures
            match process {
                Some(p) => {
                    &&& old(self)@.len() > 0
                    &&& p == old(self)@.last()
                    &&& final(self)@ == old(self)@.drop_last()
                },
                None => {
                    &&& old(self)@.len() == 0
                    &&& final(self)@ == old(self)@
                },
            },
    {
        self.processes.pop()
    }

    /// The number of processes in the chain.
    pub fn len(&self) -> (len: usize)
        ensures
            len == self@.len(),
    {
        self.processes.len()
    }

    /// Empties the chain and returns its processes in the order in which
    /// [`CPUQueue::extract`] hands them out: each process that was inserted,
    /// exactly once, the last inserted first.
    pub fn drain(&mut self) -> (served: Vec<CPUProcess>)
        ensures
            served@ == old(self)@.reverse(),
            final(self)@ == Seq::<CPUProcess>::empty(),
    {
        let mut served: Vec<CPUProcess> = Vec::new();
        let ghost all = self@;
        loop
            invariant
                self@.len() + served@.len() == all.len(),
                self@ == all.take(self@.len() as int),
                forall|j: int|
                    0 <= j < served@.len() ==> #[trigger] served@[j] == all[all.len() - 1 - j],
            ensures
                self@.len() == 0,
                served@.len() == all.len(),
                forall|j: int|
                    0 <= j < served@.len() ==> #[trigger] served@[j] == all[all.len() - 1 - j],
            decreases self@.len(),
        {
            match self.extract() {
                Some(process) => {
                    served.push(process);
                },
                None => {
                    break ;
                },
            }
        }
        served
    }
}

} // verus!
