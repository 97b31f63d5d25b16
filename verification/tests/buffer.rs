use chainqueue::chain::CPUQueue;
use chainqueue::cpu::{OccupancyReport, CPU};
use chainqueue::process::CPUProcess;

fn insert_all(cpu: &mut CPU, intervals: &[u64], buffer_size: usize) -> Vec<bool> {
    intervals
        .iter()
        .map(|&interval| cpu.insert_new(CPUProcess::new(interval), buffer_size))
        .collect()
}

fn served(chain: Option<CPUQueue>) -> Option<Vec<u64>> {
    chain.map(|mut chain| chain.drain().iter().map(|p| p.interval).collect())
}

#[test]
fn process_keeps_its_interval() {
    assert_eq!(CPUProcess::new(42).interval, 42);
    assert_eq!(CPUProcess::new(0), CPUProcess { interval: 0 });
}

#[test]
fn chain_hands_out_last_inserted_first() {
    let mut chain = CPUQueue::new();
    assert_eq!(chain.len(), 0);
    assert_eq!(chain.extract(), None);
    chain.insert(CPUProcess::new(3));
    chain.insert(CPUProcess::new(5));
    chain.insert(CPUProcess::new(2));
    assert_eq!(chain.len(), 3);
    assert_eq!(chain.extract(), Some(CPUProcess::new(2)));
    assert_eq!(chain.extract(), Some(CPUProcess::new(5)));
    assert_eq!(chain.len(), 1);
    assert_eq!(chain.extract(), Some(CPUProcess::new(3)));
    assert_eq!(chain.extract(), None);
}

#[test]
fn drain_yields_every_process_once() {
    let mut chain = CPUQueue::new();
    for interval in [3, 5, 2, 7] {
        chain.insert(CPUProcess::new(interval));
    }
    let drained: Vec<u64> = chain.drain().iter().map(|p| p.interval).collect();
    assert_eq!(drained, vec![7, 2, 5, 3]);
    assert_eq!(chain.len(), 0);
    assert_eq!(chain.drain(), vec![]);
}

#[test]
fn new_buffer_has_no_chains_and_zero_statistics() {
    let mut cpu = CPU::new();
    assert_eq!(cpu.chain_count(), 0);
    assert_eq!(cpu.total_queue_elements(), 0);
    assert_eq!(cpu.max_queue_elements(), 0);
    assert!(cpu.get_first().is_none());
    assert_eq!(cpu.chain_count(), 0);
    assert_eq!(cpu.total_queue_elements(), 0);
    assert_eq!(cpu.max_queue_elements(), 0);
}

#[test]
fn four_arrivals_with_buffer_size_two() {
    // The head chain takes the first two arrivals. It is full from then on,
    // so each later arrival starts a chain of its own while the head stays.
    let mut cpu = CPU::new();
    let grew = insert_all(&mut cpu, &[3, 5, 2, 7], 2);
    assert_eq!(grew, vec![true, false, true, true]);
    assert_eq!(cpu.chain_count(), 3);
    assert_eq!(cpu.total_queue_elements(), 1 + 1 + 2 + 3);
    assert_eq!(cpu.max_queue_elements(), 3);
    assert_eq!(served(cpu.get_first()), Some(vec![5, 3]));
    assert_eq!(served(cpu.get_first()), Some(vec![2]));
    assert_eq!(served(cpu.get_first()), Some(vec![7]));
    assert_eq!(served(cpu.get_first()), None);
    assert_eq!(cpu.total_queue_elements(), 7);
    assert_eq!(cpu.max_queue_elements(), 3);
}

#[test]
fn four_arrivals_with_buffer_size_two_and_head_served_in_between() {
    // Once the first chain has left, the third arrival starts the second
    // chain and the fourth fills it.
    let mut cpu = CPU::new();
    assert_eq!(insert_all(&mut cpu, &[3, 5], 2), vec![true, false]);
    assert_eq!(served(cpu.get_first()), Some(vec![5, 3]));
    assert_eq!(insert_all(&mut cpu, &[2, 7], 2), vec![true, false]);
    assert_eq!(cpu.chain_count(), 1);
    assert_eq!(cpu.total_queue_elements(), 1 + 1 + 1 + 1);
    assert_eq!(cpu.max_queue_elements(), 1);
    assert_eq!(served(cpu.get_first()), Some(vec![7, 2]));
    assert_eq!(served(cpu.get_first()), None);
}

#[test]
fn samples_are_taken_after_each_insert() {
    let mut cpu = CPU::new();
    let mut totals = vec![];
    for interval in [3, 5, 2] {
        cpu.insert_new(CPUProcess::new(interval), 2);
        totals.push(cpu.total_queue_elements());
    }
    assert_eq!(totals, vec![1, 2, 4]);
}

#[test]
fn buffer_size_one_is_a_queue_of_single_processes() {
    let mut cpu = CPU::new();
    assert_eq!(insert_all(&mut cpu, &[4, 9, 1], 1), vec![true, true, true]);
    assert_eq!(cpu.chain_count(), 3);
    assert_eq!(served(cpu.get_first()), Some(vec![4]));
    assert_eq!(insert_all(&mut cpu, &[6, 8], 1), vec![true, true]);
    // Four processes are buffered now, more than at any other time.
    assert_eq!(cpu.chain_count(), 4);
    assert_eq!(served(cpu.get_first()), Some(vec![9]));
    assert_eq!(served(cpu.get_first()), Some(vec![1]));
    assert_eq!(served(cpu.get_first()), Some(vec![6]));
    assert_eq!(served(cpu.get_first()), Some(vec![8]));
    assert_eq!(served(cpu.get_first()), None);
    assert_eq!(cpu.max_queue_elements(), 4);
    assert_eq!(cpu.total_queue_elements(), 1 + 2 + 3 + 3 + 4);
}

#[test]
fn extraction_leaves_statistics_alone() {
    let mut cpu = CPU::new();
    insert_all(&mut cpu, &[1, 2, 3, 4, 5], 2);
    let total = cpu.total_queue_elements();
    let peak = cpu.max_queue_elements();
    while cpu.get_first().is_some() {
        assert_eq!(cpu.total_queue_elements(), total);
        assert_eq!(cpu.max_queue_elements(), peak);
    }
    assert_eq!(cpu.chain_count(), 0);
}

/// A fixed, scrambled run of insertions and extractions, held against a
/// model kept by hand.
fn scrambled_run(buffer_size: usize, steps: usize) {
    let mut cpu = CPU::new();
    let mut model: Vec<Vec<u64>> = vec![];
    let mut seed: u64 = 0x2545_f491_4f6c_dd1d;
    let mut next_interval: u64 = 0;
    let mut inserted = 0usize;
    let mut drained = 0usize;
    let mut samples: Vec<usize> = vec![];
    let mut created_order: Vec<u64> = vec![];
    let mut extracted_order: Vec<u64> = vec![];
    for _ in 0..steps {
        seed = seed.wrapping_mul(6364136223846793005).wrapping_add(1442695040888963407);
        if (seed >> 33) % 3 != 0 {
            let head_open = model.first().map_or(false, |head| head.len() < buffer_size);
            let grew = cpu.insert_new(CPUProcess::new(next_interval), buffer_size);
            assert_eq!(grew, !head_open);
            if head_open {
                model[0].push(next_interval);
            } else {
                model.push(vec![next_interval]);
                created_order.push(next_interval);
            }
            next_interval += 1;
            inserted += 1;
            samples.push(model.len());
            assert_eq!(cpu.chain_count(), model.len());
        } else {
            let expected = if model.is_empty() { None } else { Some(model.remove(0)) };
            let got = cpu.get_first().map(|mut chain| {
                let len = chain.len();
                assert!(1 <= len && len <= buffer_size);
                let mut items: Vec<u64> = chain.drain().iter().map(|p| p.interval).collect();
                items.reverse();
                items
            });
            if let Some(items) = &got {
                drained += items.len();
                extracted_order.push(items[0]);
            }
            assert_eq!(got, expected);
        }
        assert_eq!(cpu.total_queue_elements(), samples.iter().sum::<usize>());
        assert_eq!(cpu.max_queue_elements(), samples.iter().copied().max().unwrap_or(0));
        assert!(cpu.max_queue_elements() >= cpu.chain_count());
    }
    while let Some(mut chain) = cpu.get_first() {
        let items = chain.drain();
        drained += items.len();
        extracted_order.push(items[items.len() - 1].interval);
    }
    assert_eq!(inserted, drained);
    assert_eq!(extracted_order, created_order);
}

#[test]
fn scrambled_runs_obey_the_laws() {
    scrambled_run(1, 400);
    scrambled_run(2, 400);
    scrambled_run(3, 400);
    scrambled_run(4, 1000);
}

#[test]
fn report_is_the_same_when_asked_twice() {
    let mut cpu = CPU::new();
    insert_all(&mut cpu, &[3, 5, 2, 7], 2);
    cpu.get_first();
    let first = cpu.report(4);
    let second = cpu.report(4);
    assert_eq!(first, second);
    assert_eq!(
        first,
        OccupancyReport { total_occupancy_samples: 7, processes_generated: 4, peak_chain_count: 3 }
    );
    assert_eq!(cpu.total_queue_elements(), 7);
    assert_eq!(cpu.max_queue_elements(), 3);
    assert_eq!(cpu.chain_count(), 2);
    let average = first.total_occupancy_samples as f64 / first.processes_generated as f64;
    assert_eq!(average, 1.75);
}
