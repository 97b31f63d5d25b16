use chainqueue::config::{ConfigError, SimulationConfig};
use chainqueue::cpu::CPU;
use chainqueue::generator::Generator;
use chainqueue::server::{PollOutcome, Server, ServerAction, ServerState};
use chainqueue::chain::CPUQueue;
use chainqueue::process::CPUProcess;

fn chain_of(intervals: &[u64]) -> CPUQueue {
    let mut chain = CPUQueue::new();
    for &interval in intervals {
        chain.insert(CPUProcess::new(interval));
    }
    chain
}

#[test]
fn valid_settings_are_kept() {
    let config = SimulationConfig::new(4, 2, 5, 3, 9, 200).expect("valid settings");
    assert_eq!(config.buffer_size(), 4);
    assert_eq!(config.arrival_range(), (2, 5));
    assert_eq!(config.service_range(), (3, 9));
    assert_eq!(config.process_count(), 200);
}

#[test]
fn zero_buffer_size_is_refused_first() {
    assert_eq!(SimulationConfig::new(0, 2, 5, 2, 5, 200).err(), Some(ConfigError::ZeroBufferSize));
    assert_eq!(SimulationConfig::new(0, 5, 5, 9, 1, 0).err(), Some(ConfigError::ZeroBufferSize));
}

#[test]
fn empty_ranges_are_refused() {
    assert_eq!(SimulationConfig::new(1, 5, 5, 2, 5, 1).err(), Some(ConfigError::EmptyArrivalRange));
    assert_eq!(SimulationConfig::new(1, 6, 5, 5, 2, 0).err(), Some(ConfigError::EmptyArrivalRange));
    assert_eq!(SimulationConfig::new(1, 2, 5, 5, 5, 1).err(), Some(ConfigError::EmptyServiceRange));
    assert_eq!(SimulationConfig::new(1, 2, 5, 9, 5, 0).err(), Some(ConfigError::EmptyServiceRange));
    assert!(SimulationConfig::new(1, 0, 1, u64::MAX - 1, u64::MAX, 1).is_ok());
}

#[test]
fn zero_process_count_is_refused() {
    assert_eq!(SimulationConfig::new(1, 2, 5, 2, 5, 0).err(), Some(ConfigError::ZeroProcessCount));
}

#[test]
fn generator_produces_the_configured_number_of_arrivals() {
    let config = SimulationConfig::new(4, 2, 5, 10, 20, 200).expect("valid settings");
    let mut generator = Generator::new(&config);
    assert_eq!(generator.remaining(), 200);
    assert!(!generator.is_finished());
    let mut produced = 0;
    let mut waits = vec![];
    while let Some(arrival) = generator.next_arrival() {
        assert!(2 <= arrival.wait && arrival.wait < 5);
        assert!(10 <= arrival.process.interval && arrival.process.interval < 20);
        produced += 1;
        assert_eq!(generator.remaining(), 200 - produced);
        waits.push(arrival.wait);
    }
    assert_eq!(produced, 200);
    assert!(generator.is_finished());
    assert_eq!(generator.next_arrival(), None);
    assert_eq!(generator.remaining(), 0);
    // Two hundred draws from three numbers are not all the lower bound.
    assert!(waits.iter().any(|wait| *wait != 2));
}

#[test]
fn draws_from_a_range_of_one_number_give_that_number() {
    let config = SimulationConfig::new(1, 7, 8, 3, 4, 5).expect("valid settings");
    let mut generator = Generator::new(&config);
    while let Some(arrival) = generator.next_arrival() {
        assert_eq!(arrival.wait, 7);
        assert_eq!(arrival.process, CPUProcess::new(3));
    }
}

#[test]
fn server_services_a_chain_and_keeps_polling() {
    let mut server = Server::new();
    assert_eq!(server.state(), ServerState::Polling);
    match server.step(PollOutcome::Chain(chain_of(&[3, 5]))) {
        ServerAction::Service(processes) => {
            assert_eq!(processes, vec![CPUProcess::new(5), CPUProcess::new(3)])
        }
        other => panic!("{:?}", other),
    }
    assert_eq!(server.state(), ServerState::Polling);
    assert!(!server.is_terminated());
}

#[test]
fn server_retries_while_the_flag_is_down() {
    let mut server = Server::new();
    for _ in 0..1000 {
        assert!(matches!(server.step(PollOutcome::Empty { completed: false }), ServerAction::Retry));
        assert_eq!(server.state(), ServerState::Polling);
    }
}

#[test]
fn server_stops_two_polls_after_completion() {
    let mut server = Server::new();
    assert!(matches!(server.step(PollOutcome::Empty { completed: true }), ServerAction::Retry));
    assert_eq!(server.state(), ServerState::Draining);
    assert!(matches!(server.step(PollOutcome::Empty { completed: true }), ServerAction::Stop));
    assert_eq!(server.state(), ServerState::Terminated);
    assert!(server.is_terminated());
}

#[test]
fn draining_server_services_what_arrived_in_time() {
    let mut server = Server::new();
    server.step(PollOutcome::Empty { completed: true });
    match server.step(PollOutcome::Chain(chain_of(&[9]))) {
        ServerAction::Service(processes) => assert_eq!(processes, vec![CPUProcess::new(9)]),
        other => panic!("{:?}", other),
    }
    assert_eq!(server.state(), ServerState::Draining);
    assert!(matches!(server.step(PollOutcome::Empty { completed: true }), ServerAction::Stop));
    assert!(server.is_terminated());
}

/// Runs generator and server in turn on one buffer, the server polling
/// `polls_per_arrival` times after each arrival, and returns the number of
/// processes serviced together with the final report's numbers.
fn run(buffer_size: usize, process_count: usize, polls_per_arrival: usize) -> (usize, usize, usize) {
    let config = SimulationConfig::new(buffer_size, 2, 5, 2, 5, process_count).expect("valid");
    let mut generator = Generator::new(&config);
    let mut cpu = CPU::new();
    let mut server = Server::new();
    let mut completed = false;
    let mut serviced = 0;
    let mut polls_after_done = 0;
    while !server.is_terminated() {
        match generator.next_arrival() {
            Some(arrival) => {
                cpu.insert_new(arrival.process, config.buffer_size());
            }
            None => completed = true,
        }
        let polls = if completed { 1 } else { polls_per_arrival };
        for _ in 0..polls {
            if server.is_terminated() {
                break;
            }
            let was_done = completed && cpu.chain_count() == 0;
            let outcome = match cpu.get_first() {
                Some(chain) => {
                    assert!(chain.len() <= buffer_size);
                    PollOutcome::Chain(chain)
                }
                None => PollOutcome::Empty { completed },
            };
            match server.step(outcome) {
                ServerAction::Service(processes) => serviced += processes.len(),
                ServerAction::Retry => assert!(!server.is_terminated()),
                ServerAction::Stop => {
                    assert!(completed);
                    assert_eq!(cpu.chain_count(), 0);
                }
            }
            if was_done {
                polls_after_done += 1;
            }
        }
    }
    assert!(polls_after_done <= 2);
    assert_eq!(generator.remaining(), 0);
    let report = cpu.report(config.process_count());
    assert_eq!(report, cpu.report(config.process_count()));
    (serviced, report.total_occupancy_samples, report.peak_chain_count)
}

#[test]
fn every_generated_process_is_serviced() {
    for buffer_size in 1..6 {
        for polls in 0..3 {
            let (serviced, total, peak) = run(buffer_size, 200, polls);
            assert_eq!(serviced, 200);
            assert!(peak >= 1);
            assert!(total >= 200);
            assert!(total <= 200 * peak);
        }
    }
}

#[test]
fn a_server_that_never_polls_early_sees_the_whole_backlog() {
    let (serviced, total, peak) = run(4, 10, 0);
    assert_eq!(serviced, 10);
    // The head chain takes four processes; each of the other six starts a
    // chain of its own.
    assert_eq!(peak, 7);
    assert_eq!(total, 1 + 1 + 1 + 1 + 2 + 3 + 4 + 5 + 6 + 7);
}

#[test]
fn arrival_carries_the_numbers_that_were_drawn() {
    let config = SimulationConfig::new(4, 2, 5, 10, 20, 2).expect("valid settings");
    let mut generator = Generator::new(&config);
    let first = generator.arrival_of(3, 11).expect("two processes are left");
    assert_eq!(first.wait, 3);
    assert_eq!(first.process, CPUProcess::new(11));
    assert_eq!(generator.remaining(), 1);
    assert!(generator.arrival_of(4, 19).is_some());
    assert!(generator.is_finished());
    assert_eq!(generator.arrival_of(2, 10), None);
    assert_eq!(generator.remaining(), 0);
}
