use taskbench::compare::{compare_durations, Comparison};
use taskbench::generator::generate_tasks_with_seed;
use taskbench::pool::combine_tallies;
use taskbench::queue::TaskQueue;
use taskbench::run::{all_in_native_width, run_sequential, RunTally};
use taskbench::settings::{
    max_worker_count, simulate_load_for_choice, worker_count_allowed, worker_limit,
};
use std::cell::Cell;
use taskbench::task::{EvalError, TaskType, TaskValue};

fn batch_with_failures() -> Vec<TaskType> {
    let mut batch = generate_tasks_with_seed(300, 5);
    for i in 0..20 {
        batch.insert(i * 7, TaskType::Divide { numerator: i as i32, denominator: 0 });
    }
    for i in 0..11 {
        batch.insert(i * 13 + 1, TaskType::ModuloExponentiation { base: 2, exponent: 3, modulus: 0 });
    }
    batch
}

// Workers take turns at the queue; worker `w` gets pops whose turn falls to it.
fn drain_with_workers(batch: &[TaskType], workers: usize) -> (Vec<Vec<TaskType>>, Vec<RunTally>) {
    let mut queue = TaskQueue::from_batch(batch);
    let mut received = vec![Vec::new(); workers];
    let mut tallies = vec![RunTally::new(); workers];
    let mut turn: usize = 0;
    while let Some(task) = queue.pop_front() {
        let w = (turn * 7 + turn / 3) % workers;
        received[w].push(task);
        let _ = tallies[w].run_task(&task);
        turn += 1;
    }
    assert!(queue.is_empty());
    (received, tallies)
}

#[test]
fn queue_pops_in_order_then_empty() {
    let batch = generate_tasks_with_seed(10, 3);
    let mut q = TaskQueue::from_batch(&batch);
    assert_eq!(q.len(), 10);
    for t in &batch {
        assert_eq!(q.pop_front(), Some(*t));
    }
    assert_eq!(q.pop_front(), None);
    assert!(q.is_empty());
    q.push_back(batch[0]);
    assert_eq!(q.len(), 1);
    assert!(TaskQueue::new().is_empty());
}

#[test]
fn workers_receive_the_batch_exactly_once() {
    let batch = batch_with_failures();
    for k in [1usize, 2, 8, 64] {
        let (received, _) = drain_with_workers(&batch, k);
        let mut all: Vec<String> = received.iter().flatten().map(|t| format!("{:?}", t)).collect();
        let mut expected: Vec<String> = batch.iter().map(|t| format!("{:?}", t)).collect();
        all.sort();
        expected.sort();
        assert_eq!(all, expected);
    }
}

#[test]
fn sequential_and_concurrent_tallies_agree() {
    let batch = batch_with_failures();
    assert!(all_in_native_width(&batch));
    let (sequential, outcomes) = run_sequential(&batch, || {});
    assert_eq!(outcomes.len(), batch.len());
    assert_eq!(sequential.processed, batch.len() as u64);
    assert_eq!(sequential.division_by_zero, 20);
    assert_eq!(sequential.zero_modulus, 11);
    for k in [1usize, 2, 8, 64] {
        let (_, tallies) = drain_with_workers(&batch, k);
        assert_eq!(combine_tallies(&tallies), Some(sequential));
    }
}

#[test]
fn sequential_run_gives_outcomes_in_order() {
    let batch = vec![
        TaskType::Divide { numerator: 1, denominator: 0 },
        TaskType::Compute { a: 2, b: 3 },
        TaskType::ModuloExponentiation { base: 2, exponent: 3, modulus: 0 },
        TaskType::Divide { numerator: 9, denominator: 3 },
        TaskType::Divide { numerator: 5, denominator: 0 },
    ];
    let pauses = Cell::new(0u32);
    let (tally, outcomes) = run_sequential(&batch, || pauses.set(pauses.get() + 1));
    assert_eq!(pauses.get(), 5);
    assert_eq!(
        outcomes,
        vec![
            Err(EvalError::DivisionByZero),
            Ok(TaskValue::Sum(5)),
            Err(EvalError::ZeroModulus),
            Ok(TaskValue::Quotient(3)),
            Err(EvalError::DivisionByZero),
        ]
    );
    assert_eq!(tally, RunTally { processed: 5, division_by_zero: 2, zero_modulus: 1 });
    let (empty_tally, none) = run_sequential(&[], || {});
    assert!(none.is_empty());
    assert_eq!(empty_tally, RunTally::new());
}

#[test]
fn tally_records_each_outcome() {
    let mut t = RunTally::new();
    t.record(&Err(EvalError::DivisionByZero));
    t.record(&Err(EvalError::ZeroModulus));
    t.record(&TaskType::Compute { a: 1, b: 2 }.evaluate());
    assert_eq!(t, RunTally { processed: 3, division_by_zero: 1, zero_modulus: 1 });
    let mut u = RunTally::new();
    u.merge(&t);
    u.merge(&t);
    assert_eq!(u, RunTally { processed: 6, division_by_zero: 2, zero_modulus: 2 });
}

#[test]
fn combine_tallies_overflow_and_empty() {
    assert_eq!(combine_tallies(&[]), Some(RunTally::new()));
    let big = RunTally { processed: u64::MAX, division_by_zero: 0, zero_modulus: 0 };
    let one = RunTally { processed: 1, division_by_zero: 0, zero_modulus: 0 };
    assert_eq!(combine_tallies(&[big, one]), None);
    assert_eq!(combine_tallies(&[big]), Some(big));
}

#[test]
fn native_width_of_batches() {
    assert!(all_in_native_width(&[]));
    assert!(!all_in_native_width(&[TaskType::Compute { a: 1, b: 1 }, TaskType::Factorial { n: 30 }]));
}

#[test]
fn comparison_reports() {
    assert_eq!(
        compare_durations(100_000_000, 50_000_000),
        Comparison::ConcurrentFaster { ratio_hundredths: Some(200) }
    );
    assert_eq!(compare_durations(7_000, 7_000), Comparison::Equal);
    assert_eq!(compare_durations(0, 0), Comparison::Equal);
    assert_eq!(
        compare_durations(30, 100),
        Comparison::SerialFaster { ratio_hundredths: Some(333) }
    );
    assert_eq!(
        compare_durations(3, 2),
        Comparison::ConcurrentFaster { ratio_hundredths: Some(150) }
    );
    assert_eq!(
        compare_durations(200, 3),
        Comparison::ConcurrentFaster { ratio_hundredths: Some(6667) }
    );
    assert_eq!(compare_durations(5, 0), Comparison::ConcurrentFaster { ratio_hundredths: None });
    assert_eq!(
        compare_durations(0, u64::MAX),
        Comparison::SerialFaster { ratio_hundredths: None }
    );
    assert_eq!(
        compare_durations(u64::MAX, 1),
        Comparison::ConcurrentFaster { ratio_hundredths: Some(u64::MAX as u128 * 100) }
    );
}

#[test]
fn settings_rules() {
    assert_eq!(simulate_load_for_choice(1), Some(false));
    assert_eq!(simulate_load_for_choice(2), Some(true));
    assert_eq!(simulate_load_for_choice(0), None);
    assert_eq!(simulate_load_for_choice(3), None);
    assert!(worker_count_allowed(1, 1));
    assert!(worker_count_allowed(8, 8));
    assert!(!worker_count_allowed(0, 8));
    assert!(!worker_count_allowed(9, 8));
    assert!(max_worker_count() >= 1);
    assert_eq!(worker_limit(1), 1);
    assert_eq!(worker_limit(16), 16);
    assert_eq!(worker_limit(u32::MAX as usize), u32::MAX);
    assert_eq!(worker_limit(u32::MAX as usize + 1), u32::MAX);
    assert_eq!(worker_limit(usize::MAX), u32::MAX);
}
