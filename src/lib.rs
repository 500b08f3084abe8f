//! A micro-benchmark harness: a closed set of small arithmetic tasks, a seeded
//! generator for batches of them, their evaluator, the queue that workers drain,
//! the tallies of a run and the comparison of two timings.

pub mod helpers;
pub mod task;
pub mod generator;
pub mod queue;
pub mod run;
pub mod compare;
pub mod settings;
pub mod pool;
