//! The rules for the settings of a benchmark.

use vstd::prelude::*;

verus! {

/// Relies on `num_cpus::get`: the number of logical cores available, which is
/// always at least 1.
#[verifier::external_body]
fn logical_cpus() -> (r: usize)
    ensures
        r >= 1,
{
    num_cpus::get()
}

/// The largest number of workers a run may use where `cpus` logical cores are
/// available: that number, capped at `u32::MAX`.
pub fn worker_limit(cpus: usize) -> (r: u32)
    ensures
        r as int == (if cpus as int > u32::MAX as int {
            u32::MAX as int
        } else {
            cpus as int
        }),
{
    if cpus > u32::MAX as usize {
        u32::MAX
    } else {
        cpus as u32
    }
}

/// The largest number of workers a run may use here: `worker_limit` of the
/// logical cores available, which is at least 1 on any machine.
pub fn max_worker_count() -> (r: u32)
    ensures
        r >= 1,
{
    worker_limit(logical_cpus())
}

/// The mode chosen by its number: `Some(false)` for the plain run (1),
/// `Some(true)` for the run with simulated load (2), else `None`.
pub fn simulate_load_for_choice(choice: u32) -> (r: Option<bool>)
    ensures
        r == (if choice == 1 {
            Some(false)
        } else if choice == 2 {
            Some(true)
        } else {
            None
        }),
{
    if choice == 1 {
        Some(false)
    } else if choice == 2 {
        Some(true)
    } else {
        None
    }
}

/// Whether a run may use `count` workers where at most `max` are available.
pub fn worker_count_allowed(count: u32, max: u32) -> (r: bool)
    ensures
        r == (1 <= count <= max),
{
    count > 0 && count <= max
}

} // verus!
