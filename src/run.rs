//! The tallies of a run over a batch, and the sequential run.

use crate::task::{EvalError, TaskType, TaskValue};
use vstd::prelude::*;

verus! {

/// The number of tasks in `tasks` whose evaluation fails with `e`.
pub open spec fn failures(tasks: Seq<TaskType>, e: EvalError) -> nat
    decreases tasks.len(),
{
    if tasks.len() == 0 {
        0
    } else {
        failures(tasks.drop_last(), e) + if tasks.last().outcome() == Err::<TaskValue, EvalError>(
            e,
        ) {
            1nat
        } else {
            0nat
        }
    }
}

/// Every task of `tasks` evaluates within its native widths.
pub open spec fn all_fit(tasks: Seq<TaskType>) -> bool {
    forall|i: int| 0 <= i < tasks.len() ==> (#[trigger] tasks[i]).fits_native_width()
}

/// What a run has seen: how many tasks it processed, and how many of them
/// failed with each error.
#[derive(Clone, Copy, Debug, PartialEq, Eq, Structural)]
pub struct RunTally {
    pub processed: u64,
    pub division_by_zero: u64,
    pub zero_modulus: u64,
}

impl RunTally {
    /// No more failures than processed tasks.
    pub open spec fn wf(self) -> bool {
        self.division_by_zero + self.zero_modulus <= self.processed
    }

    /// The tally is the one of a run over exactly `tasks`.
    pub open spec fn counts(self, tasks: Seq<TaskType>) -> bool {
        &&& self.processed == tasks.len()
        &&& self.division_by_zero == failures(tasks, EvalError::DivisionByZero)
        &&& self.zero_modulus == failures(tasks, EvalError::ZeroModulus)
    }

    /// A tally of no task.
    pub fn new() -> (r: RunTally)
        ensures
            r.counts(Seq::empty()),
            r.wf(),
    {
        RunTally { processed: 0, division_by_zero: 0, zero_modulus: 0 }
    }

    /// Counts one evaluated task, by its outcome.
    pub fn record(&mut self, outcome: &Result<TaskValue, EvalError>)
        requires
            old(self).wf(),
            old(self).processed < u64::MAX,
        ensures
            final(self).wf(),
            final(self).processed == old(self).processed + 1,
            final(self).division_by_zero == old(self).division_by_zero + if *outcome == Err::<
                TaskValue,
                EvalError,
            >(EvalError::DivisionByZero) {
                1int
            } else {
                0int
            },
            final(self).zero_modulus == old(self).zero_modulus + if *outcome == Err::<
                TaskValue,
                EvalError,
            >(EvalError::ZeroModulus) {
                1int
            } else {
                0int
            },
    {
        self.processed = self.processed + 1;
        match outcome {
            Err(EvalError::DivisionByZero) => {
                self.division_by_zero = self.division_by_zero + 1;
            },
            Err(EvalError::ZeroModulus) => {
                self.zero_modulus = self.zero_modulus + 1;
            },
            Ok(_) => {},
        }
    }

    /// Evaluates `task` and counts it; hands back what the evaluation gave.
    pub fn run_task(&mut self, task: &TaskType) -> (r: Result<TaskValue, EvalError>)
        requires
            old(self).wf(),
            old(self).processed < u64::MAX,
            task.fits_native_width(),
        ensures
            r == task.outcome(),
            final(self).wf(),
            forall|tasks: Seq<TaskType>|
                old(self).counts(tasks) ==> #[trigger] final(self).counts(tasks.push(*task)),
    {
        let r = task.evaluate();
        self.record(&r);
        proof {
            assert forall|tasks: Seq<TaskType>| old(self).counts(tasks) implies #[trigger] self.counts(
                tasks.push(*task),
            ) by {
                assert(tasks.push(*task).drop_last() =~= tasks);
            }
        }
        r
    }

    /// Adds the counts of `other` to these.
    pub fn merge(&mut self, other: &RunTally)
        requires
            old(self).wf(),
            other.wf(),
            old(self).processed + other.processed <= u64::MAX,
        ensures
            final(self).wf(),
            final(self).processed == old(self).processed + other.processed,
            final(self).division_by_zero == old(self).division_by_zero + other.division_by_zero,
            final(self).zero_modulus == old(self).zero_modulus + other.zero_modulus,
    {
        self.processed = self.processed + other.processed;
        self.division_by_zero = self.division_by_zero + other.division_by_zero;
        self.zero_modulus = self.zero_modulus + other.zero_modulus;
    }
}

/// Whether every task of `tasks` evaluates within its native widths.
pub fn all_in_native_width(tasks: &[TaskType]) -> (r: bool)
    ensures
        r == all_fit(tasks@),
{
    let mut i: usize = 0;
    while i < tasks.len()
        invariant
            i <= tasks@.len(),
            forall|j: int| 0 <= j < i ==> (#[trigger] tasks@[j]).fits_native_width(),
        decreases tasks@.len() - i,
    {
        if !tasks[i].in_native_width() {
            return false;
        }
        i = i + 1;
    }
    true
}

/// Evaluates every task of `tasks` once, in order, one at a time, calling
/// `pause` before each; a failed task does not stop the run. Hands back the
/// tally of the run and the outcome of each task, in the order of `tasks`.
pub fn run_sequential<F: Fn()>(tasks: &[TaskType], pause: F) -> (r: (
    RunTally,
    Vec<Result<TaskValue, EvalError>>,
))
    requires
        all_fit(tasks@),
        pause.requires(()),
    ensures
        r.0.counts(tasks@),
        r.0.wf(),
        r.1@.len() == tasks@.len(),
        forall|i: int| 0 <= i < tasks@.len() ==> #[trigger] r.1@[i] == tasks@[i].outcome(),
{
    let mut tally = RunTally::new();
    let mut outcomes: Vec<Result<TaskValue, EvalError>> = Vec::new();
    let mut i: usize = 0;
    while i < tasks.len()
        invariant
            i <= tasks@.len(),
            all_fit(tasks@),
            pause.requires(()),
            tally.wf(),
            tally.counts(tasks@.subrange(0, i as int)),
            outcomes@.len() == i,
            forall|j: int| 0 <= j < i ==> #[trigger] outcomes@[j] == tasks@[j].outcome(),
        decreases tasks@.len() - i,
    {
        let ghost done = tasks@.subrange(0, i as int);
        pause();
        let outcome = tally.run_task(&tasks[i]);
        outcomes.push(outcome);
        i = i + 1;
        assert(done.push(tasks@[i - 1]) =~= tasks@.subrange(0, i as int));
    }
    assert(tasks@.subrange(0, i as int) =~= tasks@);
    (tally, outcomes)
}

} // verus!
