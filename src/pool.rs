//! How the tasks of a concurrent run are shared among its workers.
//!
//! The workers of a run take turns at the queue, one pop at a time, so the
//! successive pops of a run form one sequence: the queue's `taken` tasks. Once
//! the queue is drained that sequence is everything loaded into it
//! (`lemma_drained_queue_gave_all`). A run is then described by that sequence
//! and, for each pop, the worker that made it.

use crate::queue::{lemma_drained_queue_gave_all, TaskQueue};
use crate::run::{failures, RunTally};
use crate::task::{EvalError, TaskType};
use vstd::multiset::Multiset;
use vstd::prelude::*;

verus! {

/// The tasks, in order, that worker `w` received, where the `i`-th pop of
/// `pops` went to worker `owner[i]`.
pub open spec fn received(pops: Seq<TaskType>, owner: Seq<nat>, w: nat) -> Seq<TaskType>
    decreases pops.len(),
{
    if pops.len() == 0 || owner.len() == 0 {
        Seq::empty()
    } else {
        let rest = received(pops.drop_last(), owner.drop_last(), w);
        if owner.last() == w {
            rest.push(pops.last())
        } else {
            rest
        }
    }
}

/// The tasks that workers `0..k` received, taken together.
pub open spec fn received_by_workers(pops: Seq<TaskType>, owner: Seq<nat>, k: nat) -> Multiset<
    TaskType,
>
    decreases k,
{
    if k == 0 {
        Multiset::empty()
    } else {
        received_by_workers(pops, owner, (k - 1) as nat).add(
            received(pops, owner, (k - 1) as nat).to_multiset(),
        )
    }
}

/// The sums of the counts of the tallies of `tallies`: processed tasks,
/// divisions by zero and zero moduli.
pub open spec fn tally_sum(tallies: Seq<RunTally>) -> (nat, nat, nat)
    decreases tallies.len(),
{
    if tallies.len() == 0 {
        (0, 0, 0)
    } else {
        let (p, d, z) = tally_sum(tallies.drop_last());
        let t = tallies.last();
        (p + t.processed as nat, d + t.division_by_zero as nat, z + t.zero_modulus as nat)
    }
}

/// Each pop went to one of the `k` workers.
pub open spec fn valid_owners(pops: Seq<TaskType>, owner: Seq<nat>, k: nat) -> bool {
    &&& owner.len() == pops.len()
    &&& forall|i: int| 0 <= i < owner.len() ==> #[trigger] owner[i] < k
}

proof fn lemma_received_step(pops: Seq<TaskType>, owner: Seq<nat>, x: TaskType, w0: nat, w: nat)
    requires
        owner.len() == pops.len(),
    ensures
        received(pops.push(x), owner.push(w0), w) == if w == w0 {
            received(pops, owner, w).push(x)
        } else {
            received(pops, owner, w)
        },
{
    assert(pops.push(x).drop_last() =~= pops);
    assert(owner.push(w0).drop_last() =~= owner);
}

proof fn lemma_received_by_workers_step(
    pops: Seq<TaskType>,
    owner: Seq<nat>,
    x: TaskType,
    w0: nat,
    j: nat,
)
    requires
        owner.len() == pops.len(),
    ensures
        received_by_workers(pops.push(x), owner.push(w0), j) == if w0 < j {
            received_by_workers(pops, owner, j).insert(x)
        } else {
            received_by_workers(pops, owner, j)
        },
    decreases j,
{
    broadcast use vstd::seq_lib::group_to_multiset_ensures;

    if j > 0 {
        let w = (j - 1) as nat;
        lemma_received_by_workers_step(pops, owner, x, w0, w);
        lemma_received_step(pops, owner, x, w0, w);
        let before = received_by_workers(pops, owner, w);
        let mine = received(pops, owner, w).to_multiset();
        if w == w0 {
            assert(before.add(mine.insert(x)) =~= before.add(mine).insert(x));
        } else if w0 < w {
            assert(before.insert(x).add(mine) =~= before.add(mine).insert(x));
        }
    }
}

/// No task is lost or handed out twice: whichever worker each pop went to, the
/// tasks that the `k` workers received, taken together, are the popped tasks,
/// each exactly once.
pub proof fn lemma_workers_share_batch(pops: Seq<TaskType>, owner: Seq<nat>, k: nat)
    requires
        valid_owners(pops, owner, k),
    ensures
        received_by_workers(pops, owner, k) == pops.to_multiset(),
    decreases pops.len(),
{
    broadcast use vstd::seq_lib::group_to_multiset_ensures;

    if pops.len() == 0 {
        lemma_received_by_workers_empty(pops, owner, k);
        assert(pops.to_multiset() =~= Multiset::empty());
    } else {
        let rest = pops.drop_last();
        let rest_owner = owner.drop_last();
        let x = pops.last();
        let w0 = owner.last();
        assert(owner[owner.len() - 1] < k);
        lemma_workers_share_batch(rest, rest_owner, k);
        lemma_received_by_workers_step(rest, rest_owner, x, w0, k);
        assert(rest.push(x) =~= pops);
        assert(rest_owner.push(w0) =~= owner);
    }
}

proof fn lemma_received_by_workers_empty(pops: Seq<TaskType>, owner: Seq<nat>, k: nat)
    requires
        pops.len() == 0,
    ensures
        received_by_workers(pops, owner, k) =~= Multiset::empty(),
    decreases k,
{
    broadcast use vstd::seq_lib::group_to_multiset_ensures;

    if k > 0 {
        lemma_received_by_workers_empty(pops, owner, (k - 1) as nat);
        assert(received(pops, owner, (k - 1) as nat) =~= Seq::empty());
        assert(Seq::<TaskType>::empty().to_multiset() =~= Multiset::empty());
    }
}

/// The number of tasks that workers `0..k` received.
pub open spec fn processed_by_workers(pops: Seq<TaskType>, owner: Seq<nat>, k: nat) -> nat
    decreases k,
{
    if k == 0 {
        0
    } else {
        processed_by_workers(pops, owner, (k - 1) as nat) + received(
            pops,
            owner,
            (k - 1) as nat,
        ).len()
    }
}

/// The number of tasks that workers `0..k` received and that fail with `e`.
pub open spec fn failures_by_workers(
    pops: Seq<TaskType>,
    owner: Seq<nat>,
    k: nat,
    e: EvalError,
) -> nat
    decreases k,
{
    if k == 0 {
        0
    } else {
        failures_by_workers(pops, owner, (k - 1) as nat, e) + failures(
            received(pops, owner, (k - 1) as nat),
            e,
        )
    }
}

proof fn lemma_counts_by_workers_step(
    pops: Seq<TaskType>,
    owner: Seq<nat>,
    x: TaskType,
    w0: nat,
    j: nat,
    e: EvalError,
)
    requires
        owner.len() == pops.len(),
    ensures
        processed_by_workers(pops.push(x), owner.push(w0), j) == processed_by_workers(
            pops,
            owner,
            j,
        ) + if w0 < j {
            1nat
        } else {
            0nat
        },
        failures_by_workers(pops.push(x), owner.push(w0), j, e) == failures_by_workers(
            pops,
            owner,
            j,
            e,
        ) + if w0 < j && x.outcome() == Err::<crate::task::TaskValue, EvalError>(e) {
            1nat
        } else {
            0nat
        },
    decreases j,
{
    if j > 0 {
        let w = (j - 1) as nat;
        lemma_counts_by_workers_step(pops, owner, x, w0, w, e);
        lemma_received_step(pops, owner, x, w0, w);
        let mine = received(pops, owner, w);
        assert(mine.push(x).drop_last() =~= mine);
    }
}

proof fn lemma_counts_by_workers(pops: Seq<TaskType>, owner: Seq<nat>, k: nat, e: EvalError)
    requires
        valid_owners(pops, owner, k),
    ensures
        processed_by_workers(pops, owner, k) == pops.len(),
        failures_by_workers(pops, owner, k, e) == failures(pops, e),
    decreases pops.len(),
{
    if pops.len() == 0 {
        lemma_counts_by_workers_empty(pops, owner, k, e);
    } else {
        let rest = pops.drop_last();
        let rest_owner = owner.drop_last();
        let x = pops.last();
        let w0 = owner.last();
        assert(owner[owner.len() - 1] < k);
        lemma_counts_by_workers(rest, rest_owner, k, e);
        lemma_counts_by_workers_step(rest, rest_owner, x, w0, k, e);
        assert(rest.push(x) =~= pops);
        assert(rest_owner.push(w0) =~= owner);
    }
}

proof fn lemma_counts_by_workers_empty(pops: Seq<TaskType>, owner: Seq<nat>, k: nat, e: EvalError)
    requires
        pops.len() == 0,
    ensures
        processed_by_workers(pops, owner, k) == 0,
        failures_by_workers(pops, owner, k, e) == 0,
    decreases k,
{
    if k > 0 {
        lemma_counts_by_workers_empty(pops, owner, (k - 1) as nat, e);
        assert(received(pops, owner, (k - 1) as nat) =~= Seq::empty());
    }
}

proof fn lemma_tally_sum_prefix(pops: Seq<TaskType>, owner: Seq<nat>, tallies: Seq<RunTally>, j: nat)
    requires
        j <= tallies.len(),
        forall|w: int| 0 <= w < tallies.len() ==> #[trigger] tallies[w].counts(
            received(pops, owner, w as nat),
        ),
    ensures
        tally_sum(tallies.subrange(0, j as int)) == (
            processed_by_workers(pops, owner, j),
            failures_by_workers(pops, owner, j, EvalError::DivisionByZero),
            failures_by_workers(pops, owner, j, EvalError::ZeroModulus),
        ),
    decreases j,
{
    if j > 0 {
        lemma_tally_sum_prefix(pops, owner, tallies, (j - 1) as nat);
        let prefix = tallies.subrange(0, j as int);
        assert(prefix.drop_last() =~= tallies.subrange(0, j - 1));
        assert(tallies[j - 1].counts(received(pops, owner, (j - 1) as nat)));
    } else {
        assert(tallies.subrange(0, 0) =~= Seq::<RunTally>::empty());
    }
}

/// A concurrent run counts what a sequential run over the same batch counts,
/// whatever the number `k` of workers and whichever worker took each task: where
/// each worker's tally counts the tasks it received, the tallies of the `k`
/// workers add up to the tally of the sequential run, in processed tasks and in
/// failures of each kind.
pub proof fn lemma_concurrent_tally_matches_sequential(
    pops: Seq<TaskType>,
    owner: Seq<nat>,
    k: nat,
    tallies: Seq<RunTally>,
    sequential: RunTally,
)
    requires
        valid_owners(pops, owner, k),
        tallies.len() == k,
        forall|w: int| 0 <= w < k ==> #[trigger] tallies[w].counts(received(pops, owner, w as nat)),
        sequential.counts(pops),
    ensures
        tally_sum(tallies) == (
            sequential.processed as nat,
            sequential.division_by_zero as nat,
            sequential.zero_modulus as nat,
        ),
{
    lemma_tally_sum_prefix(pops, owner, tallies, k);
    assert(tallies.subrange(0, k as int) =~= tallies);
    lemma_counts_by_workers(pops, owner, k, EvalError::DivisionByZero);
    lemma_counts_by_workers(pops, owner, k, EvalError::ZeroModulus);
}

/// No task of a drained queue is lost or handed out twice: whichever of the
/// `k` workers each pop went to, the tasks that the workers received, taken
/// together, are the tasks loaded into the queue, each exactly once.
pub proof fn lemma_drained_queue_shared_among_workers(q: TaskQueue, owner: Seq<nat>, k: nat)
    requires
        q@.len() == 0,
        valid_owners(q.taken(), owner, k),
    ensures
        received_by_workers(q.taken(), owner, k) == q.loaded().to_multiset(),
{
    lemma_drained_queue_gave_all(q);
    lemma_workers_share_batch(q.taken(), owner, k);
}

/// A concurrent run over a drained queue counts what a sequential run over the
/// tasks loaded into it counts, whatever the number `k` of workers and
/// whichever worker took each task: where each worker's tally counts the tasks
/// it popped, the tallies of the `k` workers add up to the sequential tally.
pub proof fn lemma_drained_queue_tally_matches_sequential(
    q: TaskQueue,
    owner: Seq<nat>,
    k: nat,
    tallies: Seq<RunTally>,
    sequential: RunTally,
)
    requires
        q@.len() == 0,
        valid_owners(q.taken(), owner, k),
        tallies.len() == k,
        forall|w: int|
            0 <= w < k ==> #[trigger] tallies[w].counts(received(q.taken(), owner, w as nat)),
        sequential.counts(q.loaded()),
    ensures
        tally_sum(tallies) == (
            sequential.processed as nat,
            sequential.division_by_zero as nat,
            sequential.zero_modulus as nat,
        ),
{
    lemma_drained_queue_gave_all(q);
    lemma_concurrent_tally_matches_sequential(q.taken(), owner, k, tallies, sequential);
}

/// The tally of a whole concurrent run, from the tallies of its workers:
/// `None` where a sum of counts does not fit a `u64`.
pub fn combine_tallies(tallies: &[RunTally]) -> (r: Option<RunTally>)
    ensures
        ({
            let (p, d, z) = tally_sum(tallies@);
            match r {
                Some(t) => p <= u64::MAX && d <= u64::MAX && z <= u64::MAX && t.processed == p
                    && t.division_by_zero == d && t.zero_modulus == z,
                None => p > u64::MAX || d > u64::MAX || z > u64::MAX,
            }
        }),
{
    let mut p: u64 = 0;
    let mut d: u64 = 0;
    let mut z: u64 = 0;
    let mut i: usize = 0;
    while i < tallies.len()
        invariant
            i <= tallies@.len(),
            tally_sum(tallies@.subrange(0, i as int)) == (p as nat, d as nat, z as nat),
        decreases tallies@.len() - i,
    {
        let t = tallies[i];
        assert(tallies@.subrange(0, i + 1).drop_last() =~= tallies@.subrange(0, i as int));
        let next_p = p.checked_add(t.processed);
        let next_d = d.checked_add(t.division_by_zero);
        let next_z = z.checked_add(t.zero_modulus);
        if next_p.is_none() || next_d.is_none() || next_z.is_none() {
            proof {
                lemma_tally_sum_grows(tallies@, (i + 1) as nat);
                assert(tallies@.subrange(0, tallies@.len() as int) =~= tallies@);
            }
            return None;
        }
        p = next_p.unwrap();
        d = next_d.unwrap();
        z = next_z.unwrap();
        i = i + 1;
    }
    assert(tallies@.subrange(0, i as int) =~= tallies@);
    Some(RunTally { processed: p, division_by_zero: d, zero_modulus: z })
}

proof fn lemma_tally_sum_grows(tallies: Seq<RunTally>, j: nat)
    requires
        j <= tallies.len(),
    ensures
        ({
            let (p0, d0, z0) = tally_sum(tallies.subrange(0, j as int));
            let (p, d, z) = tally_sum(tallies);
            p0 <= p && d0 <= d && z0 <= z
        }),
    decreases tallies.len() - j,
{
    if j < tallies.len() {
        lemma_tally_sum_grows(tallies, j + 1);
        assert(tallies.subrange(0, j + 1 as int).drop_last() =~= tallies.subrange(0, j as int));
    } else {
        assert(tallies.subrange(0, j as int) =~= tallies);
    }
}

} // verus!
