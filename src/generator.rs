//! Seeded generation of task batches.

use crate::helpers::{factorial_of, fib_number};
use crate::task::TaskType;
use rand::rngs::StdRng;
use rand::{Rng, SeedableRng};
use vstd::prelude::*;

verus! {

#[verifier::external_type_specification]
#[verifier::external_body]
pub struct ExStdRng(StdRng);

/// The generator that `StdRng::seed_from_u64` builds from `seed`.
pub uninterp spec fn seeded_rng(seed: u64) -> StdRng;

/// The value that `gen_range(lo..hi)` draws from a generator in the state `rng`,
/// and the state it leaves the generator in.
pub uninterp spec fn gen_range_u32(rng: StdRng, lo: u32, hi: u32) -> (u32, StdRng);

/// As `gen_range_u32`, for a range of `u64`.
pub uninterp spec fn gen_range_u64(rng: StdRng, lo: u64, hi: u64) -> (u64, StdRng);

/// Relies on `SeedableRng::seed_from_u64` for `StdRng`: the generator is built
/// from the seed alone.
#[verifier::external_body]
fn seeded(seed: u64) -> (r: StdRng)
    ensures
        r == seeded_rng(seed),
{
    StdRng::seed_from_u64(seed)
}

/// Relies on `Rng::gen_range` over `lo..hi` of `u32`: a value in the range,
/// drawn and stepped deterministically from the generator's state; an empty
/// range panics.
#[verifier::external_body]
fn draw_u32(rng: &mut StdRng, lo: u32, hi: u32) -> (r: u32)
    requires
        lo < hi,
    ensures
        lo <= r < hi,
        (r, *final(rng)) == gen_range_u32(*old(rng), lo, hi),
{
    rng.gen_range(lo..hi)
}

/// Relies on `Rng::gen_range` over `lo..hi` of `u64`: a value in the range,
/// drawn and stepped deterministically from the generator's state; an empty
/// range panics.
#[verifier::external_body]
fn draw_u64(rng: &mut StdRng, lo: u64, hi: u64) -> (r: u64)
    requires
        lo < hi,
    ensures
        lo <= r < hi,
        (r, *final(rng)) == gen_range_u64(*old(rng), lo, hi),
{
    rng.gen_range(lo..hi)
}

/// The seed of the batches that the benchmark runs.
pub const DEFAULT_SEED: u64 = 42;

/// The task drawn from a generator in the state `rng`, and the state after it:
/// first a kind among the seven, then its operands.
pub open spec fn draw_task(rng: StdRng) -> (TaskType, StdRng) {
    let (kind, r0) = gen_range_u32(rng, 0, 7);
    if kind == 0 {
        let (a, r1) = gen_range_u32(r0, 1, 100);
        let (b, r2) = gen_range_u32(r1, 1, 100);
        (TaskType::Compute { a: a as i32, b: b as i32 }, r2)
    } else if kind == 1 {
        let (n, r1) = gen_range_u32(r0, 1, 30);
        (TaskType::Fibonacci { n }, r1)
    } else if kind == 2 {
        let (x, r1) = gen_range_u32(r0, 1, 100);
        let (y, r2) = gen_range_u32(r1, 1, 99);
        (TaskType::Divide { numerator: x as i32, denominator: (y + 1) as i32 }, r2)
    } else if kind == 3 {
        let (a, r1) = gen_range_u32(r0, 1, 100);
        let (b, r2) = gen_range_u32(r1, 1, 100);
        (TaskType::Multiply { a: a as i32, b: b as i32 }, r2)
    } else if kind == 4 {
        let (n, r1) = gen_range_u32(r0, 0, 20);
        (TaskType::Factorial { n }, r1)
    } else if kind == 5 {
        let (n, r1) = gen_range_u32(r0, 1, 100);
        (TaskType::PrimeCheck { n }, r1)
    } else {
        let (b, r1) = gen_range_u64(r0, 2, 20);
        let (e, r2) = gen_range_u64(r1, 2, 10);
        let (m, r3) = gen_range_u64(r2, 1, 50);
        (TaskType::ModuloExponentiation { base: b, exponent: e, modulus: (m + 1) as u64 }, r3)
    }
}

/// The `n` tasks drawn one after another from a generator in the state `rng`.
pub open spec fn generated_from(rng: StdRng, n: nat) -> Seq<TaskType>
    decreases n,
{
    if n == 0 {
        Seq::empty()
    } else {
        let (t, next) = draw_task(rng);
        seq![t] + generated_from(next, (n - 1) as nat)
    }
}

/// The batch of `n` tasks generated from `seed`.
pub open spec fn generated(n: nat, seed: u64) -> Seq<TaskType> {
    generated_from(seeded_rng(seed), n)
}

proof fn lemma_generated_len(rng: StdRng, n: nat)
    ensures
        generated_from(rng, n).len() == n,
    decreases n,
{
    if n > 0 {
        let (t, next) = draw_task(rng);
        lemma_generated_len(next, (n - 1) as nat);
    }
}

/// Generation is reproducible: two batches generated with the same size and
/// seed are the same sequence, and that size is their length.
pub proof fn lemma_generation_reproducible(
    n: nat,
    seed: u64,
    first: Seq<TaskType>,
    second: Seq<TaskType>,
)
    requires
        first == generated(n, seed),
        second == generated(n, seed),
    ensures
        first == second,
        first.len() == n,
{
    lemma_generated_len(seeded_rng(seed), n);
}

impl TaskType {
    /// The operands lie in the ranges that the generator draws them from.
    pub open spec fn in_generation_ranges(self) -> bool {
        match self {
            TaskType::Compute { a, b } => 1 <= a < 100 && 1 <= b < 100,
            TaskType::Fibonacci { n } => 1 <= n < 30,
            TaskType::Divide { numerator, denominator } => 1 <= numerator < 100 && 2
                <= denominator <= 99,
            TaskType::Multiply { a, b } => 1 <= a < 100 && 1 <= b < 100,
            TaskType::Factorial { n } => n < 20,
            TaskType::PrimeCheck { n } => 1 <= n < 100,
            TaskType::ModuloExponentiation { base, exponent, modulus } => 2 <= base < 20 && 2
                <= exponent < 10 && 2 <= modulus <= 50,
        }
    }
}

proof fn lemma_fib_below_pow2(k: nat)
    ensures
        fib_number(k) <= vstd::arithmetic::power2::pow2(k),
    decreases k,
{
    vstd::arithmetic::power2::lemma_pow2_pos(k);
    if k >= 2 {
        lemma_fib_below_pow2((k - 1) as nat);
        lemma_fib_below_pow2((k - 2) as nat);
        vstd::arithmetic::power2::lemma_pow2_unfold(k);
        vstd::arithmetic::power2::lemma_pow2_strictly_increases((k - 2) as nat, (k - 1) as nat);
    } else if k == 1 {
        vstd::arithmetic::power2::lemma_pow2_unfold(1);
        vstd::arithmetic::power2::lemma_pow2_pos(0);
    }
}

proof fn lemma_factorial_19()
    ensures
        factorial_of(19) == 121645100408832000,
{
    reveal_with_fuel(factorial_of, 20);
}

/// Every task in the generator's ranges evaluates within its native widths.
pub proof fn lemma_generated_task_fits(t: TaskType)
    requires
        t.in_generation_ranges(),
    ensures
        t.fits_native_width(),
{
    match t {
        TaskType::Fibonacci { n } => {
            lemma_fib_below_pow2((n + 1) as nat);
            vstd::arithmetic::power2::lemma_pow2_strictly_increases((n + 1) as nat, 31);
            vstd::arithmetic::power2::lemma2_to64();
        },
        TaskType::Factorial { n } => {
            lemma_factorial_19();
            crate::helpers::lemma_factorial_grows(n as nat, 19);
        },
        TaskType::Multiply { a, b } => {
            assert(a * b <= 99 * 99) by (nonlinear_arith)
                requires
                    1 <= a < 100,
                    1 <= b < 100,
            ;
            assert(a * b >= 1) by (nonlinear_arith)
                requires
                    1 <= a,
                    1 <= b,
            ;
        },
        _ => {},
    }
}

/// Draws one task, as `draw_task` states.
fn next_task(rng: &mut StdRng) -> (t: TaskType)
    ensures
        (t, *final(rng)) == draw_task(*old(rng)),
        t.in_generation_ranges(),
{
    let kind = draw_u32(rng, 0, 7);
    match kind {
        0 => {
            let a = draw_u32(rng, 1, 100);
            let b = draw_u32(rng, 1, 100);
            TaskType::Compute { a: a as i32, b: b as i32 }
        },
        1 => TaskType::Fibonacci { n: draw_u32(rng, 1, 30) },
        2 => {
            let x = draw_u32(rng, 1, 100);
            let y = draw_u32(rng, 1, 99);
            TaskType::Divide { numerator: x as i32, denominator: (y + 1) as i32 }
        },
        3 => {
            let a = draw_u32(rng, 1, 100);
            let b = draw_u32(rng, 1, 100);
            TaskType::Multiply { a: a as i32, b: b as i32 }
        },
        4 => TaskType::Factorial { n: draw_u32(rng, 0, 20) },
        5 => TaskType::PrimeCheck { n: draw_u32(rng, 1, 100) },
        _ => {
            let b = draw_u64(rng, 2, 20);
            let e = draw_u64(rng, 2, 10);
            let m = draw_u64(rng, 1, 50);
            TaskType::ModuloExponentiation { base: b, exponent: e, modulus: m + 1 }
        },
    }
}

/// Generates `batch_size` tasks from `seed`: each one a kind drawn uniformly
/// among the seven, then its operands drawn from the kind's ranges.
pub fn generate_tasks_with_seed(batch_size: u32, seed: u64) -> (r: Vec<TaskType>)
    ensures
        r@ == generated(batch_size as nat, seed),
        r@.len() == batch_size,
        forall|i: int| 0 <= i < r@.len() ==> (#[trigger] r@[i]).in_generation_ranges(),
{
    let mut tasks: Vec<TaskType> = Vec::new();
    let mut rng = seeded(seed);
    let mut i: u32 = 0;
    while i < batch_size
        invariant
            i <= batch_size,
            tasks@.len() == i,
            tasks@ + generated_from(rng, (batch_size - i) as nat) == generated(
                batch_size as nat,
                seed,
            ),
            forall|j: int| 0 <= j < tasks@.len() ==> (#[trigger] tasks@[j]).in_generation_ranges(),
        decreases batch_size - i,
    {
        let ghost before = rng;
        let ghost old_tasks = tasks@;
        let t = next_task(&mut rng);
        tasks.push(t);
        i = i + 1;
        proof {
            let rest = generated_from(rng, (batch_size - i) as nat);
            assert(generated_from(before, (batch_size - i + 1) as nat) == seq![t] + rest);
            assert(old_tasks + (seq![t] + rest) == tasks@ + rest);
        }
    }
    proof {
        assert(tasks@ + generated_from(rng, 0) == tasks@);
    }
    tasks
}

/// Generates the benchmark's batch of `batch_size` tasks, from the fixed seed.
pub fn generate_tasks(batch_size: u32) -> (r: Vec<TaskType>)
    ensures
        r@ == generated(batch_size as nat, DEFAULT_SEED),
        r@.len() == batch_size,
        forall|i: int| 0 <= i < r@.len() ==> (#[trigger] r@[i]).in_generation_ranges(),
{
    generate_tasks_with_seed(batch_size, DEFAULT_SEED)
}

} // verus!
