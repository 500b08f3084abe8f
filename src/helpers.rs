//! The arithmetic behind each kind of task.

use vstd::arithmetic::power::*;
use vstd::prelude::*;

verus! {

/// The Fibonacci numbers: 0, 1, 1, 2, 3, 5, ...
pub open spec fn fib_number(k: nat) -> nat
    decreases k,
{
    if k == 0 {
        0
    } else if k == 1 {
        1
    } else {
        fib_number((k - 1) as nat) + fib_number((k - 2) as nat)
    }
}

/// What `fib(n, p, c)` computes: `n` steps of the Fibonacci recurrence started
/// from the pair `(p, c)`.
pub open spec fn fib_from(n: nat, p: nat, c: nat) -> nat {
    p * fib_number(n) + c * fib_number(n + 1)
}

/// What `fibonacci(n)` computes: 0 for 0, else the `n + 1`-th Fibonacci number.
pub open spec fn fibonacci_of(n: nat) -> nat {
    if n == 0 {
        0
    } else {
        fib_number(n + 1)
    }
}

proof fn lemma_fib_positive(k: nat)
    requires
        k >= 1,
    ensures
        fib_number(k) >= 1,
    decreases k,
{
    reveal_with_fuel(fib_number, 3);
    if k > 2 {
        lemma_fib_positive((k - 1) as nat);
    }
}

proof fn lemma_fib_from_step(n: nat, p: nat, c: nat)
    requires
        n >= 1,
    ensures
        fib_from(n, p, c) == fib_from((n - 1) as nat, c, p + c),
        p + c <= fib_from(n, p, c),
{
    let a = fib_number((n - 1) as nat);
    let b = fib_number(n);
    assert(fib_number(n + 1) == a + b);
    lemma_fib_positive(n);
    lemma_fib_positive(n + 1);
    assert(c * a + (p + c) * b == p * b + c * (a + b)) by (nonlinear_arith);
    assert(p + c <= p * b + c * (a + b)) by (nonlinear_arith)
        requires
            b >= 1,
            a + b >= 1,
    ;
}

/// Runs `n` steps of the Fibonacci recurrence from the pair `(p, c)` and returns
/// the second element of the final pair.
pub fn fib(n: u64, p: u64, c: u64) -> (r: u64)
    requires
        fib_from(n as nat, p as nat, c as nat) <= u64::MAX,
    ensures
        r == fib_from(n as nat, p as nat, c as nat),
    decreases n,
{
    if n == 0 {
        assert(fib_from(0, p as nat, c as nat) == c) by {
            reveal_with_fuel(fib_number, 2);
            assert(fib_number(0) == 0 && fib_number(1) == 1);
            assert(p as nat * 0 + c as nat * 1 == c) by (nonlinear_arith);
        }
        c
    } else {
        proof {
            lemma_fib_from_step(n as nat, p as nat, c as nat);
        }
        fib(n - 1, c, p + c)
    }
}

/// Fibonacci numbers counted from 1: 0, 1, 2, 3, 5, 8, ...
pub fn fibonacci(n: u64) -> (r: u64)
    requires
        fibonacci_of(n as nat) <= u64::MAX,
    ensures
        r == fibonacci_of(n as nat),
{
    if n == 0 {
        0
    } else {
        fib(n, 0, 1)
    }
}

/// `n!`, with `0! == 1`.
pub open spec fn factorial_of(n: nat) -> nat
    decreases n,
{
    if n == 0 {
        1
    } else {
        n * factorial_of((n - 1) as nat)
    }
}

pub proof fn lemma_factorial_grows(i: nat, n: nat)
    requires
        i <= n,
    ensures
        1 <= factorial_of(i) <= factorial_of(n),
    decreases n,
{
    if n > 0 {
        if i < n {
            lemma_factorial_grows(i, (n - 1) as nat);
        } else {
            lemma_factorial_grows(0, (n - 1) as nat);
        }
        let f = factorial_of((n - 1) as nat);
        assert(f <= n * f) by (nonlinear_arith)
            requires
                n >= 1,
        ;
    }
}

/// The product `1 * 2 * ... * n`, which is 1 for `n == 0`.
pub fn factorial(n: u64) -> (r: u64)
    requires
        factorial_of(n as nat) <= u64::MAX,
    ensures
        r == factorial_of(n as nat),
{
    if n == 0 {
        return 1;
    }
    let mut acc: u64 = 1;
    let mut i: u64 = 1;
    while i <= n
        invariant
            1 <= i <= n + 1,
            n <= u64::MAX - 1 || i <= n,
            acc == factorial_of((i - 1) as nat),
            factorial_of(n as nat) <= u64::MAX,
        decreases n + 1 - i,
    {
        proof {
            lemma_factorial_grows(i as nat, n as nat);
            assert(factorial_of(i as nat) == i * factorial_of((i - 1) as nat));
            assert(acc * i == i * acc) by (nonlinear_arith);
        }
        acc = acc * i;
        if i == n {
            return acc;
        }
        i = i + 1;
    }
    acc
}

/// The sum of two numbers.
pub fn compute(a: i32, b: i32) -> (r: i32)
    requires
        i32::MIN <= a + b <= i32::MAX,
    ensures
        r == a + b,
{
    a + b
}

/// Division that rounds toward zero, as Rust's `/` on integers does.
pub open spec fn quotient_toward_zero(a: int, b: int) -> int {
    let q: int = (vstd::math::abs(a) / vstd::math::abs(b)) as int;
    if (a < 0) != (b < 0) {
        -q
    } else {
        q
    }
}

/// The quotient of two numbers, rounded toward zero.
pub fn divide(a: i32, b: i32) -> (r: i32)
    requires
        b != 0,
        !(a == i32::MIN && b == -1),
    ensures
        r == quotient_toward_zero(a as int, b as int),
{
    let x = a as i64;
    let y = b as i64;
    let mx: u64 = if x < 0 { (-x) as u64 } else { x as u64 };
    let my: u64 = if y < 0 { (-y) as u64 } else { y as u64 };
    let q: u64 = mx / my;
    proof {
        assert(mx as int == vstd::math::abs(a as int));
        assert(my as int == vstd::math::abs(b as int));
        assert(q <= mx) by (nonlinear_arith)
            requires
                q == mx / my,
                my >= 1,
        ;
        if mx > i32::MAX && b < 0 {
            assert(q <= mx / 2) by (nonlinear_arith)
                requires
                    q == mx / my,
                    my >= 2,
            ;
        }
    }
    if (a < 0) != (b < 0) {
        -(q as i64) as i32
    } else {
        q as i32
    }
}

/// The product of two numbers.
pub fn multiply(a: i32, b: i32) -> (r: i32)
    requires
        i32::MIN <= a * b <= i32::MAX,
    ensures
        r == a * b,
{
    a * b
}

/// `n` is a prime number: at least 2, and no number in `2..n` divides it.
pub open spec fn is_prime(n: nat) -> bool {
    &&& n >= 2
    &&& forall|d: nat| 2 <= d < n ==> #[trigger] (n % d) != 0
}

/// Whether `n` is prime, found by trial division up to `n / 2`.
pub fn prime_check(n: u32) -> (r: bool)
    ensures
        r == is_prime(n as nat),
{
    if n < 2 {
        return false;
    }
    let half: u32 = n / 2;
    let mut i: u32 = 2;
    while i <= half
        invariant
            2 <= i <= half + 1,
            half == n / 2,
            n >= 2,
            forall|d: nat| 2 <= d < i ==> #[trigger] ((n as nat) % d) != 0,
        decreases half + 1 - i,
    {
        let q: u32 = n / i;
        proof {
            vstd::arithmetic::div_mod::lemma_fundamental_div_mod(n as int, i as int);
            assert(0 <= (n as int) % (i as int) < i);
            assert(i * q <= n) by (nonlinear_arith)
                requires
                    n as int == i * q + (n as int) % (i as int),
                    (n as int) % (i as int) >= 0,
            ;
        }
        if i * q == n {
            assert((n as nat) % (i as nat) == 0);
            return false;
        }
        i = i + 1;
    }
    assert forall|d: nat| 2 <= d < n implies #[trigger] ((n as nat) % d) != 0 by {
        if d > half {
            let m = (n as nat) % d;
            vstd::arithmetic::div_mod::lemma_fundamental_div_mod(n as int, d as int);
            assert(d * ((n as nat) / d) + m == n);
            assert(m < d);
            assert((n as nat) / d == 1) by (nonlinear_arith)
                requires
                    d * ((n as nat) / d) + m == n,
                    m < d,
                    d < n,
                    n < 2 * d,
                    d > 0,
            ;
        }
    }
    true
}

/// Modular exponentiation: `base` to the power `exp`, modulo `modulus`.
pub fn mod_exp(base: u64, exp: u64, modulus: u64) -> (r: u64)
    requires
        modulus > 0,
    ensures
        r == pow(base as int, exp as nat) % (modulus as int),
{
    let ghost m = modulus as int;
    if modulus == 1 {
        return 0;
    }
    let mut result: u64 = 1;
    let mut b: u64 = base % modulus;
    let mut e: u64 = exp;
    proof {
        lemma_pow_mod_noop(base as int, exp as nat, m);
        lemma_pow0(b as int);
        assert(1int % m == 1) by {
            vstd::arithmetic::div_mod::lemma_small_mod(1, m as nat);
        }
    }
    while e > 0
        invariant
            m == modulus as int,
            m > 1,
            result < modulus,
            b < modulus,
            (result * pow(b as int, e as nat)) % m == pow(base as int, exp as nat) % m,
        decreases e,
    {
        let ghost e0 = e;
        let ghost b0 = b as int;
        let ghost r0 = result as int;
        let ghost k: nat = (e / 2) as nat;
        proof {
            assert(result as u128 * b as u128 <= u64::MAX as u128 * u64::MAX as u128) by (nonlinear_arith)
                requires
                    result < modulus,
                    b < modulus,
            ;
            assert(b as u128 * b as u128 <= u64::MAX as u128 * u64::MAX as u128) by (nonlinear_arith)
                requires
                    b < modulus,
            ;
        }
        if e % 2 == 1 {
            result = ((result as u128 * b as u128) % (modulus as u128)) as u64;
        }
        e = e / 2;
        b = ((b as u128 * b as u128) % (modulus as u128)) as u64;
        proof {
            lemma_mod_exp_step(r0, b0, e0 as nat, m);
        }
    }
    proof {
        lemma_pow0(b as int);
        vstd::arithmetic::div_mod::lemma_small_mod(result as nat, m as nat);
    }
    result
}

proof fn lemma_mod_exp_step(r: int, b: int, e: nat, m: int)
    requires
        m > 1,
        0 <= r < m,
        0 <= b < m,
        e > 0,
    ensures
        ({
            let r1 = if e % 2 == 1 { (r * b) % m } else { r };
            (r1 * pow((b * b) % m, e / 2)) % m == (r * pow(b, e)) % m
        }),
{
    let k = e / 2;
    let p = pow(b * b, k);
    let r1 = if e % 2 == 1 { (r * b) % m } else { r };
    lemma_square_is_pow2(b);
    lemma_pow_multiplies(b, 2, k);
    assert(p == pow(b, 2 * k));
    lemma_pow_mod_noop(b * b, k, m);
    vstd::arithmetic::div_mod::lemma_mul_mod_noop_right(r1, pow((b * b) % m, k), m);
    vstd::arithmetic::div_mod::lemma_mul_mod_noop_right(r1, p, m);
    assert((r1 * pow((b * b) % m, k)) % m == (r1 * p) % m);
    if e % 2 == 1 {
        assert(e == 2 * k + 1);
        lemma_pow_adds(b, 2 * k, 1);
        lemma_pow1(b);
        assert(pow(b, e) == p * b);
        vstd::arithmetic::div_mod::lemma_mul_mod_noop_left(r * b, p, m);
        assert((r * b) * p == r * (p * b)) by (nonlinear_arith);
    } else {
        assert(e == 2 * k);
    }
}

pub proof fn lemma_fib_grows(j: nat, k: nat)
    requires
        j <= k,
    ensures
        fib_number(j) <= fib_number(k),
    decreases k,
{
    if j < k {
        lemma_fib_grows(j, (k - 1) as nat);
        if k >= 2 {
            assert(fib_number(k) == fib_number((k - 1) as nat) + fib_number((k - 2) as nat));
        } else {
            reveal_with_fuel(fib_number, 2);
        }
    }
}

/// Whether `fibonacci(n)` fits in a `u64`.
pub fn fibonacci_fits(n: u64) -> (r: bool)
    ensures
        r == (fibonacci_of(n as nat) <= u64::MAX),
{
    if n == 0 {
        return true;
    }
    // `prev` and `cur` are the Fibonacci numbers at `k` and `k + 1`.
    let mut prev: u64 = 0;
    let mut cur: u64 = 1;
    let mut k: u64 = 0;
    proof {
        reveal_with_fuel(fib_number, 2);
    }
    while k < n
        invariant
            k <= n,
            prev == fib_number(k as nat),
            cur == fib_number((k + 1) as nat),
        decreases n - k,
    {
        match prev.checked_add(cur) {
            Some(next) => {
                assert(fib_number((k + 2) as nat) == next);
                prev = cur;
                cur = next;
                k = k + 1;
            },
            None => {
                proof {
                    lemma_fib_grows((k + 2) as nat, (n + 1) as nat);
                }
                return false;
            },
        }
    }
    true
}

/// Whether `factorial(n)` fits in a `u64`.
pub fn factorial_fits(n: u64) -> (r: bool)
    ensures
        r == (factorial_of(n as nat) <= u64::MAX),
{
    let mut acc: u64 = 1;
    let mut i: u64 = 0;
    while i < n
        invariant
            i <= n,
            acc == factorial_of(i as nat),
        decreases n - i,
    {
        assert(factorial_of((i + 1) as nat) == (i + 1) * factorial_of(i as nat));
        match acc.checked_mul(i + 1) {
            Some(next) => {
                assert(next == (i + 1) * acc) by (nonlinear_arith)
                    requires
                        next == acc * (i + 1),
                ;
                acc = next;
                i = i + 1;
            },
            None => {
                proof {
                    assert(acc * (i + 1) == (i + 1) * acc) by (nonlinear_arith);
                    lemma_factorial_grows((i + 1) as nat, n as nat);
                }
                return false;
            },
        }
    }
    true
}

} // verus!
