use taskbench::helpers::{
    compute, divide, factorial, factorial_fits, fib, fibonacci, fibonacci_fits, mod_exp,
    multiply, prime_check,
};

#[test]
fn test_fibonacci() {
    assert_eq!(fibonacci(0), 0);
    assert_eq!(fibonacci(1), 1);
    assert_eq!(fibonacci(2), 2);
    assert_eq!(fibonacci(3), 3);
    assert_eq!(fibonacci(4), 5);
    assert_eq!(fibonacci(5), 8);
    assert_eq!(fibonacci(6), 13);
    assert_eq!(fibonacci(7), 21);
    assert_eq!(fibonacci(15), 987);
    assert_eq!(fibonacci(30), 1346269);
}

#[test]
fn test_factorial() {
    assert_eq!(factorial(0), 1);
    assert_eq!(factorial(1), 1);
    assert_eq!(factorial(5), 120);
    assert_eq!(factorial(10), 3628800);
}

#[test]
fn test_prime_check() {
    assert_eq!(prime_check(2), true);
    assert_eq!(prime_check(3), true);
    assert_eq!(prime_check(5), true);
    assert_eq!(prime_check(7), true);
    assert_eq!(prime_check(11), true);
    assert_eq!(prime_check(97), true);

    assert_eq!(prime_check(0), false);
    assert_eq!(prime_check(1), false);
    assert_eq!(prime_check(4), false);
    assert_eq!(prime_check(9), false);
    assert_eq!(prime_check(100), false);
}

#[test]
fn test_modulo_exponentiation() {
    assert_eq!(mod_exp(2, 3, 5), 3);
    assert_eq!(mod_exp(5, 0, 7), 1);
    assert_eq!(mod_exp(7, 4, 9), 7);
    assert_eq!(mod_exp(10, 5, 13), 4);
}

#[test]
fn fib_runs_recurrence_from_pair() {
    assert_eq!(fib(0, 4, 9), 9);
    assert_eq!(fib(1, 4, 9), 13);
    assert_eq!(fib(3, 2, 3), 13);
}

#[test]
fn fibonacci_largest_that_fits() {
    assert_eq!(fibonacci(92), 12200160415121876738);
    assert!(fibonacci_fits(92));
    assert!(!fibonacci_fits(93));
    assert!(fibonacci_fits(0));
}

#[test]
fn factorial_largest_that_fits() {
    assert_eq!(factorial(20), 2432902008176640000);
    assert!(factorial_fits(20));
    assert!(!factorial_fits(21));
    assert!(factorial_fits(0));
}

#[test]
fn arithmetic_on_signed_operands() {
    assert_eq!(compute(-5, 12), 7);
    assert_eq!(multiply(-6, 7), -42);
    assert_eq!(divide(10, 2), 5);
    assert_eq!(divide(-7, 2), -3);
    assert_eq!(divide(7, -2), -3);
    assert_eq!(divide(-7, -2), 3);
    assert_eq!(divide(i32::MIN, 1), i32::MIN);
    assert_eq!(divide(i32::MIN, -2), 1 << 30);
}

#[test]
fn mod_exp_edge_cases() {
    assert_eq!(mod_exp(123, 456, 1), 0);
    assert_eq!(mod_exp(0, 0, 7), 1);
    assert_eq!(mod_exp(0, 5, 7), 0);
    // 2^64 - 1 squared does not fit a u64, its residue does.
    assert_eq!(mod_exp(u64::MAX, 2, u64::MAX - 1), 1);
    assert_eq!(mod_exp(3, 200, 1_000_000_007), mod_pow_slow(3, 200, 1_000_000_007));
}

fn mod_pow_slow(base: u64, exp: u64, m: u64) -> u64 {
    let mut r: u128 = 1 % m as u128;
    for _ in 0..exp {
        r = r * base as u128 % m as u128;
    }
    r as u64
}

#[test]
fn prime_check_more_values() {
    assert!(prime_check(7919));
    assert!(!prime_check(25));
    assert!(!prime_check(49));
    assert!(prime_check(13));
}
