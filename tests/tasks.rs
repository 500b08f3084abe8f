use taskbench::generator::{generate_tasks, generate_tasks_with_seed};
use taskbench::task::{EvalError, Task, TaskType, TaskValue};

#[test]
fn divide_by_zero_fails_for_any_numerator() {
    for x in [0, 1, -1, 10, i32::MIN, i32::MAX] {
        let t = TaskType::Divide { numerator: x, denominator: 0 };
        assert_eq!(t.evaluate(), Err(EvalError::DivisionByZero));
    }
    let ok = TaskType::Divide { numerator: 10, denominator: 2 };
    assert_eq!(ok.evaluate(), Ok(TaskValue::Quotient(5)));
}

#[test]
fn zero_modulus_fails() {
    let t = TaskType::ModuloExponentiation { base: 2, exponent: 3, modulus: 0 };
    assert_eq!(t.evaluate(), Err(EvalError::ZeroModulus));
    let ok = TaskType::ModuloExponentiation { base: 2, exponent: 3, modulus: 5 };
    assert_eq!(ok.evaluate(), Ok(TaskValue::Power(3)));
}

#[test]
fn factorial_tasks_succeed() {
    assert_eq!(TaskType::Factorial { n: 0 }.evaluate(), Ok(TaskValue::Factorial(1)));
    assert_eq!(TaskType::Factorial { n: 5 }.evaluate(), Ok(TaskValue::Factorial(120)));
}

#[test]
fn prime_check_tasks_classify() {
    assert_eq!(TaskType::PrimeCheck { n: 7 }.evaluate(), Ok(TaskValue::Prime(true)));
    assert_eq!(TaskType::PrimeCheck { n: 9 }.evaluate(), Ok(TaskValue::Prime(false)));
}

#[test]
fn other_tasks_evaluate() {
    assert_eq!(TaskType::Compute { a: 40, b: 2 }.evaluate(), Ok(TaskValue::Sum(42)));
    assert_eq!(TaskType::Multiply { a: 6, b: -7 }.evaluate(), Ok(TaskValue::Product(-42)));
    assert_eq!(TaskType::Fibonacci { n: 6 }.evaluate(), Ok(TaskValue::Fibonacci(13)));
}

#[test]
fn run_reports_messages() {
    let div = TaskType::Divide { numerator: 3, denominator: 0 };
    assert_eq!(div.run(false), Err("Division by zero.".to_string()));
    let modexp = TaskType::ModuloExponentiation { base: 3, exponent: 3, modulus: 0 };
    assert_eq!(modexp.run(true), Err("Modulus cannot be zero.".to_string()));
    assert_eq!(TaskType::PrimeCheck { n: 4 }.run(false), Ok(()));
    assert_eq!(EvalError::DivisionByZero.message(), "Division by zero.");
    assert_eq!(EvalError::ZeroModulus.message(), "Modulus cannot be zero.");
}

#[test]
fn native_width_checks() {
    assert!(TaskType::Factorial { n: 20 }.in_native_width());
    assert!(!TaskType::Factorial { n: 21 }.in_native_width());
    assert!(TaskType::Fibonacci { n: 92 }.in_native_width());
    assert!(!TaskType::Fibonacci { n: 93 }.in_native_width());
    assert!(!TaskType::Compute { a: i32::MAX, b: 1 }.in_native_width());
    assert!(TaskType::Compute { a: i32::MAX, b: 0 }.in_native_width());
    assert!(!TaskType::Multiply { a: 1 << 16, b: 1 << 16 }.in_native_width());
    assert!(!TaskType::Divide { numerator: i32::MIN, denominator: -1 }.in_native_width());
    assert!(TaskType::Divide { numerator: i32::MIN, denominator: 0 }.in_native_width());
    assert!(TaskType::PrimeCheck { n: u32::MAX }.in_native_width());
}

#[test]
fn generation_is_reproducible() {
    for (n, seed) in [(0u32, 0u64), (1, 7), (50, 42), (500, 123456789)] {
        let a = generate_tasks_with_seed(n, seed);
        let b = generate_tasks_with_seed(n, seed);
        assert_eq!(a.len(), n as usize);
        assert_eq!(a, b);
    }
    assert_eq!(generate_tasks(64), generate_tasks_with_seed(64, 42));
}

#[test]
fn seeds_give_different_batches() {
    assert_ne!(generate_tasks_with_seed(50, 1), generate_tasks_with_seed(50, 2));
}

#[test]
fn generated_operands_lie_in_their_ranges() {
    let batch = generate_tasks_with_seed(2000, 9);
    let mut kinds = [false; 7];
    for t in &batch {
        match *t {
            TaskType::Compute { a, b } => {
                kinds[0] = true;
                assert!((1..100).contains(&a) && (1..100).contains(&b));
            },
            TaskType::Fibonacci { n } => {
                kinds[1] = true;
                assert!((1..30).contains(&n));
            },
            TaskType::Divide { numerator, denominator } => {
                kinds[2] = true;
                assert!((1..100).contains(&numerator) && (2..=99).contains(&denominator));
            },
            TaskType::Multiply { a, b } => {
                kinds[3] = true;
                assert!((1..100).contains(&a) && (1..100).contains(&b));
            },
            TaskType::Factorial { n } => {
                kinds[4] = true;
                assert!(n < 20);
            },
            TaskType::PrimeCheck { n } => {
                kinds[5] = true;
                assert!((1..100).contains(&n));
            },
            TaskType::ModuloExponentiation { base, exponent, modulus } => {
                kinds[6] = true;
                assert!((2..20).contains(&base) && (2..10).contains(&exponent));
                assert!((2..=50).contains(&modulus));
            },
        }
        assert!(t.in_native_width());
        assert!(t.evaluate().is_ok());
    }
    assert!(kinds.iter().all(|k| *k));
}
