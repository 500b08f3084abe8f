//! The closed set of task kinds and their evaluation.

use crate::helpers::{
    compute, divide, factorial, factorial_fits, factorial_of, fibonacci, fibonacci_fits,
    fibonacci_of, is_prime, mod_exp, multiply, prime_check, quotient_toward_zero,
};
use vstd::arithmetic::power::pow;
use vstd::prelude::*;

verus! {

/// A unit of work that can be executed.
pub trait Task {
    /// The task can run without leaving the native width of its integers.
    spec fn runs_in_range(&self) -> bool;

    /// `Ok` where the task succeeds; else the message that it fails with.
    spec fn run_outcome(&self) -> Result<(), Seq<char>>;

    /// Executes the task: `Ok(())` on success, else a message that says what
    /// went wrong. `simulate_load` asks for a heavier workload; the delay
    /// itself is left to the caller.
    fn run(&self, simulate_load: bool) -> (r: Result<(), String>)
        requires
            self.runs_in_range(),
        ensures
            r matches Ok(_) ==> self.run_outcome() == Ok::<(), Seq<char>>(()),
            r matches Err(m) ==> self.run_outcome() == Err::<(), Seq<char>>(m@),
    ;
}

/// One task: the kind of operation and its operands.
#[derive(Clone, Copy, Debug, PartialEq, Eq, Structural)]
pub enum TaskType {
    Compute { a: i32, b: i32 },
    Fibonacci { n: u32 },
    Divide { numerator: i32, denominator: i32 },
    Multiply { a: i32, b: i32 },
    Factorial { n: u32 },
    PrimeCheck { n: u32 },
    ModuloExponentiation { base: u64, exponent: u64, modulus: u64 },
}

/// Why a task could not be evaluated.
#[derive(Clone, Copy, Debug, PartialEq, Eq, Structural)]
pub enum EvalError {
    DivisionByZero,
    ZeroModulus,
}

/// What a task computed.
#[derive(Clone, Copy, Debug, PartialEq, Eq, Structural)]
pub enum TaskValue {
    Sum(i32),
    Fibonacci(u64),
    Quotient(i32),
    Product(i32),
    Factorial(u64),
    Prime(bool),
    Power(u64),
}

/// The text of each error.
pub open spec fn error_text(e: EvalError) -> Seq<char> {
    match e {
        EvalError::DivisionByZero => "Division by zero."@,
        EvalError::ZeroModulus => "Modulus cannot be zero."@,
    }
}

impl EvalError {
    /// A sentence that describes the error.
    pub fn message(&self) -> (r: String)
        ensures
            r@ == error_text(*self),
    {
        match self {
            EvalError::DivisionByZero => "Division by zero.".to_owned(),
            EvalError::ZeroModulus => "Modulus cannot be zero.".to_owned(),
        }
    }
}

impl TaskType {
    /// Every intermediate and final value of the task fits its native type.
    pub open spec fn fits_native_width(self) -> bool {
        match self {
            TaskType::Compute { a, b } => i32::MIN <= a + b <= i32::MAX,
            TaskType::Fibonacci { n } => fibonacci_of(n as nat) <= u64::MAX,
            TaskType::Divide { numerator, denominator } => !(numerator == i32::MIN
                && denominator == -1),
            TaskType::Multiply { a, b } => i32::MIN <= a * b <= i32::MAX,
            TaskType::Factorial { n } => factorial_of(n as nat) <= u64::MAX,
            TaskType::PrimeCheck { .. } => true,
            TaskType::ModuloExponentiation { .. } => true,
        }
    }

    /// What evaluating the task gives.
    pub open spec fn outcome(self) -> Result<TaskValue, EvalError> {
        match self {
            TaskType::Compute { a, b } => Ok(TaskValue::Sum((a + b) as i32)),
            TaskType::Fibonacci { n } => Ok(TaskValue::Fibonacci(fibonacci_of(n as nat) as u64)),
            TaskType::Divide { numerator, denominator } => if denominator == 0 {
                Err(EvalError::DivisionByZero)
            } else {
                Ok(
                    TaskValue::Quotient(
                        quotient_toward_zero(numerator as int, denominator as int) as i32,
                    ),
                )
            },
            TaskType::Multiply { a, b } => Ok(TaskValue::Product((a * b) as i32)),
            TaskType::Factorial { n } => Ok(TaskValue::Factorial(factorial_of(n as nat) as u64)),
            TaskType::PrimeCheck { n } => Ok(TaskValue::Prime(is_prime(n as nat))),
            TaskType::ModuloExponentiation { base, exponent, modulus } => if modulus == 0 {
                Err(EvalError::ZeroModulus)
            } else {
                Ok(TaskValue::Power((pow(base as int, exponent as nat) % (modulus as int)) as u64))
            },
        }
    }

    /// Whether every value of the task fits its native type.
    pub fn in_native_width(&self) -> (r: bool)
        ensures
            r == self.fits_native_width(),
    {
        match *self {
            TaskType::Compute { a, b } => a.checked_add(b).is_some(),
            TaskType::Fibonacci { n } => fibonacci_fits(n as u64),
            TaskType::Divide { numerator, denominator } => !(numerator == i32::MIN && denominator
                == -1),
            TaskType::Multiply { a, b } => a.checked_mul(b).is_some(),
            TaskType::Factorial { n } => factorial_fits(n as u64),
            TaskType::PrimeCheck { .. } => true,
            TaskType::ModuloExponentiation { .. } => true,
        }
    }

    /// Evaluates the task: the value it computes, or why it cannot be computed.
    pub fn evaluate(&self) -> (r: Result<TaskValue, EvalError>)
        requires
            self.fits_native_width(),
        ensures
            r == self.outcome(),
    {
        match *self {
            TaskType::Compute { a, b } => Ok(TaskValue::Sum(compute(a, b))),
            TaskType::Fibonacci { n } => Ok(TaskValue::Fibonacci(fibonacci(n as u64))),
            TaskType::Divide { numerator, denominator } => {
                if denominator == 0 {
                    Err(EvalError::DivisionByZero)
                } else {
                    Ok(TaskValue::Quotient(divide(numerator, denominator)))
                }
            },
            TaskType::Multiply { a, b } => Ok(TaskValue::Product(multiply(a, b))),
            TaskType::Factorial { n } => Ok(TaskValue::Factorial(factorial(n as u64))),
            TaskType::PrimeCheck { n } => Ok(TaskValue::Prime(prime_check(n))),
            TaskType::ModuloExponentiation { base, exponent, modulus } => {
                if modulus == 0 {
                    Err(EvalError::ZeroModulus)
                } else {
                    Ok(TaskValue::Power(mod_exp(base, exponent, modulus)))
                }
            },
        }
    }
}

/// A division by zero fails with `DivisionByZero`, whatever the numerator.
pub proof fn lemma_zero_denominator_fails(x: i32)
    ensures
        (TaskType::Divide { numerator: x, denominator: 0 }).outcome() == Err::<
            TaskValue,
            EvalError,
        >(EvalError::DivisionByZero),
{
}

impl Task for TaskType {
    open spec fn runs_in_range(&self) -> bool {
        self.fits_native_width()
    }

    open spec fn run_outcome(&self) -> Result<(), Seq<char>> {
        match self.outcome() {
            Ok(_) => Ok(()),
            Err(e) => Err(error_text(e)),
        }
    }

    fn run(&self, simulate_load: bool) -> (r: Result<(), String>) {
        match self.evaluate() {
            Ok(_) => Ok(()),
            Err(e) => Err(e.message()),
        }
    }
}

} // verus!
