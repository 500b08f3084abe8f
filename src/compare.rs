//! The comparison of the timings of the two runs.

use vstd::prelude::*;

verus! {

/// Which run was faster, and by what factor: the longer duration over the
/// shorter, in hundredths, or `None` where the shorter took no time at all.
#[derive(Clone, Copy, Debug, PartialEq, Eq, Structural)]
pub enum Comparison {
    ConcurrentFaster { ratio_hundredths: Option<u128> },
    SerialFaster { ratio_hundredths: Option<u128> },
    Equal,
}

/// `larger / smaller` in hundredths, rounded to the nearest, halves up.
pub open spec fn ratio_in_hundredths(larger: nat, smaller: nat) -> nat
    recommends
        smaller > 0,
{
    (200 * larger + smaller) / (2 * smaller)
}

/// The factor between two durations, where the shorter is not zero.
pub open spec fn factor(larger: nat, smaller: nat) -> Option<u128> {
    if smaller == 0 {
        None
    } else {
        Some(ratio_in_hundredths(larger, smaller) as u128)
    }
}

/// What comparing the two durations reports.
pub open spec fn comparison_of(serial: nat, concurrent: nat) -> Comparison {
    if serial > concurrent {
        Comparison::ConcurrentFaster { ratio_hundredths: factor(serial, concurrent) }
    } else if concurrent > serial {
        Comparison::SerialFaster { ratio_hundredths: factor(concurrent, serial) }
    } else {
        Comparison::Equal
    }
}

fn ratio(larger: u64, smaller: u64) -> (r: Option<u128>)
    ensures
        r == factor(larger as nat, smaller as nat),
{
    if smaller == 0 {
        None
    } else {
        let num: u128 = 200 * (larger as u128) + (smaller as u128);
        let den: u128 = 2 * (smaller as u128);
        Some(num / den)
    }
}

/// Compares the duration of the serial run with that of the concurrent run,
/// both in nanoseconds.
pub fn compare_durations(serial_nanos: u64, concurrent_nanos: u64) -> (r: Comparison)
    ensures
        r == comparison_of(serial_nanos as nat, concurrent_nanos as nat),
{
    if serial_nanos > concurrent_nanos {
        Comparison::ConcurrentFaster { ratio_hundredths: ratio(serial_nanos, concurrent_nanos) }
    } else if concurrent_nanos > serial_nanos {
        Comparison::SerialFaster { ratio_hundredths: ratio(concurrent_nanos, serial_nanos) }
    } else {
        Comparison::Equal
    }
}

} // verus!
