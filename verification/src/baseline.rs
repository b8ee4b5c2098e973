//! The uncontended baseline: one private counter, no lock.

use vstd::prelude::*;

verus! {

/// The largest number of steps after which the baseline counter still fits
/// in 64 bits.
pub const BASELINE_MAX_SUM: u64 = 0x8000_0000_0000_0000;

/// What the baseline counter holds after `sum` steps.
///
/// A step adds one, and one more if the counter is odd. From zero the first
/// step gives one, and every later step adds two.
pub open spec fn baseline_value(sum: nat) -> nat {
    if sum == 0 {
        0
    } else {
        (2 * sum - 1) as nat
    }
}

/// Hands `value` back through `std::hint::black_box`, so that the compiler
/// must have the value at hand at this point and cannot tell what becomes of
/// it. The contract states what the function is documented to be: the
/// identity.
#[verifier::external_body]
fn observed(value: u64) -> (same: u64)
    ensures
        same == value,
{
    std::hint::black_box(value)
}

/// Steps a private counter `sum` times and returns it. Each step reads the
/// counter's lowest bit to decide how much to add, and the counter is shown
/// to the compiler as observed after every step, so that the loop is run as
/// written: no step is skipped, merged with another or worked out ahead of
/// time.
///
/// The result is never below `sum`, and it is above `sum` from two steps on.
/// More than [`BASELINE_MAX_SUM`] steps would take the counter beyond 64
/// bits and are not accepted.
pub fn uncontended_baseline(sum: u64) -> (value: u64)
    requires
        sum <= BASELINE_MAX_SUM,
    ensures
        value == baseline_value(sum as nat),
        value >= sum,
        value > sum <==> sum >= 2,
{
    let mut value: u64 = 0;
    let mut step: u64 = 0;
    while step < sum
        invariant
            step <= sum <= BASELINE_MAX_SUM,
            value == baseline_value(step as nat),
        decreases sum - step,
    {
        assert(value & 1 == value % 2) by (bit_vector);
        value = observed(value + (1 + (value & 1)));
        step = step + 1;
    }
    value
}

} // verus!
