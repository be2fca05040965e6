//! Summing an arithmetic progression between two bounds.

use vstd::prelude::*;

verus! {

/// The absolute value of `x`.
pub open spec fn magnitude(x: int) -> int {
    if x < 0 {
        -x
    } else {
        x
    }
}

/// The sum of `current`, `current + step`, `current + 2 * step`, ... as far
/// as the terms do not exceed `high`. Without a positive step it is zero.
pub open spec fn step_sum(current: int, high: int, step: int) -> int
    decreases
            (if current <= high {
                high - current + 1
            } else {
                0
            }),
{
    if step <= 0 || current > high {
        0
    } else {
        current + step_sum(current + step, high, step)
    }
}

/// Stores in `total` the sum of the numbers from `low` up to `high` taken
/// in steps of the magnitude of `step`. What `total` held before is not read.
pub fn sum_with_step(total: &mut i32, low: i32, high: i32, step: i32)
    requires
        step != i32::MIN,
        step != 0 || low > high,
        i32::MIN <= step_sum(low as int, high as int, magnitude(step as int)) <= i32::MAX,
    ensures
        *final(total) as int == step_sum(low as int, high as int, magnitude(step as int)),
{
    let s: i64 = if step < 0 {
        -(step as i64)
    } else {
        step as i64
    };
    let mut current: i64 = low as i64;
    let mut acc: i128 = 0;
    let ghost mut n: int = 0;
    while current <= high as i64
        invariant
            s == magnitude(step as int),
            s > 0 || low > high,
            0 <= s <= 0x8000_0000,
            low <= current <= high + s || (low > high && current == low),
            0 <= n <= current - low,
            -n * 0x8000_0000 <= acc <= n * 0x8000_0000,
            acc + step_sum(current as int, high as int, s as int) == step_sum(
                low as int,
                high as int,
                s as int,
            ),
        decreases
                (if current <= high {
                    high - current + 1
                } else {
                    0
                }),
    {
        acc = acc + current as i128;
        current = current + s;
        proof {
            n = n + 1;
        }
    }
    *total = acc as i32;
}

/// With nothing between the bounds the sum is zero.
pub proof fn lemma_step_sum_empty(low: int, high: int, step: int)
    requires
        low > high,
    ensures
        step_sum(low, high, step) == 0,
{
}

/// In steps of one, the sum from `low` to `high` is the number of terms
/// times the mean of the two bounds.
pub proof fn lemma_step_sum_unit(low: int, high: int)
    requires
        low <= high + 1,
    ensures
        2 * step_sum(low, high, 1) == (high - low + 1) * (low + high),
    decreases high - low + 1,
{
    if low <= high {
        lemma_step_sum_unit(low + 1, high);
        assert(2 * low + (high - low) * (low + 1 + high) == (high - low + 1) * (low + high))
            by (nonlinear_arith);
    } else {
        assert((high - low + 1) * (low + high) == 0) by (nonlinear_arith)
            requires
                high - low + 1 == 0,
        ;
    }
}

} // verus!
