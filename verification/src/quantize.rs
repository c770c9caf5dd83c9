//! Quantizer: turns a trade amount and a step count into the ordered
//! cumulative input levels at which every venue is quoted.

use vstd::prelude::*;
use vstd::arithmetic::div_mod::{lemma_div_by_multiple, lemma_div_is_ordered};
use vstd::arithmetic::mul::lemma_mul_inequality;
use crate::error::RouteError;

verus! {

/// Cumulative input of quantum level `i` (counted from zero): the part of
/// `in_amount` that `i + 1` of `partition` equal steps amount to, rounded down.
pub open spec fn level(in_amount: u64, partition: u64, i: int) -> int {
    (in_amount as int * (i + 1)) / (partition as int)
}

/// The levels never decrease from one step to the next.
pub proof fn lemma_level_monotone(in_amount: u64, partition: u64, i: int, j: int)
    requires
        partition > 0,
        0 <= i <= j,
    ensures
        0 <= level(in_amount, partition, i) <= level(in_amount, partition, j),
{
    lemma_mul_inequality(0, i + 1, in_amount as int);
    lemma_mul_inequality(i + 1, j + 1, in_amount as int);
    assert(0 * (in_amount as int) == 0);
    assert((i + 1) * (in_amount as int) == in_amount as int * (i + 1)) by (nonlinear_arith);
    assert((j + 1) * (in_amount as int) == in_amount as int * (j + 1)) by (nonlinear_arith);
    lemma_div_is_ordered(0, in_amount as int * (i + 1), partition as int);
    lemma_div_is_ordered(in_amount as int * (i + 1), in_amount as int * (j + 1), partition as int);
}

/// The last level is the whole trade amount.
pub proof fn lemma_level_last(in_amount: u64, partition: u64)
    requires
        partition > 0,
    ensures
        level(in_amount, partition, partition - 1) == in_amount,
{
    lemma_div_by_multiple(in_amount as int, partition as int);
}

/// Splits `in_amount` into `partition` cumulative input levels.
///
/// Level `i` is `in_amount * (i + 1) / partition`. The products are formed in
/// 64 bits; the largest of them is `in_amount * partition`, and the call
/// fails when that product does not fit.
pub fn interpolation(in_amount: u64, partition: u64) -> (r: Result<Vec<u64>, RouteError>)
    ensures
        partition == 0 ==> r == Err::<Vec<u64>, RouteError>(RouteError::InvalidStepCount),
        partition > 0 && in_amount * partition > u64::MAX ==> r == Err::<Vec<u64>, RouteError>(
            RouteError::ArithmeticOverflow,
        ),
        partition > 0 && in_amount * partition <= u64::MAX ==> {
            &&& r matches Ok(levels)
            &&& levels@.len() == partition
            &&& forall|i: int|
                0 <= i < partition ==> #[trigger] levels@[i] == level(in_amount, partition, i)
            &&& forall|i: int, j: int|
                0 <= i <= j < partition ==> #[trigger] levels@[i] <= #[trigger] levels@[j]
            &&& levels@[partition - 1] == in_amount
        },
{
    if partition == 0 {
        return Err(RouteError::InvalidStepCount);
    }
    if in_amount.checked_mul(partition).is_none() {
        return Err(RouteError::ArithmeticOverflow);
    }
    let mut levels: Vec<u64> = Vec::new();
    let mut i: u64 = 0;
    while i < partition
        invariant
            partition > 0,
            in_amount * partition <= u64::MAX,
            0 <= i <= partition,
            levels@.len() == i,
            forall|n: int| 0 <= n < i ==> #[trigger] levels@[n] == level(in_amount, partition, n),
        decreases partition - i,
    {
        proof {
            lemma_mul_inequality(i + 1, partition as int, in_amount as int);
            assert((i + 1) * (in_amount as int) == in_amount as int * (i + 1))
                by (nonlinear_arith);
            assert((partition as int) * (in_amount as int) == in_amount * partition)
                by (nonlinear_arith);
            assert(0 <= in_amount as int * (i + 1)) by (nonlinear_arith);
        }
        let cumulative: u64 = in_amount * (i + 1) / partition;
        levels.push(cumulative);
        i = i + 1;
    }
    proof {
        assert forall|a: int, b: int| 0 <= a <= b < partition implies #[trigger] levels@[a]
            <= #[trigger] levels@[b] by {
            lemma_level_monotone(in_amount, partition, a, b);
        }
        lemma_level_last(in_amount, partition);
    }
    Ok(levels)
}

} // verus!
