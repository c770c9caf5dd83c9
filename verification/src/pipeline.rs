//! One routing request from end to end: quantize the trade, quote every
//! venue at every level, and find the best split.

use vstd::prelude::*;
use crate::error::RouteError;
use crate::matrix::{is_optimum, valid_cell, viable, well_formed};
use crate::optimize::{Allocation, find_distribution, table};
use crate::quantize::{interpolation, level};
use crate::quote::{cell_of, quote_cell};

verus! {

/// `m` holds what `quote` may answer for every venue at every level of
/// `in_amount` in `partition` steps: one row for each of the `venues`, one
/// cell for each level.
pub open spec fn quotes_of<F>(
    quote: F,
    m: Seq<Seq<i128>>,
    venues: int,
    in_amount: u64,
    partition: u64,
) -> bool where F: Fn(usize, u64) -> Result<u64, RouteError> {
    &&& m.len() == venues
    &&& forall|v: int| 0 <= v < venues ==> (#[trigger] m[v]).len() == partition
    &&& forall|v: int, i: int|
        0 <= v < venues && 0 <= i < partition ==> answered(
            quote,
            v,
            level(in_amount, partition, i),
            #[trigger] m[v][i],
        )
}

/// `cell` stands for an answer that `quote` may give venue `v` for `input`.
pub open spec fn answered<F>(quote: F, v: int, input: int, cell: i128) -> bool where
    F: Fn(usize, u64) -> Result<u64, RouteError>,
 {
    exists|answer: Result<u64, RouteError>|
        cell == cell_of(answer) && #[trigger] call_ensures(
            quote,
            (v as usize, input as u64),
            answer,
        )
}

/// Splits a trade of `in_amount` over `venues` venues in `partition` steps.
///
/// `quote` is the pricing of the venues: from a venue and an input amount
/// to the output amount against the venue's reserves as they stand, or an
/// error where the venue cannot serve the input. It is asked once for every
/// venue and level; an input that a venue refuses is left out of every
/// split. The allocation that comes back hands out all the steps and yields
/// the most that the quotes allow.
pub fn split_trade<F>(quote: F, venues: usize, in_amount: u64, partition: u64) -> (r: Result<
    Allocation,
    RouteError,
>) where F: Fn(usize, u64) -> Result<u64, RouteError>
    requires
        venues >= 1,
        partition <= isize::MAX,
        forall|v: usize, input: u64| v < venues ==> #[trigger] call_requires(quote, (v, input)),
    ensures
        partition == 0 ==> r == Err::<Allocation, RouteError>(RouteError::InvalidStepCount),
        partition > 0 && in_amount * partition > u64::MAX ==> r == Err::<Allocation, RouteError>(
            RouteError::ArithmeticOverflow,
        ),
        partition > 0 && in_amount * partition <= u64::MAX ==> exists|m: Seq<Seq<i128>>|
            #![trigger quotes_of(quote, m, venues as int, in_amount, partition)]
            {
                &&& quotes_of(quote, m, venues as int, in_amount, partition)
                &&& !viable(m, partition as int) ==> r == Err::<Allocation, RouteError>(
                    RouteError::NoViableRoute,
                )
                &&& viable(m, partition as int) ==> (r matches Ok(found) && is_optimum(
                    m,
                    partition as int,
                    found.shares(),
                    found.value as int,
                ))
            },
{
    let levels = match interpolation(in_amount, partition) {
        Ok(levels) => levels,
        Err(e) => {
            return Err(e);
        },
    };
    let mut rows: Vec<Vec<i128>> = Vec::new();
    let mut v: usize = 0;
    while v < venues
        invariant
            0 <= v <= venues,
            partition > 0,
            levels@.len() == partition,
            forall|i: int|
                0 <= i < partition ==> #[trigger] levels@[i] == level(in_amount, partition, i),
            forall|u: usize, input: u64| u < venues ==> #[trigger] call_requires(quote, (u, input)),
            rows@.len() == v,
            forall|u: int| 0 <= u < v ==> (#[trigger] rows@[u])@.len() == partition,
            forall|u: int, i: int|
                0 <= u < v && 0 <= i < partition ==> valid_cell(#[trigger] rows@[u]@[i]),
            forall|u: int, i: int|
                0 <= u < v && 0 <= i < partition ==> answered(
                    quote,
                    u,
                    level(in_amount, partition, i),
                    #[trigger] rows@[u]@[i],
                ),
        decreases venues - v,
    {
        let mut row: Vec<i128> = Vec::new();
        let mut i: usize = 0;
        while i < levels.len()
            invariant
                0 <= i <= levels@.len(),
                v < venues,
                levels@.len() == partition,
                forall|n: int|
                    0 <= n < partition ==> #[trigger] levels@[n] == level(in_amount, partition, n),
                forall|u: usize, input: u64| u < venues ==> #[trigger] call_requires(quote, (u, input)),
                row@.len() == i,
                forall|n: int| 0 <= n < i ==> valid_cell(#[trigger] row@[n]),
                forall|n: int|
                    0 <= n < i ==> answered(
                        quote,
                        v as int,
                        level(in_amount, partition, n),
                        #[trigger] row@[n],
                    ),
            decreases levels@.len() - i,
        {
            let answer = quote(v, levels[i]);
            let cell = quote_cell(answer);
            assert(levels@[i as int] == level(in_amount, partition, i as int));
            assert(call_ensures(
                quote,
                (v as int as usize, level(in_amount, partition, i as int) as u64),
                answer,
            ));
            assert(answered(quote, v as int, level(in_amount, partition, i as int), cell));
            row.push(cell);
            i = i + 1;
        }
        rows.push(row);
        v = v + 1;
    }
    let mut amounts: Vec<&[i128]> = Vec::new();
    let mut u: usize = 0;
    while u < venues
        invariant
            0 <= u <= venues,
            rows@.len() == venues,
            amounts@.len() == u,
            forall|n: int| 0 <= n < u ==> (#[trigger] amounts@[n])@ == rows@[n]@,
        decreases venues - u,
    {
        amounts.push(rows[u].as_slice());
        u = u + 1;
    }
    let venue_rows = amounts.as_slice();
    let ghost m = table(venue_rows);
    proof {
        assert forall|n: int| 0 <= n < venues implies #[trigger] m[n] == rows@[n]@ by {
            assert(amounts@[n]@ == rows@[n]@);
        }
        assert(well_formed(m, partition as int));
        assert(quotes_of(quote, m, venues as int, in_amount, partition));
    }
    find_distribution(partition, venue_rows)
}

} // verus!
