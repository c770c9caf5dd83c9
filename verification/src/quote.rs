//! Quote matrix builder: one row of the value matrix from a venue's pricing
//! curve and the cumulative input levels.

use vstd::prelude::*;
use crate::error::{RouteError, SwapError};
use crate::matrix::{MIN_VALUE, valid_cell};

verus! {

/// The direction in which a venue is traded.
#[derive(Clone, Copy, Debug, PartialEq, Eq, Structural)]
pub enum TradeDirection {
    /// Input token A, output token B.
    AtoB,
    /// Input token B, output token A.
    BtoA,
}

/// Widens an amount to the width in which curves calculate.
pub fn to_u128(val: u64) -> (r: Result<u128, SwapError>)
    ensures
        r == Ok::<u128, SwapError>(val as u128),
{
    Ok(val as u128)
}

/// The matrix cell that stands for a quote: the output where the venue gave
/// one, the sentinel where it refused.
pub open spec fn cell_of(quote: Result<u64, RouteError>) -> i128 {
    match quote {
        Ok(output) => output as i128,
        Err(_) => MIN_VALUE,
    }
}

/// Turns the answer of a pricing curve into a matrix cell.
pub fn quote_cell(quote: Result<u64, RouteError>) -> (cell: i128)
    ensures
        cell == cell_of(quote),
        valid_cell(cell),
{
    match quote {
        Ok(output) => output as i128,
        Err(_) => MIN_VALUE,
    }
}

/// `cell` stands for an answer that `curve` may give for `amount_in` against
/// the given reserves.
pub open spec fn quoted_by<F>(
    curve: F,
    amount_in: u64,
    source_account_amount: u64,
    dest_account_amount: u64,
    trade_direction: TradeDirection,
    cell: i128,
) -> bool where F: Fn(u128, u128, u128, TradeDirection) -> Result<u64, RouteError> {
    exists|quote: Result<u64, RouteError>|
        cell == cell_of(quote) && #[trigger] call_ensures(
            curve,
            (
                amount_in as u128,
                source_account_amount as u128,
                dest_account_amount as u128,
                trade_direction,
            ),
            quote,
        )
}

/// Quotes one venue at every level of `in_amounts` and returns its row of the
/// value matrix.
///
/// `curve` is the venue's pricing curve: from an input amount, the source and
/// destination reserves and the direction to the output amount, or an error
/// where it cannot serve the input. Every level is quoted against the same
/// reserves, those given, as if no earlier level had been traded. A refused
/// level becomes a [`MIN_VALUE`] cell.
pub fn calculate_swap_return<F>(
    curve: F,
    in_amounts: &[u64],
    source_account_amount: u64,
    dest_account_amount: u64,
    trade_direction: TradeDirection,
) -> (row: Vec<i128>) where F: Fn(u128, u128, u128, TradeDirection) -> Result<u64, RouteError>
    requires
        forall|k: int|
            0 <= k < in_amounts@.len() ==> call_requires(
                curve,
                (
                    #[trigger] in_amounts@[k] as u128,
                    source_account_amount as u128,
                    dest_account_amount as u128,
                    trade_direction,
                ),
            ),
    ensures
        row@.len() == in_amounts@.len(),
        forall|k: int| 0 <= k < row@.len() ==> valid_cell(#[trigger] row@[k]),
        forall|k: int|
            0 <= k < row@.len() ==> quoted_by(
                curve,
                in_amounts@[k],
                source_account_amount,
                dest_account_amount,
                trade_direction,
                #[trigger] row@[k],
            ),
{
    let mut row: Vec<i128> = Vec::new();
    let source = to_u128(source_account_amount).unwrap();
    let dest = to_u128(dest_account_amount).unwrap();
    let mut k: usize = 0;
    while k < in_amounts.len()
        invariant
            source == source_account_amount as u128,
            dest == dest_account_amount as u128,
            0 <= k <= in_amounts@.len(),
            row@.len() == k,
            forall|i: int|
                0 <= i < in_amounts@.len() ==> call_requires(
                    curve,
                    (#[trigger] in_amounts@[i] as u128, source, dest, trade_direction),
                ),
            forall|i: int| 0 <= i < k ==> valid_cell(#[trigger] row@[i]),
            forall|i: int|
                0 <= i < k ==> quoted_by(
                    curve,
                    in_amounts@[i],
                    source_account_amount,
                    dest_account_amount,
                    trade_direction,
                    #[trigger] row@[i],
                ),
        decreases in_amounts@.len() - k,
    {
        let amount_in = to_u128(in_amounts[k]).unwrap();
        let quote = curve(amount_in, source, dest, trade_direction);
        let cell = quote_cell(quote);
        assert(quoted_by(
            curve,
            in_amounts@[k as int],
            source_account_amount,
            dest_account_amount,
            trade_direction,
            cell,
        ));
        row.push(cell);
        k = k + 1;
    }
    row
}

} // verus!
