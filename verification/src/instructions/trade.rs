//! What a trade costs: the figures that buying and selling share.
use crate::error::CustomError;
use crate::utils::{calculate_cost, calculate_fee, cost_result, fee_result};
use vstd::prelude::*;

verus! {

/// The amounts of one trade, in collateral units.
#[derive(Clone, Copy, Debug, PartialEq, Eq, Structural)]
pub struct Quote {
    /// Difference of the cost function across the trade: what a purchase
    /// costs before the fee, or what a sale refunds before the fee.
    pub amount: u64,
    /// The fee on `amount`.
    pub fee: u64,
    /// The half of the fee that stays with the market, rounded down.
    pub reinvest: u64,
    /// The rest of the fee, which the fee recipient can withdraw.
    pub fee_to_recipient: u64,
}

/// The quote for a cost difference `amount` at `fee_bps` basis points.
pub open spec fn quote_for(amount: u64, fee_bps: u64) -> Result<Quote, CustomError> {
    match fee_result(amount, fee_bps) {
        Err(e) => Err(e),
        Ok(fee) => Ok(
            Quote { amount, fee, reinvest: fee / 2, fee_to_recipient: (fee - fee / 2) as u64 },
        ),
    }
}

/// The quote for buying `n` shares of outcome `i` when `q` shares are
/// outstanding.
pub open spec fn buy_quote(q: Seq<u64>, b: u64, fee_bps: u64, i: int, n: u64) -> Result<
    Quote,
    CustomError,
>
    recommends
        0 <= i < q.len(),
{
    match cost_result(q, b) {
        Err(e) => Err(e),
        Ok(before) => if q[i] + n > u64::MAX {
            Err(CustomError::ArithmeticOverflow)
        } else {
            match cost_result(q.update(i, (q[i] + n) as u64), b) {
                Err(e) => Err(e),
                Ok(after) => if after < before {
                    Err(CustomError::MathError)
                } else {
                    quote_for((after - before) as u64, fee_bps)
                },
            }
        },
    }
}

/// The quote for selling `n` shares of outcome `i` when `q` shares are
/// outstanding.
pub open spec fn sell_quote(q: Seq<u64>, b: u64, fee_bps: u64, i: int, n: u64) -> Result<
    Quote,
    CustomError,
>
    recommends
        0 <= i < q.len(),
{
    match cost_result(q, b) {
        Err(e) => Err(e),
        Ok(before) => if q[i] < n {
            Err(CustomError::MathError)
        } else {
            match cost_result(q.update(i, (q[i] - n) as u64), b) {
                Err(e) => Err(e),
                Ok(after) => if before < after {
                    Err(CustomError::MathError)
                } else {
                    quote_for((before - after) as u64, fee_bps)
                },
            }
        },
    }
}

/// Computes `quote_for(amount, fee_bps)`.
pub fn quote_for_exec(amount: u64, fee_bps: u64) -> (r: Result<Quote, CustomError>)
    ensures
        r == quote_for(amount, fee_bps),
{
    match calculate_fee(amount, fee_bps) {
        Err(e) => Err(e),
        Ok(fee) => {
            let reinvest: u64 = fee / 2;
            Ok(Quote { amount, fee, reinvest, fee_to_recipient: fee - reinvest })
        },
    }
}

/// Computes `buy_quote(q, b, fee_bps, i, n)`.
pub fn buy_quote_exec(q: Vec<u64>, b: u64, fee_bps: u64, i: usize, n: u64) -> (r: Result<
    Quote,
    CustomError,
>)
    requires
        i < q.len(),
    ensures
        r == buy_quote(q@, b, fee_bps, i as int, n),
{
    let mut q = q;
    let before: u64 = match calculate_cost(&q, b) {
        Err(e) => { return Err(e); },
        Ok(c) => c,
    };
    let raised: u64 = match q[i].checked_add(n) {
        None => { return Err(CustomError::ArithmeticOverflow); },
        Some(s) => s,
    };
    q.set(i, raised);
    let after: u64 = match calculate_cost(&q, b) {
        Err(e) => { return Err(e); },
        Ok(c) => c,
    };
    if after < before {
        return Err(CustomError::MathError);
    }
    quote_for_exec(after - before, fee_bps)
}

/// Computes `sell_quote(q, b, fee_bps, i, n)`.
pub fn sell_quote_exec(q: Vec<u64>, b: u64, fee_bps: u64, i: usize, n: u64) -> (r: Result<
    Quote,
    CustomError,
>)
    requires
        i < q.len(),
    ensures
        r == sell_quote(q@, b, fee_bps, i as int, n),
{
    let mut q = q;
    let before: u64 = match calculate_cost(&q, b) {
        Err(e) => { return Err(e); },
        Ok(c) => c,
    };
    if q[i] < n {
        return Err(CustomError::MathError);
    }
    let lowered: u64 = q[i] - n;
    q.set(i, lowered);
    let after: u64 = match calculate_cost(&q, b) {
        Err(e) => { return Err(e); },
        Ok(c) => c,
    };
    if before < after {
        return Err(CustomError::MathError);
    }
    quote_for_exec(before - after, fee_bps)
}

} // verus!
