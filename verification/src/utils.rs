//! The pricing engine and the fee calculator.
//!
//! The cost function of the scoring rule is
//! `C(q) = b * ln(sum of exp(q[i] / b))`, in collateral units
//! (`COST_SCALE` per share). It is evaluated in integer fixed-point
//! arithmetic alone, so equal inputs give equal results everywhere:
//!
//! 1. each quantity becomes a binary exponent, `q[i] * log2(e) / b`, with 62
//!    fractional bits;
//! 2. `log2` of the sum of the powers of two is taken with the largest
//!    integer part factored out, so no share count overflows it, and comes
//!    out with 48 fractional bits;
//! 3. the logarithm is multiplied by `b * ln(2) * COST_SCALE` and rounded.
//!
//! Every step rounds in a fixed direction, which makes the cost monotone in
//! each quantity (`lemma_lmsr_cost_monotone`). No ratio `q[i] / b` is too
//! large: the only limit is that the cost itself fits 64 bits.
//!
//! The result is designed to stay within
//! `1 + b * COST_SCALE * 2^-44 + C(q) * 2^-60` collateral units of the
//! real-valued cost: the end rounds to the nearest unit, the logarithm loses
//! a few units of its 48th fractional bit, and the constants and exponents
//! carry 62 fractional bits. That bound is a matter of the design and of
//! tests against the real-valued formula; the contracts do not state it.
use crate::constants::BPS_DENOMINATOR;
use crate::error::CustomError;
use crate::fixed::exp2::{pow2_mantissa_exec, LOG2E, ONE};
use crate::fixed::log2::{log2_fixed_exec, LOG_ONE};
use crate::fixed::logsum::{
    int_part, lemma_log2_sum_pow2_monotone, lemma_parts, lemma_top_exponent_is_upper_bound,
    lemma_weight_range, lemma_weight_sum_range, lemma_weight_sum_upper, log2_sum_pow2,
    pointwise_le, top_exponent, weight_sum,
};
use crate::fixed::scale::scale_down_exec;
use vstd::arithmetic::div_mod::{lemma_div_is_ordered, lemma_hoist_over_denominator};
use vstd::prelude::*;

verus! {

/// `ln(2) * COST_SCALE`, rounded down to 32 fractional bits.
pub const LN2_COST: u128 = 2977044471819572071;

/// The binary exponent of `exp(q / b)`: `q * log2(e) / b` with 62 fractional
/// bits, rounded down.
pub open spec fn share_exponent(q: u64, b: u64) -> nat {
    (q as nat) * (LOG2E as nat) / (b as nat)
}

/// The binary exponents of all quantities.
pub open spec fn share_exponents(q: Seq<u64>, b: u64) -> Seq<nat> {
    Seq::new(q.len(), |j: int| share_exponent(q[j], b))
}

/// The cost that belongs to a binary logarithm `v` with 48 fractional bits:
/// `v * b * ln(2) * COST_SCALE`, cut to 16 fractional bits and then rounded
/// to the nearest unit.
pub open spec fn cost_from_log2(v: nat, b: u64) -> nat {
    ((v * (b as nat) * (LN2_COST as nat) / 0x1_0000_0000_0000_0000 + 0x8000) / 0x1_0000) as nat
}

/// The cost function of the scoring rule, in collateral units, for
/// quantities `q` and liquidity parameter `b`.
pub open spec fn lmsr_cost(q: Seq<u64>, b: u64) -> nat {
    cost_from_log2(log2_sum_pow2(share_exponents(q, b)), b)
}

/// What `calculate_cost` returns.
pub open spec fn cost_result(q: Seq<u64>, b: u64) -> Result<u64, CustomError> {
    if q.len() == 0 || b == 0 {
        Err(CustomError::InvalidParameter)
    } else if lmsr_cost(q, b) > u64::MAX {
        Err(CustomError::ArithmeticOverflow)
    } else {
        Ok(lmsr_cost(q, b) as u64)
    }
}

/// What `calculate_fee` returns: `amount * fee_bps / 10000`, rounded down,
/// unless the product leaves the 64-bit range.
pub open spec fn fee_result(amount: u64, fee_bps: u64) -> Result<u64, CustomError> {
    if amount * fee_bps > u64::MAX {
        Err(CustomError::ArithmeticOverflow)
    } else {
        Ok((amount * fee_bps / (BPS_DENOMINATOR as int)) as u64)
    }
}

pub proof fn lemma_share_exponent_bound(q: u64, b: u64)
    requires
        b > 0,
    ensures
        share_exponent(q, b) <= q * LOG2E < 0x8000_0000_0000_0000_0000_0000_0000_0000,
        int_part(share_exponent(q, b)) < 0x2_0000_0000_0000_0000,
{
    assert(0 <= q * LOG2E < 0x8000_0000_0000_0000_0000_0000_0000_0000) by (nonlinear_arith)
        requires
            q <= 0xffff_ffff_ffff_ffff,
            LOG2E == 6653256548922161245,
    ;
    lemma_div_is_ordered((q * LOG2E) as int, (q * LOG2E) as int, 1);
    vstd::arithmetic::div_mod::lemma_div_is_ordered_by_denominator((q * LOG2E) as int, 1, b as int);
    lemma_div_is_ordered(
        share_exponent(q, b) as int,
        0x8000_0000_0000_0000_0000_0000_0000_0000,
        ONE as int,
    );
}

pub proof fn lemma_share_exponent_monotone(q1: u64, q2: u64, b: u64)
    requires
        b > 0,
        q1 <= q2,
    ensures
        share_exponent(q1, b) <= share_exponent(q2, b),
{
    assert(q1 * LOG2E <= q2 * LOG2E) by (nonlinear_arith)
        requires
            q1 <= q2,
    ;
    lemma_div_is_ordered((q1 * LOG2E) as int, (q2 * LOG2E) as int, b as int);
}

/// A larger logarithm never costs less.
pub proof fn lemma_cost_from_log2_monotone(v1: nat, v2: nat, b: u64)
    requires
        v1 <= v2,
    ensures
        cost_from_log2(v1, b) <= cost_from_log2(v2, b),
{
    assert(0 <= v1 * (b as nat) * (LN2_COST as nat) <= v2 * (b as nat) * (LN2_COST as nat))
        by (nonlinear_arith)
        requires
            v1 <= v2,
    ;
}

/// The cost never decreases when any quantity grows.
pub proof fn lemma_lmsr_cost_monotone(q1: Seq<u64>, q2: Seq<u64>, b: u64)
    requires
        b > 0,
        q1.len() == q2.len(),
        q1.len() > 0,
        forall|j: int| 0 <= j < q1.len() ==> q1[j] <= q2[j],
    ensures
        lmsr_cost(q1, b) <= lmsr_cost(q2, b),
{
    let ts1 = share_exponents(q1, b);
    let ts2 = share_exponents(q2, b);
    assert(pointwise_le(ts1, ts2)) by {
        assert forall|j: int| 0 <= j < ts1.len() implies ts1[j] <= ts2[j] by {
            lemma_share_exponent_monotone(q1[j], q2[j], b);
        }
    }
    lemma_log2_sum_pow2_monotone(ts1, ts2);
    lemma_cost_from_log2_monotone(log2_sum_pow2(ts1), log2_sum_pow2(ts2), b);
}

/// Computes `share_exponent(q, b)`.
fn share_exponent_exec(q: u64, b: u64) -> (t: u128)
    requires
        b > 0,
    ensures
        t == share_exponent(q, b),
{
    proof {
        lemma_share_exponent_bound(q, b);
    }
    (q as u128) * LOG2E / (b as u128)
}

/// Computes the largest integer part among the exponents of `q`.
fn top_exponent_exec(q: &Vec<u64>, b: u64) -> (top: u128)
    requires
        b > 0,
    ensures
        top == top_exponent(share_exponents(q@, b)),
        top < 0x2_0000_0000_0000_0000,
{
    let ghost ts = share_exponents(q@, b);
    let mut top: u128 = 0;
    let mut j: usize = 0;
    while j < q.len()
        invariant
            b > 0,
            j <= q.len(),
            ts == share_exponents(q@, b),
            top == top_exponent(ts.take(j as int)),
            top < 0x2_0000_0000_0000_0000,
        decreases q.len() - j,
    {
        let t: u128 = share_exponent_exec(q[j], b);
        let k: u128 = t / ONE;
        proof {
            lemma_share_exponent_bound(q[j as int], b);
            assert(ts.take(j + 1).drop_last() =~= ts.take(j as int));
            assert(ts.take(j + 1).last() == ts[j as int]);
        }
        if k > top {
            top = k;
        }
        j = j + 1;
    }
    proof {
        assert(ts.take(q.len() as int) =~= ts);
    }
    top
}

/// Computes the sum of the weights of the exponents of `q` relative to
/// `2^top`.
fn weight_sum_exec(q: &Vec<u64>, b: u64, top: u128) -> (sum: u128)
    requires
        b > 0,
        top == top_exponent(share_exponents(q@, b)),
    ensures
        sum == weight_sum(share_exponents(q@, b), top as nat),
{
    let ghost ts = share_exponents(q@, b);
    let mut sum: u128 = 0;
    let mut j: usize = 0;
    while j < q.len()
        invariant
            b > 0,
            j <= q.len(),
            ts == share_exponents(q@, b),
            top == top_exponent(ts),
            sum == weight_sum(ts.take(j as int), top as nat),
        decreases q.len() - j,
    {
        let t: u128 = share_exponent_exec(q[j], b);
        let k: u128 = t / ONE;
        let f: u64 = (t % ONE) as u64;
        proof {
            lemma_top_exponent_is_upper_bound(ts, j as int);
            lemma_parts(t as nat);
            lemma_weight_range(t as nat, top as nat);
            lemma_weight_sum_upper(ts.take(j as int), top as nat);
            assert(ts.take(j + 1).drop_last() =~= ts.take(j as int));
            assert(ts.take(j + 1).last() == ts[j as int]);
            assert(j * (2 * ONE) <= 0xffff_ffff_ffff_ffff * (2 * ONE)) by (nonlinear_arith)
                requires
                    j <= 0xffff_ffff_ffff_ffff,
            ;
        }
        let m: u64 = pow2_mantissa_exec(f);
        let w: u64 = scale_down_exec(m, top - k);
        sum = sum + (w as u128);
        j = j + 1;
    }
    proof {
        assert(ts.take(q.len() as int) =~= ts);
    }
    sum
}

/// Computes `cost_from_log2(v, b)`, or fails when it leaves the 64-bit
/// range.
fn cost_from_log2_exec(v: u128, b: u64) -> (r: Result<u64, CustomError>)
    ensures
        cost_from_log2(v as nat, b) <= u64::MAX ==> r == Ok::<u64, CustomError>(
            cost_from_log2(v as nat, b) as u64,
        ),
        cost_from_log2(v as nat, b) > u64::MAX ==> r == Err::<u64, CustomError>(
            CustomError::ArithmeticOverflow,
        ),
{
    let product: Option<u128> = v.checked_mul(b as u128);
    match product {
        None => {
            proof {
                let p = v * (b as nat);
                let floor: int = 0x2000_0000_0000_0000_0000_0000_0000_0000_0000_0000_0000_0000int;
                assert(p * LN2_COST >= floor) by (nonlinear_arith)
                    requires
                        p >= 0x1_0000_0000_0000_0000_0000_0000_0000_0000int,
                        LN2_COST == 2977044471819572071,
                        floor == 0x2000_0000_0000_0000_0000_0000_0000_0000_0000_0000_0000_0000int,
                ;
                lemma_div_is_ordered(floor, (p * LN2_COST) as int, 0x1_0000_0000_0000_0000);
            }
            Err(CustomError::ArithmeticOverflow)
        },
        Some(p) => {
            let hi: u128 = p / 0x1_0000_0000_0000_0000;
            let lo: u128 = p % 0x1_0000_0000_0000_0000;
            proof {
                assert(hi * LN2_COST <= 0xffff_ffff_ffff_ffff * 2977044471819572071) by (nonlinear_arith)
                    requires
                        hi <= 0xffff_ffff_ffff_ffff,
                        LN2_COST == 2977044471819572071,
                ;
                assert(lo * LN2_COST <= 0xffff_ffff_ffff_ffff * 2977044471819572071) by (nonlinear_arith)
                    requires
                        lo <= 0xffff_ffff_ffff_ffff,
                        LN2_COST == 2977044471819572071,
                ;
                assert(p * LN2_COST == lo * LN2_COST + (hi * LN2_COST) * 0x1_0000_0000_0000_0000)
                    by (nonlinear_arith)
                    requires
                        p == hi * 0x1_0000_0000_0000_0000 + lo,
                ;
                lemma_hoist_over_denominator(
                    (lo * LN2_COST) as int,
                    (hi * LN2_COST) as int,
                    0x1_0000_0000_0000_0000,
                );
            }
            let whole: u128 = hi * LN2_COST + lo * LN2_COST / 0x1_0000_0000_0000_0000;
            let cost: u128 = (whole + 0x8000) / 0x1_0000;
            if cost > u64::MAX as u128 {
                Err(CustomError::ArithmeticOverflow)
            } else {
                Ok(cost as u64)
            }
        },
    }
}

/// Cost of the outstanding quantities `q` under liquidity parameter `b`, in
/// collateral units.
///
/// Fails with `InvalidParameter` when `q` is empty or `b` is zero, and with
/// `ArithmeticOverflow` when the cost does not fit 64 bits; else returns
/// `lmsr_cost(q, b)`.
pub fn calculate_cost(q: &Vec<u64>, b: u64) -> (r: Result<u64, CustomError>)
    ensures
        r == cost_result(q@, b),
{
    if q.len() == 0 || b == 0 {
        return Err(CustomError::InvalidParameter);
    }
    let ghost ts = share_exponents(q@, b);
    let top: u128 = top_exponent_exec(q, b);
    let sum: u128 = weight_sum_exec(q, b, top);
    proof {
        lemma_weight_sum_range(ts);
        lemma_weight_sum_upper(ts, top as nat);
        assert(ts.len() * (2 * ONE) <= 0xffff_ffff_ffff_ffff * (2 * ONE)) by (nonlinear_arith)
            requires
                ts.len() <= 0xffff_ffff_ffff_ffff,
        ;
    }
    let log_sum: u128 = log2_fixed_exec(sum);
    proof {
        assert(top * LOG_ONE <= 0x2_0000_0000_0000_0000 * LOG_ONE) by (nonlinear_arith)
            requires
                top <= 0x2_0000_0000_0000_0000,
        ;
    }
    let v: u128 = top * LOG_ONE + log_sum;
    cost_from_log2_exec(v, b)
}

/// Fee on `cost` at `fee_percent` basis points: `cost * fee_percent / 10000`,
/// rounded down. Fails with `ArithmeticOverflow` when the product does not
/// fit 64 bits.
pub fn calculate_fee(cost: u64, fee_percent: u64) -> (r: Result<u64, CustomError>)
    ensures
        r == fee_result(cost, fee_percent),
{
    match cost.checked_mul(fee_percent) {
        None => Err(CustomError::ArithmeticOverflow),
        Some(product) => Ok(product / BPS_DENOMINATOR),
    }
}

} // verus!
