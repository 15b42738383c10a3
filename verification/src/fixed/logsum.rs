//! Fixed-point logarithm of a sum of powers of two.
//!
//! An exponent `t` stands for the real number `t / ONE`. Given exponents
//! `ts`, `log2_sum_pow2(ts)` approximates `log2(sum of 2^(ts[j] / ONE))`.
//! The largest integer part among the exponents is factored out of the sum,
//! so the terms that are added lie between 0 and 2 however large the
//! exponents are. Each term is rounded up when it is scaled to the common
//! factor: together with the rounding of the other steps this makes the
//! result monotone in every exponent.
use crate::fixed::exp2::{lemma_pow2_mantissa, pow2_mantissa, ONE};
use crate::fixed::log2::{lemma_log2_fixed_monotone, lemma_log2_fixed_times_pow2, log2_fixed, LOG_ONE};
use crate::fixed::scale::{
    lemma_scale_down_bounds, lemma_scale_down_monotone, lemma_scale_down_twice,
    lemma_scale_down_zero, scale_down,
};
use vstd::arithmetic::div_mod::*;
use vstd::arithmetic::power2::*;
use vstd::prelude::*;

verus! {

/// Integer part of the exponent `t`.
pub open spec fn int_part(t: nat) -> nat {
    t / (ONE as nat)
}

/// Fraction of the exponent `t`, in units of `1 / ONE`.
pub open spec fn frac_part(t: nat) -> nat {
    t % (ONE as nat)
}

/// The largest integer part among the exponents; 0 for none.
pub open spec fn top_exponent(ts: Seq<nat>) -> nat
    decreases ts.len(),
{
    if ts.len() == 0 {
        0
    } else {
        let rest = top_exponent(ts.drop_last());
        if int_part(ts.last()) > rest {
            int_part(ts.last())
        } else {
            rest
        }
    }
}

/// Fixed-point `2^(t / ONE) / 2^top`, rounded up in the scaling, for
/// `int_part(t) <= top`.
pub open spec fn weight(t: nat, top: nat) -> nat {
    scale_down(pow2_mantissa(frac_part(t)), (top - int_part(t)) as nat)
}

/// Sum of the weights of all exponents relative to `2^top`.
pub open spec fn weight_sum(ts: Seq<nat>, top: nat) -> nat
    decreases ts.len(),
{
    if ts.len() == 0 {
        0
    } else {
        weight_sum(ts.drop_last(), top) + weight(ts.last(), top)
    }
}

/// Fixed-point `log2` of the sum of `2^(ts[j] / ONE)`, in units of
/// `1 / LOG_ONE`.
pub open spec fn log2_sum_pow2(ts: Seq<nat>) -> nat {
    let top = top_exponent(ts);
    top * (LOG_ONE as nat) + log2_fixed(weight_sum(ts, top))
}

/// `a` is no larger than `b` at every index.
pub open spec fn pointwise_le(a: Seq<nat>, b: Seq<nat>) -> bool {
    &&& a.len() == b.len()
    &&& forall|j: int| 0 <= j < a.len() ==> a[j] <= b[j]
}

pub proof fn lemma_parts(t: nat)
    ensures
        t == int_part(t) * ONE + frac_part(t),
        frac_part(t) < ONE,
{
    lemma_fundamental_div_mod(t as int, ONE as int);
    lemma_mod_bound(t as int, ONE as int);
}

pub proof fn lemma_parts_ordered(t1: nat, t2: nat)
    requires
        t1 <= t2,
    ensures
        int_part(t1) <= int_part(t2),
        int_part(t1) == int_part(t2) ==> frac_part(t1) <= frac_part(t2),
{
    lemma_div_is_ordered(t1 as int, t2 as int, ONE as int);
    lemma_parts(t1);
    lemma_parts(t2);
}

pub proof fn lemma_top_exponent_is_upper_bound(ts: Seq<nat>, j: int)
    requires
        0 <= j < ts.len(),
    ensures
        int_part(ts[j]) <= top_exponent(ts),
    decreases ts.len(),
{
    if j < ts.len() - 1 {
        lemma_top_exponent_is_upper_bound(ts.drop_last(), j);
    }
}

pub proof fn lemma_top_exponent_is_reached(ts: Seq<nat>) -> (j: int)
    requires
        ts.len() > 0,
    ensures
        0 <= j < ts.len(),
        int_part(ts[j]) == top_exponent(ts),
    decreases ts.len(),
{
    let rest = ts.drop_last();
    if rest.len() == 0 || int_part(ts.last()) > top_exponent(rest) {
        ts.len() - 1
    } else {
        lemma_top_exponent_is_reached(rest)
    }
}

pub proof fn lemma_top_exponent_monotone(ts1: Seq<nat>, ts2: Seq<nat>)
    requires
        pointwise_le(ts1, ts2),
    ensures
        top_exponent(ts1) <= top_exponent(ts2),
    decreases ts1.len(),
{
    if ts1.len() > 0 {
        lemma_top_exponent_monotone(ts1.drop_last(), ts2.drop_last());
        lemma_parts_ordered(ts1.last(), ts2.last());
    }
}

/// Every weight lies between 1 and 2.0.
pub proof fn lemma_weight_range(t: nat, top: nat)
    ensures
        1 <= weight(t, top) <= 2 * ONE,
        int_part(t) == top ==> weight(t, top) >= ONE,
{
    lemma_parts(t);
    lemma_pow2_mantissa(frac_part(t), frac_part(t));
    lemma_scale_down_bounds(pow2_mantissa(frac_part(t)), (top - int_part(t)) as nat);
    if int_part(t) == top {
        lemma_scale_down_zero(pow2_mantissa(frac_part(t)));
    }
}

/// Among exponents under one common factor, the larger has the larger weight.
pub proof fn lemma_weight_monotone(t1: nat, t2: nat, top: nat)
    requires
        t1 <= t2,
        int_part(t2) <= top,
    ensures
        weight(t1, top) <= weight(t2, top),
{
    lemma_parts_ordered(t1, t2);
    lemma_parts(t1);
    lemma_parts(t2);
    let m1 = pow2_mantissa(frac_part(t1));
    let m2 = pow2_mantissa(frac_part(t2));
    let d2 = (top - int_part(t2)) as nat;
    if int_part(t1) == int_part(t2) {
        lemma_pow2_mantissa(frac_part(t1), frac_part(t2));
        lemma_scale_down_monotone(m1, m2, d2);
    } else {
        // One halving already brings the smaller mantissa to 1.0 or less.
        let gap = (int_part(t2) - int_part(t1) - 1) as nat;
        lemma_pow2_mantissa(frac_part(t1), frac_part(t1));
        lemma_pow2_mantissa(frac_part(t2), frac_part(t2));
        lemma2_to64();
        assert(scale_down(m1, 1) <= ONE);
        lemma_scale_down_twice(m1, 1, gap);
        lemma_scale_down_bounds(scale_down(m1, 1), gap);
        lemma_scale_down_twice(m1, 1 + gap, d2);
        lemma_scale_down_monotone(scale_down(m1, 1 + gap), m2, d2);
    }
}

/// Raising the common factor from `2^top1` to `2^top2` and the exponent from
/// `t1` to `t2` loses nothing: the new weight, counted in units of the old
/// factor, is at least the old weight.
pub proof fn lemma_weight_rebase(t1: nat, t2: nat, top1: nat, top2: nat)
    requires
        t1 <= t2,
        int_part(t1) <= top1,
        int_part(t2) <= top2,
        top1 <= top2,
    ensures
        weight(t1, top1) <= pow2((top2 - top1) as nat) * weight(t2, top2),
{
    let m = (top2 - top1) as nat;
    let m2 = pow2_mantissa(frac_part(t2));
    lemma_parts(t2);
    lemma_pow2_mantissa(frac_part(t2), frac_part(t2));
    if int_part(t2) <= top1 {
        let w = weight(t2, top1);
        lemma_weight_monotone(t1, t2, top1);
        lemma_scale_down_twice(m2, (top1 - int_part(t2)) as nat, m);
        lemma_scale_down_bounds(w, m);
    } else {
        let d2 = (top2 - int_part(t2)) as nat;
        let w2 = weight(t2, top2);
        let up = (m - d2) as nat;
        lemma_weight_range(t1, top1);
        lemma_scale_down_bounds(m2, d2);
        lemma_pow2_adds(up, d2);
        lemma2_to64();
        if up > 1 {
            lemma_pow2_strictly_increases(1, up);
        }
        assert(pow2(m) * w2 >= 2 * m2) by (nonlinear_arith)
            requires
                pow2(m) == pow2(up) * pow2(d2),
                pow2(up) >= 2,
                m2 <= pow2(d2) * w2,
        ;
    }
}

pub proof fn lemma_weight_sum_rebase(ts1: Seq<nat>, ts2: Seq<nat>, top1: nat, top2: nat)
    requires
        pointwise_le(ts1, ts2),
        top1 <= top2,
        forall|j: int| 0 <= j < ts1.len() ==> int_part(ts1[j]) <= top1,
        forall|j: int| 0 <= j < ts2.len() ==> int_part(ts2[j]) <= top2,
    ensures
        weight_sum(ts1, top1) <= pow2((top2 - top1) as nat) * weight_sum(ts2, top2),
    decreases ts1.len(),
{
    let p = pow2((top2 - top1) as nat);
    if ts1.len() == 0 {
        assert(p * 0 == 0);
    } else {
        lemma_weight_sum_rebase(ts1.drop_last(), ts2.drop_last(), top1, top2);
        lemma_weight_rebase(ts1.last(), ts2.last(), top1, top2);
        let s2 = weight_sum(ts2.drop_last(), top2);
        let w2 = weight(ts2.last(), top2);
        assert(p * (s2 + w2) == p * s2 + p * w2) by (nonlinear_arith);
    }
}

/// The sum is at least each of its terms.
pub proof fn lemma_weight_sum_covers(ts: Seq<nat>, top: nat, j: int)
    requires
        0 <= j < ts.len(),
    ensures
        weight(ts[j], top) <= weight_sum(ts, top),
    decreases ts.len(),
{
    if j < ts.len() - 1 {
        lemma_weight_sum_covers(ts.drop_last(), top, j);
    }
}

/// Under the factor of the largest exponent the sum lies between 1.0 and
/// 2.0 times the number of exponents.
pub proof fn lemma_weight_sum_range(ts: Seq<nat>)
    requires
        ts.len() > 0,
    ensures
        ONE <= weight_sum(ts, top_exponent(ts)),
{
    let j = lemma_top_exponent_is_reached(ts);
    lemma_weight_range(ts[j], top_exponent(ts));
    lemma_weight_sum_covers(ts, top_exponent(ts), j);
}

pub proof fn lemma_weight_sum_upper(ts: Seq<nat>, top: nat)
    ensures
        weight_sum(ts, top) <= ts.len() * (2 * ONE),
    decreases ts.len(),
{
    if ts.len() > 0 {
        lemma_weight_sum_upper(ts.drop_last(), top);
        lemma_weight_range(ts.last(), top);
        assert(ts.len() * (2 * ONE) == (ts.len() - 1) * (2 * ONE) + 2 * ONE) by (nonlinear_arith);
    } else {
        assert(0 * (2 * ONE) == 0);
    }
}

/// Raising any exponent never lowers the logarithm of the sum.
pub proof fn lemma_log2_sum_pow2_monotone(ts1: Seq<nat>, ts2: Seq<nat>)
    requires
        ts1.len() > 0,
        pointwise_le(ts1, ts2),
    ensures
        log2_sum_pow2(ts1) <= log2_sum_pow2(ts2),
{
    let top1 = top_exponent(ts1);
    let top2 = top_exponent(ts2);
    let m = (top2 - top1) as nat;
    lemma_top_exponent_monotone(ts1, ts2);
    assert forall|j: int| 0 <= j < ts1.len() implies int_part(ts1[j]) <= top1 by {
        lemma_top_exponent_is_upper_bound(ts1, j);
    }
    assert forall|j: int| 0 <= j < ts2.len() implies int_part(ts2[j]) <= top2 by {
        lemma_top_exponent_is_upper_bound(ts2, j);
    }
    lemma_weight_sum_rebase(ts1, ts2, top1, top2);
    lemma_weight_sum_range(ts1);
    lemma_weight_sum_range(ts2);
    let a1 = weight_sum(ts1, top1);
    let a2 = weight_sum(ts2, top2);
    lemma_log2_fixed_times_pow2(a2, m);
    lemma_log2_fixed_monotone(a1, pow2(m) * a2);
    assert(top2 * LOG_ONE == top1 * LOG_ONE + m * LOG_ONE) by (nonlinear_arith)
        requires
            top2 == top1 + m,
    ;
}

} // verus!
