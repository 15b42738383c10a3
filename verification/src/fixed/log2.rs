//! Fixed-point binary logarithm.
//!
//! The argument carries 62 fractional bits (`ONE` stands for 1.0) and must be
//! at least 1.0; the result carries 48 (`LOG_ONE` stands for 1.0). The
//! integer part counts the halvings that bring the argument below 2.0; the
//! fraction is read off bit by bit by squaring the remaining mantissa. Every
//! step rounds toward zero, so the result never exceeds the true logarithm,
//! and it never decreases when the argument grows.
use crate::fixed::exp2::ONE;
use vstd::arithmetic::div_mod::*;
use vstd::arithmetic::power2::*;
use vstd::prelude::*;

verus! {

/// 1.0 in the 48-bit fixed-point format of logarithms.
pub const LOG_ONE: u128 = 0x1_0000_0000_0000;

/// How many times `x` is halved until it drops below 2.0.
pub open spec fn norm_shift(x: nat) -> nat
    decreases x,
{
    if x < 2 * ONE {
        0
    } else {
        1 + norm_shift(x / 2)
    }
}

/// What is left of `x` after those halvings.
pub open spec fn norm_mantissa(x: nat) -> nat
    decreases x,
{
    if x < 2 * ONE {
        x
    } else {
        norm_mantissa(x / 2)
    }
}

/// The fraction bits of `log2(m / ONE)` from the bit of weight `w` down, for
/// a mantissa `m` in `[ONE, 2 * ONE)`; `w` is halved from bit to bit.
pub open spec fn log2_fraction(m: nat, w: nat) -> nat
    decreases w,
{
    if w == 0 {
        0
    } else {
        let s = m * m / (ONE as nat);
        if s >= 2 * ONE {
            w + log2_fraction(s / 2, w / 2)
        } else {
            log2_fraction(s, w / 2)
        }
    }
}

/// Fixed-point `log2(x / ONE)`, in units of `1 / LOG_ONE`.
pub open spec fn log2_fixed(x: nat) -> nat {
    norm_shift(x) * (LOG_ONE as nat) + log2_fraction(norm_mantissa(x), (LOG_ONE / 2) as nat)
}

/// The fraction built from weight `w` down stays below `2 * w`.
pub proof fn lemma_log2_fraction_bound(m: nat, w: nat)
    ensures
        w == 0 ==> log2_fraction(m, w) == 0,
        w >= 1 ==> log2_fraction(m, w) <= 2 * w - 1,
    decreases w,
{
    if w > 0 {
        let s = m * m / (ONE as nat);
        lemma_log2_fraction_bound(s / 2, w / 2);
        lemma_log2_fraction_bound(s, w / 2);
    }
}

pub proof fn lemma_square_monotone(m1: nat, m2: nat)
    requires
        m1 <= m2,
    ensures
        m1 * m1 / (ONE as nat) <= m2 * m2 / (ONE as nat),
{
    assert(m1 * m1 <= m2 * m2) by (nonlinear_arith)
        requires
            m1 <= m2,
    ;
    lemma_div_is_ordered((m1 * m1) as int, (m2 * m2) as int, ONE as int);
}

/// A larger mantissa never gives a smaller fraction.
pub proof fn lemma_log2_fraction_monotone(m1: nat, m2: nat, w: nat)
    requires
        m1 <= m2,
    ensures
        log2_fraction(m1, w) <= log2_fraction(m2, w),
    decreases w,
{
    if w > 0 {
        let s1 = m1 * m1 / (ONE as nat);
        let s2 = m2 * m2 / (ONE as nat);
        lemma_square_monotone(m1, m2);
        if s1 >= 2 * ONE {
            lemma_log2_fraction_monotone(s1 / 2, s2 / 2, w / 2);
        } else if s2 >= 2 * ONE {
            lemma_log2_fraction_bound(s1, w / 2);
        } else {
            lemma_log2_fraction_monotone(s1, s2, w / 2);
        }
    }
}

pub proof fn lemma_log2_fixed_range(x: nat)
    ensures
        norm_shift(x) * LOG_ONE <= log2_fixed(x) < (norm_shift(x) + 1) * LOG_ONE,
{
    lemma_log2_fraction_bound(norm_mantissa(x), (LOG_ONE / 2) as nat);
    assert((norm_shift(x) + 1) * LOG_ONE == norm_shift(x) * LOG_ONE + LOG_ONE) by (nonlinear_arith);
}

/// A larger argument never gives a smaller logarithm.
pub proof fn lemma_log2_fixed_monotone(x1: nat, x2: nat)
    requires
        x1 <= x2,
    ensures
        log2_fixed(x1) <= log2_fixed(x2),
    decreases x2,
{
    if x2 < 2 * ONE {
        lemma_log2_fraction_monotone(x1, x2, (LOG_ONE / 2) as nat);
    } else if x1 < 2 * ONE {
        lemma_log2_fixed_range(x1);
        lemma_log2_fixed_range(x2);
        assert(norm_shift(x2) * LOG_ONE >= 1 * LOG_ONE) by (nonlinear_arith)
            requires
                norm_shift(x2) >= 1,
        ;
    } else {
        lemma_log2_fixed_monotone(x1 / 2, x2 / 2);
        lemma_log2_fixed_double_unfold(x1);
        lemma_log2_fixed_double_unfold(x2);
    }
}

/// From 2.0 on, halving the argument lowers the logarithm by exactly 1.0.
pub proof fn lemma_log2_fixed_double_unfold(x: nat)
    requires
        x >= 2 * ONE,
    ensures
        log2_fixed(x) == log2_fixed(x / 2) + LOG_ONE,
{
    assert((1 + norm_shift(x / 2)) * LOG_ONE == norm_shift(x / 2) * LOG_ONE + LOG_ONE)
        by (nonlinear_arith);
}

/// Multiplying the argument by `2^k` raises the logarithm by exactly `k`.
pub proof fn lemma_log2_fixed_times_pow2(x: nat, k: nat)
    requires
        x >= ONE,
    ensures
        pow2(k) * x >= ONE,
        log2_fixed(pow2(k) * x) == k * LOG_ONE + log2_fixed(x),
    decreases k,
{
    if k == 0 {
        lemma2_to64();
        assert(pow2(0) * x == x);
        assert(0 * LOG_ONE == 0);
    } else {
        lemma_log2_fixed_times_pow2(x, (k - 1) as nat);
        lemma_pow2_unfold(k);
        let y = pow2((k - 1) as nat) * x;
        assert(pow2(k) * x == 2 * y) by (nonlinear_arith)
            requires
                pow2(k) == 2 * pow2((k - 1) as nat),
                y == pow2((k - 1) as nat) * x,
        ;
        assert((2 * y) / 2 == y);
        lemma_log2_fixed_double_unfold(2 * y);
        assert(k * LOG_ONE == (k - 1) * LOG_ONE + LOG_ONE) by (nonlinear_arith);
    }
}

/// Arguments below `2^(n + 63)` are halved at most `n` times.
pub proof fn lemma_norm_shift_small(x: nat, n: nat)
    requires
        x < pow2(n) * (2 * ONE),
    ensures
        norm_shift(x) <= n,
    decreases n,
{
    if x >= 2 * ONE {
        if n == 0 {
            lemma2_to64();
            assert(pow2(0) * (2 * ONE) == 2 * ONE);
        } else {
            lemma_pow2_unfold(n);
            assert(x / 2 < pow2((n - 1) as nat) * (2 * ONE)) by (nonlinear_arith)
                requires
                    x < pow2(n) * (2 * ONE),
                    pow2(n) == 2 * pow2((n - 1) as nat),
            ;
            lemma_norm_shift_small(x / 2, (n - 1) as nat);
        }
    }
}

/// Computes `log2_fraction(m, LOG_ONE / 2)`.
fn log2_fraction_exec(m: u64) -> (r: u64)
    requires
        ONE <= m < 2 * ONE,
    ensures
        r == log2_fraction(m as nat, (LOG_ONE / 2) as nat),
        r < LOG_ONE,
{
    let mut cur: u128 = m as u128;
    let mut w: u64 = 0x8000_0000_0000;
    let mut acc: u64 = 0;
    proof {
        lemma_log2_fraction_bound(m as nat, (LOG_ONE / 2) as nat);
    }
    while w > 0
        invariant
            ONE <= cur < 2 * ONE,
            w <= 0x8000_0000_0000,
            acc + log2_fraction(cur as nat, w as nat) == log2_fraction(
                m as nat,
                (LOG_ONE / 2) as nat,
            ),
            log2_fraction(m as nat, (LOG_ONE / 2) as nat) < LOG_ONE,
        decreases w,
    {
        assert(0x1000_0000_0000_0000_0000_0000_0000_0000 <= cur * cur
            < 0x4000_0000_0000_0000_0000_0000_0000_0000) by (nonlinear_arith)
            requires
                0x4000_0000_0000_0000 <= cur < 0x8000_0000_0000_0000,
        ;
        let s: u128 = cur * cur / ONE;
        if s >= 2 * ONE {
            acc = acc + w;
            cur = s / 2;
        } else {
            cur = s;
        }
        w = w / 2;
    }
    acc
}

/// Computes `log2_fixed(x)`.
pub fn log2_fixed_exec(x: u128) -> (r: u128)
    requires
        ONE <= x < 0x8000_0000_0000_0000_0000_0000_0000_0000,
    ensures
        r == log2_fixed(x as nat),
        r < 65 * LOG_ONE,
{
    let mut cur: u128 = x;
    let mut shift: u128 = 0;
    proof {
        lemma2_to64();
        lemma2_to64_rest();
        assert(pow2(64) * (2 * ONE) == 0x8000_0000_0000_0000_0000_0000_0000_0000);
        lemma_norm_shift_small(x as nat, 64);
    }
    while cur >= 2 * ONE
        invariant
            ONE <= cur <= x,
            shift + norm_shift(cur as nat) == norm_shift(x as nat),
            norm_mantissa(cur as nat) == norm_mantissa(x as nat),
            norm_shift(x as nat) <= 64,
        decreases cur,
    {
        cur = cur / 2;
        shift = shift + 1;
    }
    let frac: u64 = log2_fraction_exec(cur as u64);
    proof {
        assert(shift * LOG_ONE <= 64 * LOG_ONE) by (nonlinear_arith)
            requires
                shift <= 64,
        ;
    }
    shift * LOG_ONE + (frac as u128)
}

} // verus!
