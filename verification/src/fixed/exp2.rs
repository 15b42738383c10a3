//! Fixed-point powers of two.
//!
//! Values carry 62 fractional bits: the integer `ONE` stands for 1.0. For a
//! fraction `f` in `[0, ONE)`, `pow2_mantissa(f)` approximates
//! `2^(f / ONE) * ONE` from below by a truncated exponential series, every
//! step of which rounds toward zero. The result is a function of `f` alone,
//! it never decreases when `f` grows, and it stays in `[ONE, 2 * ONE]`.
use vstd::prelude::*;

verus! {

/// 1.0 in the 62-bit fixed-point format.
pub const ONE: u128 = 0x4000_0000_0000_0000;

/// ln 2, rounded down to 62 fractional bits.
pub const LN2: u128 = 3196577161300663914;

/// log2 e, rounded down to 62 fractional bits.
pub const LOG2E: u128 = 6653256548922161245;

/// Number of terms of the exponential series after the leading 1.
pub const SERIES_TERMS: u64 = 20;

/// The tail `1 + y/k * (1 + y/(k+1) * (1 + ...))` of the exponential series
/// for `y / ONE`, cut after the term of index `SERIES_TERMS`, with every
/// product and quotient rounded toward zero.
pub open spec fn exp_tail(y: nat, k: nat) -> nat
    decreases SERIES_TERMS + 1 - k,
{
    if k == 0 || k > SERIES_TERMS {
        ONE as nat
    } else {
        (ONE + (y * exp_tail(y, k + 1) / (ONE as nat)) / k) as nat
    }
}

/// Fixed-point `2^(f / ONE)` for a fraction `f`, in units of `1 / ONE`.
pub open spec fn pow2_mantissa(f: nat) -> nat {
    exp_tail(f * (LN2 as nat) / (ONE as nat), 1)
}

pub proof fn lemma_exp_tail_at_least_one(y: nat, k: nat)
    ensures
        exp_tail(y, k) >= ONE,
    decreases SERIES_TERMS + 1 - k,
{
    if k == 0 || k > SERIES_TERMS {
    } else {
        lemma_exp_tail_at_least_one(y, k + 1);
        let inner = exp_tail(y, k + 1);
        assert(y * inner >= 0) by (nonlinear_arith)
            requires
                y >= 0,
                inner >= 0,
        ;
        
    }
}

/// A larger argument never gives a smaller tail.
pub proof fn lemma_exp_tail_monotone(y1: nat, y2: nat, k: nat)
    requires
        y1 <= y2,
    ensures
        exp_tail(y1, k) <= exp_tail(y2, k),
    decreases SERIES_TERMS + 1 - k,
{
    if k == 0 || k > SERIES_TERMS {
    } else {
        lemma_exp_tail_monotone(y1, y2, k + 1);
        let r1 = exp_tail(y1, k + 1);
        let r2 = exp_tail(y2, k + 1);
        assert(y1 * r1 <= y2 * r2) by (nonlinear_arith)
            requires
                y1 <= y2,
                r1 <= r2,
        ;
        lemma_nested_div_monotone((y1 * r1) as int, (y2 * r2) as int, ONE as int, k as int);
    }
}

/// Dividing twice by positive numbers keeps order.
pub proof fn lemma_nested_div_monotone(a: int, b: int, c: int, d: int)
    requires
        0 <= a <= b,
        c > 0,
        d > 0,
    ensures
        0 <= (a / c) / d <= (b / c) / d,
{
    vstd::arithmetic::div_mod::lemma_div_is_ordered(a, b, c);
    vstd::arithmetic::div_mod::lemma_div_pos_is_pos(a, c);
    vstd::arithmetic::div_mod::lemma_div_is_ordered(a / c, b / c, d);
    vstd::arithmetic::div_mod::lemma_div_pos_is_pos(a / c, d);
}

/// The tails at `y = LN2`, the largest argument that `pow2_mantissa` uses.
proof fn lemma_exp_tail_at_ln2()
    ensures
        forall|k: nat| #[trigger] exp_tail(LN2 as nat, k) <= 2 * ONE,
{
    reveal_with_fuel(exp_tail, 2);
    assert(exp_tail(LN2 as nat, 21) == ONE);
    assert(exp_tail(LN2 as nat, 20) == 4771514876492421099);
    assert(exp_tail(LN2 as nat, 19) == 4785757707040048817);
    assert(exp_tail(LN2 as nat, 18) == 4795976821842823379);
    assert(exp_tail(LN2 as nat, 17) == 4807234125020987912);
    assert(exp_tail(LN2 as nat, 16) == 4819943567180503742);
    assert(exp_tail(LN2 as nat, 15) == 4834414704697335338);
    assert(exp_tail(LN2 as nat, 14) == 4851040370014423516);
    assert(exp_tail(LN2 as nat, 13) == 4870338707293385713);
    assert(exp_tail(LN2 as nat, 12) == 4893007813705086158);
    assert(exp_tail(LN2 as nat, 11) == 4920010979384429958);
    assert(exp_tail(LN2 as nat, 10) == 4952715192295817187);
    assert(exp_tail(LN2 as nat, 9) == 4993126081944749353);
    assert(exp_tail(LN2 as nat, 8) == 5044307426662429086);
    assert(exp_tail(LN2 as nat, 7) == 5111178514237195877);
    assert(exp_tail(LN2 as nat, 6) == 5202152514507735005);
    assert(exp_tail(LN2 as nat, 5) == 5332857488082161205);
    assert(exp_tail(LN2 as nat, 4) == 5535799801475423449);
    assert(exp_tail(LN2 as nat, 3) == 5890727359939719482);
    assert(exp_tail(LN2 as nat, 2) == 6653256548922161244);
    assert(exp_tail(LN2 as nat, 1) == 9223372036854775805);
    assert forall|k: nat| #[trigger] exp_tail(LN2 as nat, k) <= 2 * ONE by {
        if k == 0 || k > SERIES_TERMS {
        } else {
            assert(1 <= k <= 20);
        }
    }
}

/// For arguments up to `LN2`, no tail exceeds 2.0.
pub proof fn lemma_exp_tail_at_most_two(y: nat, k: nat)
    requires
        y <= LN2,
    ensures
        exp_tail(y, k) <= 2 * ONE,
{
    lemma_exp_tail_monotone(y, LN2 as nat, k);
    lemma_exp_tail_at_ln2();
}

/// The series argument `f * ln 2` of a fraction stays below `LN2`, and grows
/// with the fraction.
pub proof fn lemma_series_argument(f1: nat, f2: nat)
    requires
        f1 <= f2 < ONE,
    ensures
        f1 * (LN2 as nat) / (ONE as nat) <= f2 * (LN2 as nat) / (ONE as nat) <= LN2,
{
    assert(0 <= f1 * LN2 <= f2 * LN2 <= ONE * LN2) by (nonlinear_arith)
        requires
            f1 <= f2 < ONE,
    ;
    vstd::arithmetic::div_mod::lemma_div_is_ordered((f1 * LN2) as int, (f2 * LN2) as int, ONE as int);
    vstd::arithmetic::div_mod::lemma_div_is_ordered((f2 * LN2) as int, (ONE * LN2) as int, ONE as int);
    assert((ONE * LN2) / (ONE as int) == LN2);
}

/// `pow2_mantissa` lies between 1.0 and 2.0 and never decreases.
pub proof fn lemma_pow2_mantissa(f1: nat, f2: nat)
    requires
        f1 <= f2 < ONE,
    ensures
        ONE <= pow2_mantissa(f1) <= pow2_mantissa(f2) <= 2 * ONE,
{
    lemma_series_argument(f1, f2);
    let y1 = f1 * (LN2 as nat) / (ONE as nat);
    let y2 = f2 * (LN2 as nat) / (ONE as nat);
    lemma_exp_tail_at_least_one(y1, 1);
    lemma_exp_tail_monotone(y1, y2, 1);
    lemma_exp_tail_at_most_two(y2, 1);
}

/// Computes `pow2_mantissa(f)`.
pub fn pow2_mantissa_exec(f: u64) -> (m: u64)
    requires
        f < ONE,
    ensures
        m == pow2_mantissa(f as nat),
        ONE <= m <= 2 * ONE,
{
    proof {
        lemma_series_argument(f as nat, f as nat);
        assert(f * LN2 <= ONE * LN2) by (nonlinear_arith)
            requires
                f < ONE,
        ;
    }
    let y: u128 = (f as u128) * LN2 / ONE;
    let mut r: u128 = ONE;
    let mut k: u64 = SERIES_TERMS;
    while k > 0
        invariant
            k <= SERIES_TERMS,
            y <= LN2,
            r == exp_tail(y as nat, (k + 1) as nat),
        decreases k,
    {
        proof {
            lemma_exp_tail_at_most_two(y as nat, (k + 1) as nat);
            lemma_exp_tail_at_most_two(y as nat, k as nat);
            assert(0 <= y * r <= LN2 * (2 * ONE)) by (nonlinear_arith)
                requires
                    y <= LN2,
                    r <= 2 * ONE,
            ;
        }
        r = ONE + (y * r / ONE) / (k as u128);
        k = k - 1;
    }
    proof {
        lemma_pow2_mantissa(f as nat, f as nat);
    }
    r as u64
}

} // verus!
