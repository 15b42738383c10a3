//! Division by a power of two, rounded up.
use vstd::arithmetic::div_mod::*;
use vstd::arithmetic::power2::*;
use vstd::prelude::*;

verus! {

/// `x / p`, rounded up.
pub open spec fn div_ceil(x: nat, p: nat) -> nat {
    ((x + p - 1) / (p as int)) as nat
}

/// `x / 2^d`, rounded up.
pub open spec fn scale_down(x: nat, d: nat) -> nat {
    div_ceil(x, pow2(d))
}

/// `div_ceil(x, p)` is the least `c` with `x <= p * c`.
pub proof fn lemma_div_ceil(x: nat, p: nat)
    requires
        p > 0,
    ensures
        x <= p * div_ceil(x, p),
        p * div_ceil(x, p) < x + p,
        div_ceil(x, p) <= x,
        x >= 1 ==> div_ceil(x, p) >= 1,
{
    let n = (x + p - 1) as int;
    lemma_fundamental_div_mod(n, p as int);
    lemma_mod_bound(n, p as int);
    lemma_div_pos_is_pos(n, p as int);
    let c = n / (p as int);
    assert(c <= x) by (nonlinear_arith)
        requires
            p * c <= x + p - 1,
            p >= 1,
            c >= 0,
            x >= 0,
    ;
    if x >= 1 {
        assert(c >= 1) by (nonlinear_arith)
            requires
                p * c >= x,
                x >= 1,
                p >= 1,
        ;
    }
}

/// Any `c` with `x <= p * c` is at least `div_ceil(x, p)`.
pub proof fn lemma_div_ceil_least(x: nat, p: nat, c: nat)
    requires
        p > 0,
        x <= p * c,
    ensures
        div_ceil(x, p) <= c,
{
    lemma_div_ceil(x, p);
    let q = div_ceil(x, p);
    assert(q <= c) by (nonlinear_arith)
        requires
            p * q < x + p,
            x <= p * c,
            p > 0,
    ;
}

pub proof fn lemma_div_ceil_monotone(x1: nat, x2: nat, p: nat)
    requires
        p > 0,
        x1 <= x2,
    ensures
        div_ceil(x1, p) <= div_ceil(x2, p),
{
    lemma_div_is_ordered((x1 + p - 1) as int, (x2 + p - 1) as int, p as int);
}

/// Rounding up in two steps is rounding up once.
pub proof fn lemma_div_ceil_twice(x: nat, p: nat, q: nat)
    requires
        p > 0,
        q > 0,
    ensures
        p * q > 0,
        div_ceil(div_ceil(x, p), q) == div_ceil(x, p * q),
{
    assert(p * q > 0) by (nonlinear_arith)
        requires
            p > 0,
            q > 0,
    ;
    let inner = div_ceil(x, p);
    let both = div_ceil(x, p * q);
    lemma_div_ceil(x, p);
    lemma_div_ceil(inner, q);
    lemma_div_ceil(x, p * q);
    let outer = div_ceil(inner, q);
    // outer is an upper bound for x / (p * q) ...
    assert(x <= (p * q) * outer) by (nonlinear_arith)
        requires
            x <= p * inner,
            inner <= q * outer,
            p > 0,
    ;
    lemma_div_ceil_least(x, p * q, outer);
    // ... and no smaller one exists.
    assert(x <= p * (q * both)) by (nonlinear_arith)
        requires
            x <= (p * q) * both,
    ;
    lemma_div_ceil_least(x, p, q * both);
    lemma_div_ceil_least(inner, q, both);
}

pub proof fn lemma_scale_down_monotone(x1: nat, x2: nat, d: nat)
    requires
        x1 <= x2,
    ensures
        scale_down(x1, d) <= scale_down(x2, d),
{
    lemma_pow2_pos(d);
    lemma_div_ceil_monotone(x1, x2, pow2(d));
}

pub proof fn lemma_scale_down_bounds(x: nat, d: nat)
    ensures
        scale_down(x, d) <= x,
        x <= pow2(d) * scale_down(x, d),
        x >= 1 ==> scale_down(x, d) >= 1,
{
    lemma_pow2_pos(d);
    lemma_div_ceil(x, pow2(d));
}

pub proof fn lemma_scale_down_zero(x: nat)
    ensures
        scale_down(x, 0) == x,
{
    lemma2_to64();
}

/// Scaling down by `d1` and then by `d2` is scaling down by `d1 + d2`.
pub proof fn lemma_scale_down_twice(x: nat, d1: nat, d2: nat)
    ensures
        scale_down(scale_down(x, d1), d2) == scale_down(x, d1 + d2),
{
    lemma_pow2_pos(d1);
    lemma_pow2_pos(d2);
    lemma_pow2_adds(d1, d2);
    lemma_div_ceil_twice(x, pow2(d1), pow2(d2));
}

/// A positive number no larger than `2^d` scales down to exactly 1.
pub proof fn lemma_scale_down_small(x: nat, d: nat)
    requires
        1 <= x <= pow2(d),
    ensures
        scale_down(x, d) == 1,
{
    lemma_pow2_pos(d);
    lemma_div_ceil(x, pow2(d));
    assert(pow2(d) * 1 == pow2(d));
    lemma_div_ceil_least(x, pow2(d), 1);
}

/// Computes `scale_down(x, d)`.
pub fn scale_down_exec(x: u64, d: u128) -> (r: u64)
    requires
        x >= 1,
    ensures
        r == scale_down(x as nat, d as nat),
        1 <= r <= x,
{
    proof {
        lemma_scale_down_bounds(x as nat, d as nat);
    }
    if d >= 64 {
        proof {
            lemma2_to64();
            lemma2_to64_rest();
            if d > 64 {
                lemma_pow2_strictly_increases(64, d as nat);
            }
            lemma_scale_down_small(x as nat, d as nat);
        }
        1
    } else {
        let shift: u64 = d as u64;
        proof {
            lemma2_to64();
            lemma2_to64_rest();
            if shift < 63 {
                lemma_pow2_strictly_increases(shift as nat, 63);
            }
            vstd::bits::lemma_u64_shl_is_mul(1, shift);
        }
        let p: u64 = 1u64 << shift;
        let n: u128 = (x as u128) + (p as u128) - 1;
        (n / (p as u128)) as u64
    }
}

} // verus!
