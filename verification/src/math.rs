//! Integer helpers shared by the fee, split and voting arithmetic.
use vstd::prelude::*;
use vstd::arithmetic::div_mod::{
    lemma_div_is_ordered, lemma_div_multiples_vanish, lemma_fundamental_div_mod,
    lemma_mod_bound,
};

verus! {

/// Whether `x` is representable as an `i128`.
pub open spec fn in_i128(x: int) -> bool {
    i128::MIN <= x <= i128::MAX
}

/// Division rounding toward zero, as `i128::checked_div` computes it.
pub open spec fn trunc_div(x: int, d: int) -> int {
    if x == 0 {
        0
    } else if x > 0 && d > 0 {
        x / d
    } else if x < 0 && d < 0 {
        (x * -1) / (d * -1)
    } else if x < 0 {
        ((x * -1) / d) * -1
    } else {
        (x / (d * -1)) * -1
    }
}

/// `floor(x / d) + floor(y / d) <= floor((x + y) / d)` for a positive `d`.
pub proof fn lemma_floor_sum(x: int, y: int, d: int)
    requires
        d > 0,
    ensures
        x / d + y / d <= (x + y) / d,
{
    lemma_fundamental_div_mod(x, d);
    lemma_fundamental_div_mod(y, d);
    lemma_mod_bound(x, d);
    lemma_mod_bound(y, d);
    let q = x / d + y / d;
    let qx = x / d;
    let qy = y / d;
    assert(d * q == d * qx + d * qy) by (nonlinear_arith)
        requires
            q == qx + qy,
    ;
    assert(d * q <= x + y);
    lemma_div_is_ordered(d * q, x + y, d);
    lemma_div_multiples_vanish(q, d);
}

/// For a non-negative `t` and a positive `d`, `0 <= (t * b) / d <= t` when
/// `0 <= b <= d`.
pub proof fn lemma_share_bounds(t: int, b: int, d: int)
    requires
        t >= 0,
        0 <= b <= d,
        d > 0,
    ensures
        0 <= (t * b) / d <= t,
{
    assert(0 <= t * b <= t * d) by (nonlinear_arith)
        requires
            t >= 0,
            0 <= b <= d,
    ;
    lemma_div_is_ordered(0, t * b, d);
    lemma_div_is_ordered(t * b, t * d, d);
    assert(t * d == d * t) by (nonlinear_arith);
    lemma_div_multiples_vanish(t, d);
}

} // verus!
