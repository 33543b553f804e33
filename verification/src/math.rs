use crate::config::FEE_BASIS_POINT_DENOMINATOR;
use vstd::arithmetic::div_mod::{
    lemma_div_pos_is_pos, lemma_fundamental_div_mod, lemma_fundamental_div_mod_converse,
    lemma_mod_bound,
};
use vstd::prelude::*;

verus! {

/// Ceiling division of `a` by `b`: for `b > 0` and `a >= 0`, the least `q`
/// with `q * b >= a`. The pricing engine uses it to round the reserve the
/// curve keeps up, so the curve never pays out more than the exact
/// real-valued constant-product formula yields.
pub open spec fn ceil_div(a: int, b: int) -> int {
    (a + b - 1) / b
}

/// The fee charged on `amount` at a rate of `fee_basis_points` (1 bp =
/// 0.01%), rounded down.
pub open spec fn fee_amount(amount: int, fee_basis_points: int) -> int {
    amount * fee_basis_points / (FEE_BASIS_POINT_DENOMINATOR as int)
}

/// Ceiling division is floor division, plus one on a nonzero remainder.
pub proof fn lemma_ceil_div_value(a: int, b: int)
    requires
        0 <= a,
        0 < b,
    ensures
        a % b == 0 ==> ceil_div(a, b) == a / b,
        a % b != 0 ==> ceil_div(a, b) == a / b + 1,
{
    lemma_fundamental_div_mod(a, b);
    lemma_mod_bound(a, b);
    let q = a / b;
    let r = a % b;
    if r == 0 {
        assert(a + b - 1 == q * b + (b - 1)) by (nonlinear_arith)
            requires
                a == b * q + r,
                r == 0,
        ;
        lemma_fundamental_div_mod_converse(a + b - 1, b, q, b - 1);
    } else {
        assert(a + b - 1 == (q + 1) * b + (r - 1)) by (nonlinear_arith)
            requires
                a == b * q + r,
        ;
        lemma_fundamental_div_mod_converse(a + b - 1, b, q + 1, r - 1);
    }
}

/// `ceil_div(a, b) * b` falls in `[a, a + b)`, and the quotient is
/// nonnegative.
pub proof fn lemma_ceil_div_bounds(a: int, b: int)
    requires
        0 <= a,
        0 < b,
    ensures
        0 <= ceil_div(a, b),
        a <= ceil_div(a, b) * b,
        ceil_div(a, b) * b < a + b,
{
    lemma_ceil_div_value(a, b);
    lemma_fundamental_div_mod(a, b);
    lemma_mod_bound(a, b);
    let q = a / b;
    let r = a % b;
    if r == 0 {
        assert(0 <= q && a <= q * b && q * b < a + b) by (nonlinear_arith)
            requires
                a == b * q + r,
                r == 0,
                0 < b,
                0 <= a,
        ;
    } else {
        assert(0 <= q + 1 && a <= (q + 1) * b && (q + 1) * b < a + b) by (nonlinear_arith)
            requires
                a == b * q + r,
                0 < r < b,
                0 < b,
                0 <= a,
        ;
    }
}

/// Anything at least `a / b` scaled back up bounds the ceiling quotient:
/// if `a <= c * b` then `ceil_div(a, b) <= c`.
pub proof fn lemma_ceil_div_le(a: int, b: int, c: int)
    requires
        0 <= a,
        0 < b,
        a <= c * b,
    ensures
        ceil_div(a, b) <= c,
{
    lemma_ceil_div_bounds(a, b);
    let q = ceil_div(a, b);
    assert(q <= c) by (nonlinear_arith)
        requires
            q * b < a + b,
            a <= c * b,
            0 < b,
    ;
}

/// The ceiling quotient exceeds any `c` whose scaled value stays under `a`:
/// if `c * b < a` then `c < ceil_div(a, b)`.
pub proof fn lemma_ceil_div_gt(a: int, b: int, c: int)
    requires
        0 <= a,
        0 < b,
        c * b < a,
    ensures
        c < ceil_div(a, b),
{
    lemma_ceil_div_bounds(a, b);
    let q = ceil_div(a, b);
    assert(c < q) by (nonlinear_arith)
        requires
            a <= q * b,
            c * b < a,
            0 < b,
    ;
}

/// A fee at a rate under 100% never exceeds the amount it is charged on,
/// and is strictly below it on a positive amount.
pub proof fn lemma_fee_amount_bounds(amount: int, fee_basis_points: int)
    requires
        0 <= amount,
        0 <= fee_basis_points < FEE_BASIS_POINT_DENOMINATOR,
    ensures
        0 <= fee_amount(amount, fee_basis_points) <= amount,
        0 < amount ==> fee_amount(amount, fee_basis_points) < amount,
        fee_basis_points == 0 ==> fee_amount(amount, fee_basis_points) == 0,
{
    let d = FEE_BASIS_POINT_DENOMINATOR as int;
    let p = amount * fee_basis_points;
    assert(0 <= p) by (nonlinear_arith)
        requires
            0 <= amount,
            0 <= fee_basis_points,
            p == amount * fee_basis_points,
    ;
    lemma_div_pos_is_pos(p, d);
    if amount == 0 {
        assert(p == 0) by (nonlinear_arith)
            requires
                amount == 0,
                p == amount * fee_basis_points,
        ;
        assert(p / d == 0);
    } else {
        assert(p < amount * d) by (nonlinear_arith)
            requires
                p == amount * fee_basis_points,
                fee_basis_points < d,
                0 < amount,
        ;
        lemma_fundamental_div_mod(p, d);
        lemma_mod_bound(p, d);
        assert(p / d < amount) by (nonlinear_arith)
            requires
                p == d * (p / d) + p % d,
                0 <= p % d < d,
                p < amount * d,
                0 < d,
        ;
    }
    if fee_basis_points == 0 {
        assert(p == 0) by (nonlinear_arith)
            requires
                fee_basis_points == 0,
                p == amount * fee_basis_points,
        ;
        assert(p / d == 0);
    }
}

} // verus!
