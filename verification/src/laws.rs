use crate::config::FEE_BASIS_POINT_DENOMINATOR;
use crate::curve::{
    buy_tokens_out, buy_transition, lemma_buy_tokens_out_bounds, lemma_sell_lamports_out_bounds,
    sell_lamports_out, sell_transition, BondingCurve,
};
use crate::math::{
    ceil_div, fee_amount, lemma_ceil_div_bounds, lemma_ceil_div_gt, lemma_ceil_div_value,
    lemma_fee_amount_bounds,
};
use vstd::arithmetic::div_mod::{
    lemma_fundamental_div_mod, lemma_fundamental_div_mod_converse, lemma_mod_bound,
};
use vstd::prelude::*;

verus! {

/// A committed buy with a positive token output strictly shrinks the token
/// reserve and strictly grows both lamport reserves. A buy so small that the
/// rounded token output is zero leaves the token reserve where it was; such
/// buys are outside this law.
pub proof fn lemma_buy_moves_reserves(
    pre: BondingCurve,
    post: BondingCurve,
    amount_in: int,
    fee_basis_points: int,
    threshold: int,
)
    requires
        0 < pre.virtual_token_reserves,
        0 < pre.virtual_lamport_reserves,
        0 < amount_in,
        0 <= fee_basis_points < FEE_BASIS_POINT_DENOMINATOR,
        ({
            let fee = fee_amount(amount_in, fee_basis_points);
            let tokens_out = buy_tokens_out(
                pre.virtual_token_reserves as int,
                pre.virtual_lamport_reserves as int,
                amount_in - fee,
            );
            &&& 0 < tokens_out
            &&& buy_transition(pre, post, amount_in, fee, tokens_out, threshold)
        }),
    ensures
        post.virtual_token_reserves < pre.virtual_token_reserves,
        post.virtual_lamport_reserves > pre.virtual_lamport_reserves,
        post.actual_lamport_reserves > pre.actual_lamport_reserves,
{
    lemma_fee_amount_bounds(amount_in, fee_basis_points);
}

/// A committed sell with a positive lamport output strictly grows the token
/// reserve and strictly shrinks both lamport reserves. A sell so small that
/// the rounded lamport output is zero leaves the lamport reserves where they
/// were; such sells are outside this law.
pub proof fn lemma_sell_moves_reserves(
    pre: BondingCurve,
    post: BondingCurve,
    amount_in: int,
    fee_basis_points: int,
)
    requires
        0 < pre.virtual_token_reserves,
        0 < pre.virtual_lamport_reserves,
        0 < amount_in,
        0 <= fee_basis_points < FEE_BASIS_POINT_DENOMINATOR,
        ({
            let lamports_out = sell_lamports_out(
                pre.virtual_token_reserves as int,
                pre.virtual_lamport_reserves as int,
                amount_in,
            );
            &&& 0 < lamports_out
            &&& sell_transition(
                pre,
                post,
                amount_in,
                fee_amount(lamports_out, fee_basis_points),
                lamports_out,
            )
        }),
    ensures
        post.virtual_token_reserves > pre.virtual_token_reserves,
        post.virtual_lamport_reserves < pre.virtual_lamport_reserves,
        post.actual_lamport_reserves < pre.actual_lamport_reserves,
{
    let lamports_out = sell_lamports_out(
        pre.virtual_token_reserves as int,
        pre.virtual_lamport_reserves as int,
        amount_in,
    );
    lemma_fee_amount_bounds(lamports_out, fee_basis_points);
}

/// On a buy the product of the virtual reserves never decreases: the fee is
/// taken before the input reaches the pool, and the payout rounding always
/// favors the curve, so the pool keeps at least its constant product.
pub proof fn lemma_buy_product_non_decreasing(
    pre: BondingCurve,
    post: BondingCurve,
    amount_in: int,
    fee: int,
    threshold: int,
)
    requires
        0 < pre.virtual_token_reserves,
        0 < pre.virtual_lamport_reserves,
        0 <= fee <= amount_in,
        buy_transition(
            pre,
            post,
            amount_in,
            fee,
            buy_tokens_out(
                pre.virtual_token_reserves as int,
                pre.virtual_lamport_reserves as int,
                amount_in - fee,
            ),
            threshold,
        ),
    ensures
        post.virtual_token_reserves * post.virtual_lamport_reserves
            >= pre.virtual_token_reserves * pre.virtual_lamport_reserves,
{
    let x = pre.virtual_token_reserves as int;
    let y = pre.virtual_lamport_reserves as int;
    let k = x * y;
    let d = y + (amount_in - fee);
    assert(0 < k) by (nonlinear_arith)
        requires
            0 < x,
            0 < y,
            k == x * y,
    ;
    lemma_ceil_div_bounds(k, d);
    assert(post.virtual_token_reserves as int == ceil_div(k, d));
    assert(post.virtual_lamport_reserves as int == d);
}

/// On a buy whose payout division is exact the product of the virtual
/// reserves is conserved precisely — in particular it does not increase.
/// On every other buy the truncated payout leaves the pool with strictly
/// more than its constant product, so this is the only buy input on which
/// the product does not grow.
pub proof fn lemma_buy_product_preserved_when_exact(
    pre: BondingCurve,
    post: BondingCurve,
    amount_in: int,
    fee: int,
    threshold: int,
)
    requires
        0 < pre.virtual_token_reserves,
        0 < pre.virtual_lamport_reserves,
        0 <= fee <= amount_in,
        ({
            let x = pre.virtual_token_reserves as int;
            let y = pre.virtual_lamport_reserves as int;
            &&& (x * y) % (y + (amount_in - fee)) == 0
            &&& buy_transition(
                pre,
                post,
                amount_in,
                fee,
                buy_tokens_out(x, y, amount_in - fee),
                threshold,
            )
        }),
    ensures
        post.virtual_token_reserves * post.virtual_lamport_reserves
            == pre.virtual_token_reserves * pre.virtual_lamport_reserves,
{
    let x = pre.virtual_token_reserves as int;
    let y = pre.virtual_lamport_reserves as int;
    let k = x * y;
    let d = y + (amount_in - fee);
    let c = ceil_div(k, d);
    assert(0 < k) by (nonlinear_arith)
        requires
            0 < x,
            0 < y,
            k == x * y,
    ;
    lemma_ceil_div_value(k, d);
    lemma_fundamental_div_mod(k, d);
    assert(post.virtual_token_reserves as int == c);
    assert(post.virtual_lamport_reserves as int == d);
    assert(c * d == k) by (nonlinear_arith)
        requires
            c == k / d,
            k == d * (k / d) + k % d,
            k % d == 0,
    ;
}

/// On a sell the product of the virtual reserves never increases, because
/// the fee is paid out of the pool's lamport reserve on top of the rounded
/// output. This needs the fee to be at least one lamport (or the payout
/// division to be exact): a zero fee together with rounding slack can leave
/// the pool with slightly more than its constant product.
pub proof fn lemma_sell_product_non_increasing(
    pre: BondingCurve,
    post: BondingCurve,
    amount_in: int,
    fee: int,
)
    requires
        0 < pre.virtual_token_reserves,
        0 < pre.virtual_lamport_reserves,
        0 <= amount_in,
        0 <= fee,
        ({
            let x = pre.virtual_token_reserves as int;
            let y = pre.virtual_lamport_reserves as int;
            let lamports_out = sell_lamports_out(x, y, amount_in);
            &&& (1 <= fee || (x * y) % (x + amount_in) == 0)
            &&& sell_transition(pre, post, amount_in, fee, lamports_out)
        }),
    ensures
        post.virtual_token_reserves * post.virtual_lamport_reserves
            <= pre.virtual_token_reserves * pre.virtual_lamport_reserves,
{
    let x = pre.virtual_token_reserves as int;
    let y = pre.virtual_lamport_reserves as int;
    let k = x * y;
    let d = x + amount_in;
    let c = ceil_div(k, d);
    assert(0 < k) by (nonlinear_arith)
        requires
            0 < x,
            0 < y,
            k == x * y,
    ;
    lemma_ceil_div_bounds(k, d);
    assert(post.virtual_token_reserves as int == d);
    assert(post.virtual_lamport_reserves as int == c - fee);
    if 1 <= fee {
        assert((c - fee) * d <= k) by (nonlinear_arith)
            requires
                c * d < k + d,
                1 <= fee,
                0 < d,
        ;
    } else {
        lemma_ceil_div_value(k, d);
        lemma_fundamental_div_mod(k, d);
        assert((c - fee) * d <= k) by (nonlinear_arith)
            requires
                fee == 0,
                c == k / d,
                k == d * (k / d) + k % d,
                k % d == 0,
        ;
    }
    assert((post.virtual_lamport_reserves as int) * d <= k) by (nonlinear_arith)
        requires
            post.virtual_lamport_reserves as int == c - fee,
            (c - fee) * d <= k,
    ;
}

/// Round trip: buying tokens and immediately selling the very same tokens
/// back returns strictly fewer lamports than were paid in, for positive fee
/// rates. The one neutral case — both realized fees round to zero lamports
/// and the payout division is exact, so the trip returns exactly the input —
/// is excluded by the last premise.
pub proof fn lemma_round_trip_loses(
    x: int,
    y: int,
    amount_in: int,
    buy_fee_basis_points: int,
    sell_fee_basis_points: int,
)
    requires
        0 < x,
        0 < y,
        0 < amount_in,
        0 < buy_fee_basis_points < FEE_BASIS_POINT_DENOMINATOR,
        0 < sell_fee_basis_points < FEE_BASIS_POINT_DENOMINATOR,
        1 <= fee_amount(amount_in, buy_fee_basis_points) || (x * y) % (y + amount_in) != 0 || 1
            <= fee_amount(amount_in, sell_fee_basis_points),
    ensures
        ({
            let buy_fee = fee_amount(amount_in, buy_fee_basis_points);
            let lamports_in = amount_in - buy_fee;
            let tokens_bought = buy_tokens_out(x, y, lamports_in);
            let lamports_back = sell_lamports_out(
                x - tokens_bought,
                y + lamports_in,
                tokens_bought,
            );
            lamports_back - fee_amount(lamports_back, sell_fee_basis_points) < amount_in
        }),
{
    let buy_fee = fee_amount(amount_in, buy_fee_basis_points);
    lemma_fee_amount_bounds(amount_in, buy_fee_basis_points);
    let a = amount_in - buy_fee;
    let k = x * y;
    let d = y + a;
    let c = ceil_div(k, d);
    assert(0 < k) by (nonlinear_arith)
        requires
            0 < x,
            0 < y,
            k == x * y,
    ;
    lemma_ceil_div_bounds(k, d);
    lemma_ceil_div_gt(k, d, 0);
    let tokens_bought = buy_tokens_out(x, y, a);
    lemma_buy_tokens_out_bounds(x, y, a);
    // After the buy the token reserve is exactly the rounded-up kept amount.
    assert(x - tokens_bought == c);
    // Selling the same tokens brings the token reserve back to x.
    let k2 = c * d;
    let lamports_back = sell_lamports_out(c, d, tokens_bought);
    assert(c + tokens_bought == x);
    assert(lamports_back == d - ceil_div(k2, x));

    // The kept product c * d is at least k, so the second division keeps at
    // least y lamports in the pool and the trip returns at most `a`.
    assert(0 <= k2) by (nonlinear_arith)
        requires
            0 <= c,
            0 < d,
            k2 == c * d,
    ;
    assert((y - 1) * x < k2) by (nonlinear_arith)
        requires
            k <= k2,
            k == x * y,
            0 < x,
    ;
    lemma_ceil_div_gt(k2, x, y - 1);
    assert(lamports_back <= a);

    if buy_fee == 0 && k % d != 0 {
        // The division was inexact, so the kept product strictly exceeds
        // k and the trip returns strictly less than `a == amount_in`.
        lemma_ceil_div_value(k, d);
        lemma_fundamental_div_mod(k, d);
        lemma_mod_bound(k, d);
        assert(y * x < k2) by (nonlinear_arith)
            requires
                c == k / d + 1,
                k == d * (k / d) + k % d,
                0 < k % d < d,
                k == x * y,
                k2 == c * d,
        ;
        lemma_ceil_div_gt(k2, x, y);
        assert(lamports_back < a);
    } else if buy_fee == 0 {
        // The division was exact, so the trip returns exactly `a`, which is
        // the whole input; by the premise the realized sell fee is then at
        // least one lamport and bites.
        lemma_ceil_div_value(k, d);
        lemma_fundamental_div_mod(k, d);
        assert(k2 == k) by (nonlinear_arith)
            requires
                c == k / d,
                k == d * (k / d) + k % d,
                k % d == 0,
                k2 == c * d,
        ;
        assert(x * y == y * x) by (nonlinear_arith);
        lemma_fundamental_div_mod_converse(k2, x, y, 0);
        lemma_ceil_div_value(k2, x);
        assert(ceil_div(k2, x) == y);
        assert(lamports_back == a);
    }

    // Any positive buy fee already makes `a` strictly less than the input;
    // the sell fee can only reduce the return further.
    lemma_sell_lamports_out_bounds(c, d, tokens_bought);
    lemma_fee_amount_bounds(lamports_back, sell_fee_basis_points);
}

/// Completion happens exactly on the buy that lifts the actual lamport
/// reserves to the threshold: a curve that was not completed before a buy is
/// completed after it if and only if the new actual reserves reach the
/// threshold.
pub proof fn lemma_completion_exactly_at_threshold(
    pre: BondingCurve,
    post: BondingCurve,
    amount_in: int,
    fee: int,
    tokens_out: int,
    threshold: int,
)
    requires
        !pre.is_completed,
        buy_transition(pre, post, amount_in, fee, tokens_out, threshold),
    ensures
        post.is_completed <==> post.actual_lamport_reserves >= threshold,
{
}

} // verus!
