use crate::config::FEE_BASIS_POINT_DENOMINATOR;
use crate::errors::CurveError;
use crate::math::{ceil_div, fee_amount, lemma_ceil_div_gt, lemma_ceil_div_le, lemma_ceil_div_value};
use vstd::arithmetic::div_mod::{lemma_fundamental_div_mod, lemma_mod_bound};
use vstd::prelude::*;

verus! {

/// Per-asset mutable state of one bonding curve. Virtual reserves price the
/// trades; actual lamport reserves track real collected funds and gate
/// completion. `is_completed` only ever moves from false to true.
#[derive(Clone, Copy, Debug, PartialEq, Eq, Structural)]
pub struct BondingCurve {
    pub virtual_token_reserves: u64,
    pub virtual_lamport_reserves: u64,
    pub actual_lamport_reserves: u64,
    pub is_completed: bool,
}

/// Tokens paid out for `lamports_in_after_fee` lamports entering reserves of
/// `x` tokens and `y` lamports: the exact constant-product value
/// `x - x*y/(y + in)`, with the reserve the curve keeps rounded up, so the
/// curve never pays out more than the real-valued formula yields.
pub open spec fn buy_tokens_out(x: int, y: int, lamports_in_after_fee: int) -> int {
    x - ceil_div(x * y, y + lamports_in_after_fee)
}

/// Lamports paid out for `tokens_in` tokens entering reserves of `x` tokens
/// and `y` lamports, rounded in the curve's favor in the same way.
pub open spec fn sell_lamports_out(x: int, y: int, tokens_in: int) -> int {
    y - ceil_div(x * y, x + tokens_in)
}

/// What pricing returns, as mathematical integers: `Ok((amount_out, fee))`
/// or the error pricing fails with. Buys charge the fee on the lamport
/// input; sells charge it on the lamport output. That is the one fee
/// convention of this library: the fee is always taken on the lamport side
/// of the trade.
pub open spec fn spec_quote(
    curve: BondingCurve,
    amount_in: int,
    is_buy: bool,
    fee_basis_points: int,
) -> Result<(int, int), CurveError> {
    let x = curve.virtual_token_reserves as int;
    let y = curve.virtual_lamport_reserves as int;
    if x == 0 || y == 0 {
        Err(CurveError::ZeroReserves)
    } else if is_buy {
        let fee = fee_amount(amount_in, fee_basis_points);
        if fee > amount_in {
            Err(CurveError::OverflowOrUnderflowOccurred)
        } else {
            Ok((buy_tokens_out(x, y, amount_in - fee), fee))
        }
    } else {
        let out = sell_lamports_out(x, y, amount_in);
        let fee = fee_amount(out, fee_basis_points);
        if fee > out {
            Err(CurveError::OverflowOrUnderflowOccurred)
        } else {
            Ok((out, fee))
        }
    }
}

/// The executable pricing result agrees with the mathematical one.
pub open spec fn quote_matches(
    r: Result<(u64, u64), CurveError>,
    s: Result<(int, int), CurveError>,
) -> bool {
    match (r, s) {
        (Ok((out, fee)), Ok((s_out, s_fee))) => out == s_out && fee == s_fee,
        (Err(e), Err(s_e)) => e == s_e,
        _ => false,
    }
}

/// How a committed buy moves the reserves: the token reserve drops by the
/// gross output, both lamport reserves grow by the input net of fee, and the
/// completion flag is set exactly when the actual lamport reserves reach the
/// threshold (and never cleared).
pub open spec fn buy_transition(
    pre: BondingCurve,
    post: BondingCurve,
    amount_in: int,
    fee: int,
    tokens_out: int,
    threshold: int,
) -> bool {
    &&& post.virtual_token_reserves == pre.virtual_token_reserves - tokens_out
    &&& post.virtual_lamport_reserves == pre.virtual_lamport_reserves + (amount_in - fee)
    &&& post.actual_lamport_reserves == pre.actual_lamport_reserves + (amount_in - fee)
    &&& post.is_completed == (pre.is_completed || pre.actual_lamport_reserves + (amount_in - fee)
        >= threshold)
}

/// How a committed sell moves the reserves: the token reserve grows by the
/// gross input, the virtual lamport reserve drops by the gross output plus
/// the fee, the actual reserve drops by the gross output alone, and the
/// completion flag is untouched.
pub open spec fn sell_transition(
    pre: BondingCurve,
    post: BondingCurve,
    amount_in: int,
    fee: int,
    lamports_out: int,
) -> bool {
    &&& post.virtual_token_reserves == pre.virtual_token_reserves + amount_in
    &&& post.virtual_lamport_reserves == pre.virtual_lamport_reserves - lamports_out - fee
    &&& post.actual_lamport_reserves == pre.actual_lamport_reserves - lamports_out
    &&& post.is_completed == pre.is_completed
}

/// A buy against positive reserves pays out at least zero and strictly less
/// than the whole token reserve.
pub proof fn lemma_buy_tokens_out_bounds(x: int, y: int, lamports_in_after_fee: int)
    requires
        0 < x,
        0 < y,
        0 <= lamports_in_after_fee,
    ensures
        0 <= buy_tokens_out(x, y, lamports_in_after_fee) < x,
{
    let k = x * y;
    let denom = y + lamports_in_after_fee;
    assert(0 < k && k <= x * denom) by (nonlinear_arith)
        requires
            0 < x,
            0 < y,
            k == x * y,
            y <= denom,
    ;
    lemma_ceil_div_le(k, denom, x);
    lemma_ceil_div_gt(k, denom, 0);
}

/// A sell against positive reserves pays out at least zero and strictly less
/// than the whole lamport reserve.
pub proof fn lemma_sell_lamports_out_bounds(x: int, y: int, tokens_in: int)
    requires
        0 < x,
        0 < y,
        0 <= tokens_in,
    ensures
        0 <= sell_lamports_out(x, y, tokens_in) < y,
{
    let k = x * y;
    let denom = x + tokens_in;
    assert(0 < k && k <= y * denom) by (nonlinear_arith)
        requires
            0 < x,
            0 < y,
            k == x * y,
            x <= denom,
    ;
    lemma_ceil_div_le(k, denom, y);
    lemma_ceil_div_gt(k, denom, 0);
}

/// Executable ceiling division. The carry cannot overflow: a nonzero
/// remainder means the divisor is at least two, so the quotient is at most
/// half the dividend.
fn ceil_div_u128(a: u128, b: u128) -> (r: u128)
    requires
        b > 0,
    ensures
        r as int == ceil_div(a as int, b as int),
{
    let q = a / b;
    let rem = a % b;
    proof {
        lemma_ceil_div_value(a as int, b as int);
        lemma_fundamental_div_mod(a as int, b as int);
        lemma_mod_bound(a as int, b as int);
    }
    if rem == 0 {
        q
    } else {
        proof {
            assert(q < u128::MAX) by (nonlinear_arith)
                requires
                    a as int == b as int * q as int + rem as int,
                    1 <= rem as int,
                    2 <= b as int,
                    0 <= q as int,
                    a <= u128::MAX,
            ;
        }
        q + 1
    }
}

impl BondingCurve {
    /// Overwrites the three reserve fields in one step, leaving the
    /// completion flag alone.
    pub fn update_reserves(
        &mut self,
        virtual_lamport_reserves: u64,
        virtual_token_reserves: u64,
        actual_lamport_reserves: u64,
    )
        ensures
            final(self).virtual_lamport_reserves == virtual_lamport_reserves,
            final(self).virtual_token_reserves == virtual_token_reserves,
            final(self).actual_lamport_reserves == actual_lamport_reserves,
            final(self).is_completed == old(self).is_completed,
    {
        self.virtual_lamport_reserves = virtual_lamport_reserves;
        self.virtual_token_reserves = virtual_token_reserves;
        self.actual_lamport_reserves = actual_lamport_reserves;
    }

    /// Prices a trade against the current virtual reserves without touching
    /// them: returns the gross amount paid out and the fee in lamports.
    ///
    /// With `amount_in == 0` the quote is `Ok((0, 0))`: no division is
    /// reached that could misbehave. A zero reserve on either axis fails
    /// fast before any division. A fee rate of 100% or more can only
    /// surface as the arithmetic error.
    pub fn calc_amount_out(&self, amount_in: u64, is_buy: bool, fee_basis_points: u64) -> (r:
        Result<(u64, u64), CurveError>)
        ensures
            quote_matches(
                r,
                spec_quote(*self, amount_in as int, is_buy, fee_basis_points as int),
            ),
    {
        let x = self.virtual_token_reserves;
        let y = self.virtual_lamport_reserves;
        if x == 0 || y == 0 {
            return Err(CurveError::ZeroReserves);
        }
        proof {
            assert((x as int) * (y as int) <= u128::MAX) by (nonlinear_arith)
                requires
                    x as int <= 0xffff_ffff_ffff_ffff,
                    y as int <= 0xffff_ffff_ffff_ffff,
                    0 <= x as int,
                    0 <= y as int,
            ;
        }
        let k: u128 = (x as u128) * (y as u128);
        if is_buy {
            proof {
                assert((amount_in as int) * (fee_basis_points as int) <= u128::MAX)
                    by (nonlinear_arith)
                    requires
                        amount_in as int <= 0xffff_ffff_ffff_ffff,
                        fee_basis_points as int <= 0xffff_ffff_ffff_ffff,
                        0 <= amount_in as int,
                        0 <= fee_basis_points as int,
                ;
            }
            let fee_wide: u128 = (amount_in as u128) * (fee_basis_points as u128)
                / (FEE_BASIS_POINT_DENOMINATOR as u128);
            if fee_wide > amount_in as u128 {
                return Err(CurveError::OverflowOrUnderflowOccurred);
            }
            let fee: u64 = fee_wide as u64;
            let after_fee: u64 = amount_in - fee;
            let denom: u128 = (y as u128) + (after_fee as u128);
            let q: u128 = ceil_div_u128(k, denom);
            proof {
                assert(k as int <= (x as int) * (denom as int)) by (nonlinear_arith)
                    requires
                        k as int == (x as int) * (y as int),
                        y as int <= denom as int,
                        0 <= x as int,
                ;
                lemma_ceil_div_le(k as int, denom as int, x as int);
            }
            let amount_out: u64 = x - (q as u64);
            Ok((amount_out, fee))
        } else {
            let denom: u128 = (x as u128) + (amount_in as u128);
            let q: u128 = ceil_div_u128(k, denom);
            proof {
                assert(k as int <= (y as int) * (denom as int)) by (nonlinear_arith)
                    requires
                        k as int == (x as int) * (y as int),
                        x as int <= denom as int,
                        0 <= y as int,
                ;
                lemma_ceil_div_le(k as int, denom as int, y as int);
            }
            let amount_out: u64 = y - (q as u64);
            proof {
                assert((amount_out as int) * (fee_basis_points as int) <= u128::MAX)
                    by (nonlinear_arith)
                    requires
                        amount_out as int <= 0xffff_ffff_ffff_ffff,
                        fee_basis_points as int <= 0xffff_ffff_ffff_ffff,
                        0 <= amount_out as int,
                        0 <= fee_basis_points as int,
                ;
            }
            let fee_wide: u128 = (amount_out as u128) * (fee_basis_points as u128)
                / (FEE_BASIS_POINT_DENOMINATOR as u128);
            if fee_wide > amount_out as u128 {
                return Err(CurveError::OverflowOrUnderflowOccurred);
            }
            Ok((amount_out, fee_wide as u64))
        }
    }

    /// Executes a buy: prices the trade, then commits the new reserves in one
    /// step, so a failure never leaves them partially updated. Returns
    /// whether this buy brought the actual lamport reserves up to the
    /// completion threshold; crossing it sets `is_completed`, which never
    /// reverts. Checked reserve arithmetic that overflows aborts with the
    /// arithmetic error and no state change.
    pub fn buy(
        &mut self,
        lamports_needed_to_complete_curve: u64,
        amount_in: u64,
        fee_basis_points: u64,
    ) -> (r: Result<bool, CurveError>)
        ensures
            ({
                let y = old(self).virtual_lamport_reserves as int;
                let act = old(self).actual_lamport_reserves as int;
                match spec_quote(*old(self), amount_in as int, true, fee_basis_points as int) {
                    Err(e) => r == Err::<bool, CurveError>(e) && *final(self) == *old(self),
                    Ok((out, fee)) => {
                        let after_fee = amount_in - fee;
                        if y + after_fee > u64::MAX || act + after_fee > u64::MAX {
                            &&& r == Err::<bool, CurveError>(
                                CurveError::OverflowOrUnderflowOccurred,
                            )
                            &&& *final(self) == *old(self)
                        } else {
                            &&& r == Ok::<bool, CurveError>(
                                act + after_fee >= lamports_needed_to_complete_curve,
                            )
                            &&& buy_transition(
                                *old(self),
                                *final(self),
                                amount_in as int,
                                fee,
                                out,
                                lamports_needed_to_complete_curve as int,
                            )
                        }
                    },
                }
            }),
            old(self).is_completed ==> final(self).is_completed,
    {
        let (amount_out, fee_lamports) = match self.calc_amount_out(
            amount_in,
            true,
            fee_basis_points,
        ) {
            Ok(quoted) => quoted,
            Err(e) => {
                return Err(e);
            },
        };
        let amount_in_after_fees = amount_in - fee_lamports;

        proof {
            lemma_buy_tokens_out_bounds(
                old(self).virtual_token_reserves as int,
                old(self).virtual_lamport_reserves as int,
                amount_in_after_fees as int,
            );
        }
        let new_token_reserves = self.virtual_token_reserves - amount_out;

        let new_virtual_sol_reserves = match self.virtual_lamport_reserves.checked_add(
            amount_in_after_fees,
        ) {
            Some(v) => v,
            None => {
                return Err(CurveError::OverflowOrUnderflowOccurred);
            },
        };
        let new_actual_sol_reserves = match self.actual_lamport_reserves.checked_add(
            amount_in_after_fees,
        ) {
            Some(v) => v,
            None => {
                return Err(CurveError::OverflowOrUnderflowOccurred);
            },
        };

        self.update_reserves(new_virtual_sol_reserves, new_token_reserves, new_actual_sol_reserves);

        if new_actual_sol_reserves >= lamports_needed_to_complete_curve {
            self.is_completed = true;
            return Ok(true);
        }
        Ok(false)
    }

    /// Executes a sell: prices the trade (fee on the lamport output), then
    /// commits the new reserves in one step. The virtual lamport reserve
    /// drops by the gross output plus the fee; the actual reserve drops by
    /// the gross output alone, since the fee is paid out of the curve's
    /// collected funds. Any checked arithmetic failure aborts with the
    /// arithmetic error and no state change. A sell never completes a curve
    /// and never clears the completion flag.
    pub fn sell(&mut self, amount_in: u64, fee_basis_points: u64) -> (r: Result<
        (),
        CurveError,
    >)
        ensures
            ({
                let x = old(self).virtual_token_reserves as int;
                let y = old(self).virtual_lamport_reserves as int;
                let act = old(self).actual_lamport_reserves as int;
                match spec_quote(*old(self), amount_in as int, false, fee_basis_points as int) {
                    Err(e) => r == Err::<(), CurveError>(e) && *final(self) == *old(self),
                    Ok((out, fee)) => {
                        if x + amount_in > u64::MAX || out + fee > y || out > act {
                            &&& r == Err::<(), CurveError>(
                                CurveError::OverflowOrUnderflowOccurred,
                            )
                            &&& *final(self) == *old(self)
                        } else {
                            &&& r == Ok::<(), CurveError>(())
                            &&& sell_transition(*old(self), *final(self), amount_in as int, fee, out)
                        }
                    },
                }
            }),
            old(self).is_completed ==> final(self).is_completed,
    {
        let (amount_out, fee_lamports) = match self.calc_amount_out(
            amount_in,
            false,
            fee_basis_points,
        ) {
            Ok(quoted) => quoted,
            Err(e) => {
                return Err(e);
            },
        };

        let new_virtual_token_reserves = match self.virtual_token_reserves.checked_add(amount_in) {
            Some(v) => v,
            None => {
                return Err(CurveError::OverflowOrUnderflowOccurred);
            },
        };
        let gross_payout = match amount_out.checked_add(fee_lamports) {
            Some(v) => v,
            None => {
                return Err(CurveError::OverflowOrUnderflowOccurred);
            },
        };
        let new_virtual_lamport_reserves = match self.virtual_lamport_reserves.checked_sub(
            gross_payout,
        ) {
            Some(v) => v,
            None => {
                return Err(CurveError::OverflowOrUnderflowOccurred);
            },
        };
        let new_actual_lamport_reserves = match self.actual_lamport_reserves.checked_sub(
            amount_out,
        ) {
            Some(v) => v,
            None => {
                return Err(CurveError::OverflowOrUnderflowOccurred);
            },
        };

        self.update_reserves(
            new_virtual_lamport_reserves,
            new_virtual_token_reserves,
            new_actual_lamport_reserves,
        );
        Ok(())
    }
}

} // verus!
