use crate::account::AccountId;
use crate::config::Config;
use crate::curve::{buy_transition, sell_transition, spec_quote, BondingCurve};
use crate::errors::CurveError;
use crate::events::TradeEvent;
use vstd::prelude::*;

verus! {

/// Everything the host needs to settle one executed swap. The library moves
/// no real funds; the host performs the legs below and, if any transfer
/// fails, discards the mutated curve instead of committing it.
#[derive(Clone, Copy, Debug, PartialEq, Eq, Structural)]
pub struct SwapReceipt {
    /// The trade record for the host's event sink.
    pub event: TradeEvent,
    /// Lamports owed to the configured fee recipient.
    pub fee_lamports: u64,
    /// For a buy: lamports entering the curve's custody (the input net of
    /// fee). For a sell: lamports leaving the curve's custody to the trader
    /// (the gross output net of fee); the fee leg also leaves the curve.
    pub net_lamports: u64,
    /// True when this swap brought the curve to its completion threshold.
    pub completed: bool,
}

/// The fee rate a trade direction is charged at.
pub open spec fn direction_fee_basis_points(config: Config, is_buy: bool) -> int {
    if is_buy {
        config.buy_fee_basis_points as int
    } else {
        config.sell_fee_basis_points as int
    }
}

/// The full contract of one swap attempt: how the result and the post-state
/// `post` relate to the pre-state `pre`. The checks apply in a fixed order:
/// the fee account must be the configured recipient, the curve must not be
/// completed, the amount must be nonzero, pricing must succeed, and the gross
/// output must reach `min_amount_out`; only then do the reserves move.
pub open spec fn swap_outcome(
    pre: BondingCurve,
    post: BondingCurve,
    config: Config,
    trader: AccountId,
    asset: AccountId,
    fee_recipient: AccountId,
    amount_in: u64,
    is_buy: bool,
    min_amount_out: u64,
    r: Result<SwapReceipt, CurveError>,
) -> bool {
    let rate = direction_fee_basis_points(config, is_buy);
    let threshold = config.lamports_needed_to_complete_curve as int;
    if fee_recipient != config.fee_recipient {
        r == Err::<SwapReceipt, CurveError>(CurveError::IncorrectFeeRecipient)
    } else if pre.is_completed {
        r == Err::<SwapReceipt, CurveError>(CurveError::CurveAlreadyCompleted)
    } else if amount_in == 0 {
        r == Err::<SwapReceipt, CurveError>(CurveError::ZeroAmount)
    } else {
        match spec_quote(pre, amount_in as int, is_buy, rate) {
            Err(e) => r == Err::<SwapReceipt, CurveError>(e),
            Ok((out, fee)) => {
                if out < min_amount_out {
                    r == Err::<SwapReceipt, CurveError>(CurveError::SlippageExceeded)
                } else if is_buy && (pre.virtual_lamport_reserves + (amount_in - fee) > u64::MAX
                    || pre.actual_lamport_reserves + (amount_in - fee) > u64::MAX) {
                    r == Err::<SwapReceipt, CurveError>(CurveError::OverflowOrUnderflowOccurred)
                } else if !is_buy && (pre.virtual_token_reserves + amount_in > u64::MAX || out + fee
                    > pre.virtual_lamport_reserves || out > pre.actual_lamport_reserves) {
                    r == Err::<SwapReceipt, CurveError>(CurveError::OverflowOrUnderflowOccurred)
                } else {
                    &&& r is Ok
                    &&& (r matches Ok(rc) ==> {
                        &&& rc.event.trader == trader
                        &&& rc.event.asset == asset
                        &&& rc.event.is_buy == is_buy
                        &&& rc.event.amount_in == amount_in
                        &&& rc.event.amount_out == out
                        &&& rc.fee_lamports == fee
                        &&& rc.net_lamports == (if is_buy {
                            amount_in - fee
                        } else {
                            out - fee
                        })
                        &&& rc.completed == (is_buy && pre.actual_lamport_reserves + (amount_in
                            - fee) >= threshold)
                        &&& (is_buy ==> buy_transition(
                            pre,
                            post,
                            amount_in as int,
                            fee,
                            out,
                            threshold,
                        ))
                        &&& (!is_buy ==> sell_transition(pre, post, amount_in as int, fee, out))
                    })
                }
            },
        }
    }
}

/// Validates and executes one swap against one curve, mutating the curve
/// only on success.
///
/// Callers opt out of the slippage guard by passing a `min_amount_out` of
/// zero. Any failure, including a checked-arithmetic one, leaves the curve
/// exactly as it was.
pub fn swap(
    curve: &mut BondingCurve,
    config: &Config,
    trader: AccountId,
    asset: AccountId,
    fee_recipient: AccountId,
    amount_in: u64,
    is_buy: bool,
    min_amount_out: u64,
) -> (r: Result<SwapReceipt, CurveError>)
    ensures
        swap_outcome(
            *old(curve),
            *final(curve),
            *config,
            trader,
            asset,
            fee_recipient,
            amount_in,
            is_buy,
            min_amount_out,
            r,
        ),
        r is Err ==> *final(curve) == *old(curve),
        old(curve).is_completed ==> final(curve).is_completed,
{
    if fee_recipient != config.fee_recipient {
        return Err(CurveError::IncorrectFeeRecipient);
    }
    if curve.is_completed {
        return Err(CurveError::CurveAlreadyCompleted);
    }
    if amount_in == 0 {
        return Err(CurveError::ZeroAmount);
    }
    let fee_basis_points = if is_buy {
        config.buy_fee_basis_points
    } else {
        config.sell_fee_basis_points
    };

    let (amount_out, fee_lamports) = match curve.calc_amount_out(
        amount_in,
        is_buy,
        fee_basis_points,
    ) {
        Ok(quoted) => quoted,
        Err(e) => {
            return Err(e);
        },
    };
    if amount_out < min_amount_out {
        return Err(CurveError::SlippageExceeded);
    }

    let completed = if is_buy {
        match curve.buy(config.lamports_needed_to_complete_curve, amount_in, fee_basis_points) {
            Ok(crossed) => crossed,
            Err(e) => {
                return Err(e);
            },
        }
    } else {
        match curve.sell(amount_in, fee_basis_points) {
            Ok(()) => false,
            Err(e) => {
                return Err(e);
            },
        }
    };

    let net_lamports = if is_buy {
        amount_in - fee_lamports
    } else {
        amount_out - fee_lamports
    };
    Ok(
        SwapReceipt {
            event: TradeEvent { trader, asset, is_buy, amount_in, amount_out },
            fee_lamports,
            net_lamports,
            completed,
        },
    )
}

} // verus!
