use vstd::prelude::*;

verus! {

/// Every failure a launchpad operation can surface. No operation retries:
/// each error is returned synchronously and the state it guards is unchanged.
#[derive(Clone, Copy, Debug, PartialEq, Eq, Structural)]
pub enum CurveError {
    /// The caller of an administrative operation is not the administrator.
    Unauthorized,
    /// A launch or swap was attempted before any configuration was stored.
    Unconfigured,
    /// A curve already exists for the asset being launched.
    AlreadyLaunched,
    /// A swap named an asset for which no curve was launched.
    CurveNotLaunched,
    /// The fee account handed to a swap is not the configured fee recipient.
    IncorrectFeeRecipient,
    /// The curve has reached its completion threshold and no longer trades.
    CurveAlreadyCompleted,
    /// A swap with `amount_in == 0` was attempted; such swaps are rejected
    /// rather than executed as no-ops.
    ZeroAmount,
    /// The quoted output falls below the caller-supplied minimum.
    SlippageExceeded,
    /// A virtual reserve is zero on one axis, so the pricing formula would
    /// divide by zero; pricing fails fast instead.
    ZeroReserves,
    /// Checked reserve arithmetic overflowed or underflowed. This is fatal:
    /// it can only arise from configuration or prior-state corruption.
    OverflowOrUnderflowOccurred,
}

} // verus!
