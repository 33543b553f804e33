use crate::account::AccountId;
use vstd::prelude::*;

verus! {

/// Fee rates are expressed in basis points (1 bp = 0.01%), so a whole
/// percent is 100 of these. Keeping the rate an integer keeps every
/// value-affecting computation deterministic.
pub const FEE_BASIS_POINT_DENOMINATOR: u64 = 10000;

/// Process-wide parameters, set by the administrator and read by every
/// launch and swap. A configure operation replaces the value wholesale;
/// no partial field update exists.
#[derive(Clone, Copy, Debug, PartialEq, Eq, Structural)]
pub struct Config {
    /// The account that receives every fee payment.
    pub fee_recipient: AccountId,
    /// Real (not virtual) lamports that, once collected by a curve, complete it.
    pub lamports_needed_to_complete_curve: u64,
    /// Token units issued to a curve at launch; a fresh curve's token reserve.
    pub total_token_supply: u64,
    /// Lamports a fresh curve's virtual lamport reserve starts at. This is
    /// seeded liquidity: it prices trades without being real collected
    /// funds. It must be nonzero for a fresh curve to trade at all, since
    /// pricing fails fast on a zero reserve rather than divide by zero.
    pub virtual_lamport_seed: u64,
    /// Fee charged on the lamport input of a buy, in basis points.
    pub buy_fee_basis_points: u64,
    /// Fee charged on the lamport output of a sell, in basis points.
    pub sell_fee_basis_points: u64,
}

impl Config {
    /// A fee rate must stay under 100% so an after-fee amount can never go
    /// negative. The pricing engine itself tolerates any rate (it fails with
    /// the arithmetic error instead of underflowing); the laws of the curve
    /// hold for well-formed configurations.
    pub open spec fn wf(self) -> bool {
        &&& self.buy_fee_basis_points < FEE_BASIS_POINT_DENOMINATOR
        &&& self.sell_fee_basis_points < FEE_BASIS_POINT_DENOMINATOR
    }
}

} // verus!
