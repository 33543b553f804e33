use crate::account::AccountId;
use vstd::prelude::*;

verus! {

/// Record of one executed swap, handed to the host's event sink for
/// observability. Emitting it has no further consequence inside the library.
#[derive(Clone, Copy, Debug, PartialEq, Eq, Structural)]
pub struct TradeEvent {
    pub trader: AccountId,
    pub asset: AccountId,
    pub is_buy: bool,
    pub amount_in: u64,
    pub amount_out: u64,
}

/// Record of one launch: the asset made tradable and its display metadata,
/// which the host registers with its metadata service.
#[derive(Clone, Debug)]
pub struct LaunchEvent {
    pub mint: AccountId,
    pub name: String,
    pub symbol: String,
    pub uri: String,
}

} // verus!
