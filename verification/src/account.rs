use vstd::prelude::*;

verus! {

/// Identity of an account in the hosting environment (a trader, an asset, a
/// fee recipient, the administrator). The curve logic only ever compares
/// identities and carries them into records, so an identity is modeled as a
/// plain 64-bit id; the host keeps the mapping to its own key format.
#[derive(Clone, Copy, Debug, PartialEq, Eq, Structural)]
pub struct AccountId(pub u64);

} // verus!
