use crate::account::AccountId;
use crate::config::Config;
use crate::curve::BondingCurve;
use crate::engine;
use crate::engine::{swap_outcome, SwapReceipt};
use crate::errors::CurveError;
use crate::events::LaunchEvent;
use vstd::prelude::*;

verus! {

/// One launched asset and its curve.
#[derive(Clone, Copy, Debug, PartialEq, Eq, Structural)]
pub struct CurveEntry {
    pub asset: AccountId,
    pub curve: BondingCurve,
}

/// The curve a launch creates: the whole supply in the curve, the virtual
/// lamport reserve at its configured seed, no real lamports collected,
/// trading open.
pub open spec fn fresh_curve(config: Config) -> BondingCurve {
    BondingCurve {
        virtual_token_reserves: config.total_token_supply,
        virtual_lamport_reserves: config.virtual_lamport_seed,
        actual_lamport_reserves: 0,
        is_completed: false,
    }
}

/// Whether some entry carries `asset`.
pub open spec fn has_asset(entries: Seq<CurveEntry>, asset: AccountId) -> bool {
    exists|i: int| 0 <= i < entries.len() && entries[i].asset == asset
}

/// The index of the entry carrying `asset`; meaningful under
/// `distinct_assets` and `has_asset`.
pub open spec fn asset_index(entries: Seq<CurveEntry>, asset: AccountId) -> int {
    choose|i: int| 0 <= i < entries.len() && entries[i].asset == asset
}

/// The curve stored for `asset`.
pub open spec fn curve_for(entries: Seq<CurveEntry>, asset: AccountId) -> BondingCurve {
    entries[asset_index(entries, asset)].curve
}

/// No two entries carry the same asset.
pub open spec fn distinct_assets(entries: Seq<CurveEntry>) -> bool {
    forall|i: int, j: int|
        0 <= i < j < entries.len() ==> entries[i].asset != entries[j].asset
}

/// Under `distinct_assets`, an entry holding `asset` pins `asset_index`.
pub proof fn lemma_asset_index_is(entries: Seq<CurveEntry>, asset: AccountId, i: int)
    requires
        distinct_assets(entries),
        0 <= i < entries.len(),
        entries[i].asset == asset,
    ensures
        has_asset(entries, asset),
        asset_index(entries, asset) == i,
{
    assert(has_asset(entries, asset)) by {
        assert(0 <= i < entries.len() && entries[i].asset == asset);
    }
    let j = asset_index(entries, asset);
    if j < i {
        assert(entries[j].asset != entries[i].asset);
    } else if i < j {
        assert(entries[i].asset != entries[j].asset);
    }
}

/// The explicit store behind the three operations: the administrator's
/// identity, the configuration (absent until the first configure), and one
/// curve per launched asset. Swaps against different curves are independent;
/// the store itself is the unit a host serializes on.
pub struct Launchpad {
    pub admin: AccountId,
    pub config: Option<Config>,
    pub curves: Vec<CurveEntry>,
}

impl Launchpad {
    /// Well-formedness: one curve per asset.
    pub open spec fn wf(self) -> bool {
        distinct_assets(self.curves@)
    }

    /// Whether `asset` has a launched curve.
    pub open spec fn has_curve(self, asset: AccountId) -> bool {
        has_asset(self.curves@, asset)
    }

    /// The curve launched for `asset`.
    pub open spec fn curve_of(self, asset: AccountId) -> BondingCurve {
        curve_for(self.curves@, asset)
    }

    /// A fresh launchpad: a known administrator, nothing configured, nothing
    /// launched.
    pub fn new(admin: AccountId) -> (r: Launchpad)
        ensures
            r.wf(),
            r.admin == admin,
            r.config is None,
            r.curves@.len() == 0,
    {
        Launchpad { admin, config: None, curves: Vec::new() }
    }

    /// Index of the entry for `asset`, if launched.
    fn position_of(&self, asset: AccountId) -> (r: Option<usize>)
        ensures
            match r {
                Some(i) => 0 <= i < self.curves@.len() && self.curves@[i as int].asset == asset,
                None => !has_asset(self.curves@, asset),
            },
    {
        let n = self.curves.len();
        let mut i: usize = 0;
        while i < n
            invariant
                i <= n,
                n == self.curves@.len(),
                forall|j: int| 0 <= j < i ==> self.curves@[j].asset != asset,
            decreases n - i,
        {
            if self.curves[i].asset == asset {
                return Some(i);
            }
            i = i + 1;
        }
        None
    }

    /// The stored curve for `asset`, if one was launched; a read-only copy
    /// for hosts and tests.
    pub fn get_curve(&self, asset: AccountId) -> (r: Option<BondingCurve>)
        requires
            self.wf(),
        ensures
            match r {
                Some(c) => self.has_curve(asset) && c == self.curve_of(asset),
                None => !self.has_curve(asset),
            },
    {
        match self.position_of(asset) {
            Some(i) => {
                proof {
                    lemma_asset_index_is(self.curves@, asset, i as int);
                }
                Some(self.curves[i].curve)
            },
            None => None,
        }
    }

    /// Replaces the configuration wholesale; there is no partial update.
    /// Only the administrator may configure; either way nothing else
    /// changes.
    pub fn configure(&mut self, caller: AccountId, new_config: Config) -> (r: Result<
        (),
        CurveError,
    >)
        ensures
            final(self).admin == old(self).admin,
            final(self).curves@ == old(self).curves@,
            ({
                if caller != old(self).admin {
                    &&& r == Err::<(), CurveError>(CurveError::Unauthorized)
                    &&& final(self).config == old(self).config
                } else {
                    &&& r == Ok::<(), CurveError>(())
                    &&& final(self).config == Some(new_config)
                }
            }),
    {
        if caller != self.admin {
            return Err(CurveError::Unauthorized);
        }
        self.config = Some(new_config);
        Ok(())
    }

    /// Launches `asset`: creates its curve seeded from the configuration and
    /// returns the record the host registers (the host also issues
    /// `total_token_supply` tokens into the curve's custody). Administrator
    /// only; fails if nothing is configured or the asset already has a
    /// curve, and then changes nothing.
    pub fn launch(
        &mut self,
        caller: AccountId,
        asset: AccountId,
        name: String,
        symbol: String,
        uri: String,
    ) -> (r: Result<LaunchEvent, CurveError>)
        requires
            old(self).wf(),
        ensures
            final(self).wf(),
            final(self).admin == old(self).admin,
            final(self).config == old(self).config,
            ({
                if caller != old(self).admin {
                    &&& r == Err::<LaunchEvent, CurveError>(CurveError::Unauthorized)
                    &&& final(self).curves@ == old(self).curves@
                } else {
                    match old(self).config {
                        None => {
                            &&& r == Err::<LaunchEvent, CurveError>(CurveError::Unconfigured)
                            &&& final(self).curves@ == old(self).curves@
                        },
                        Some(cfg) => {
                            if old(self).has_curve(asset) {
                                &&& r == Err::<LaunchEvent, CurveError>(
                                    CurveError::AlreadyLaunched,
                                )
                                &&& final(self).curves@ == old(self).curves@
                            } else {
                                &&& r is Ok
                                &&& (r matches Ok(ev) ==> {
                                    &&& ev.mint == asset
                                    &&& ev.name@ == name@
                                    &&& ev.symbol@ == symbol@
                                    &&& ev.uri@ == uri@
                                })
                                &&& final(self).has_curve(asset)
                                &&& final(self).curve_of(asset) == fresh_curve(cfg)
                                &&& (forall|other: AccountId|
                                    other != asset ==> #[trigger] final(self).has_curve(other)
                                        == old(self).has_curve(other))
                                &&& (forall|other: AccountId|
                                    other != asset && old(self).has_curve(other)
                                        ==> #[trigger] final(self).curve_of(other)
                                        == old(self).curve_of(other))
                            }
                        },
                    }
                }
            }),
    {
        if caller != self.admin {
            return Err(CurveError::Unauthorized);
        }
        let cfg = match self.config {
            Some(c) => c,
            None => {
                return Err(CurveError::Unconfigured);
            },
        };
        match self.position_of(asset) {
            Some(_) => {
                return Err(CurveError::AlreadyLaunched);
            },
            None => {},
        }

        let curve = BondingCurve {
            virtual_token_reserves: cfg.total_token_supply,
            virtual_lamport_reserves: cfg.virtual_lamport_seed,
            actual_lamport_reserves: 0,
            is_completed: false,
        };
        self.curves.push(CurveEntry { asset, curve });

        proof {
            let pre = old(self).curves@;
            let post = self.curves@;
            let n = pre.len() as int;
            assert forall|i: int, j: int|
                0 <= i < j < post.len() implies post[i].asset != post[j].asset by {
                if j < n {
                    assert(post[i] == pre[i] && post[j] == pre[j]);
                } else {
                    assert(post[i] == pre[i]);
                    assert(!(0 <= i < pre.len() && pre[i].asset == asset));
                }
            };
            lemma_asset_index_is(post, asset, n);
            assert forall|other: AccountId|
                other != asset implies has_asset(post, other) == has_asset(pre, other) by {
                if has_asset(pre, other) {
                    let w = choose|i: int| 0 <= i < pre.len() && pre[i].asset == other;
                    assert(post[w].asset == other);
                    assert(has_asset(post, other));
                }
                if has_asset(post, other) {
                    let w = choose|i: int| 0 <= i < post.len() && post[i].asset == other;
                    assert(w != n);
                    assert(pre[w].asset == other);
                    assert(has_asset(pre, other));
                }
            };
            assert forall|other: AccountId|
                other != asset && has_asset(pre, other) implies curve_for(post, other) == curve_for(
                pre,
                other,
            ) by {
                let w = asset_index(pre, other);
                assert(0 <= w < pre.len() && pre[w].asset == other);
                lemma_asset_index_is(pre, other, w);
                assert(post[w].asset == other);
                lemma_asset_index_is(post, other, w);
            };
        }
        Ok(LaunchEvent { mint: asset, name, symbol, uri })
    }

    /// Executes one swap against the curve for `asset`, under the stored
    /// configuration. The named curve mutates only on success; every other
    /// curve, the configuration and the administrator are untouched either
    /// way.
    pub fn swap(
        &mut self,
        trader: AccountId,
        asset: AccountId,
        fee_recipient: AccountId,
        amount_in: u64,
        is_buy: bool,
        min_amount_out: u64,
    ) -> (r: Result<SwapReceipt, CurveError>)
        requires
            old(self).wf(),
        ensures
            final(self).wf(),
            final(self).admin == old(self).admin,
            final(self).config == old(self).config,
            forall|other: AccountId|
                #[trigger] final(self).has_curve(other) == old(self).has_curve(other),
            forall|other: AccountId|
                other != asset && old(self).has_curve(other)
                    ==> #[trigger] final(self).curve_of(other) == old(self).curve_of(other),
            ({
                match old(self).config {
                    None => r == Err::<SwapReceipt, CurveError>(CurveError::Unconfigured)
                        && final(self).curves@ == old(self).curves@,
                    Some(cfg) => {
                        if !old(self).has_curve(asset) {
                            r == Err::<SwapReceipt, CurveError>(CurveError::CurveNotLaunched)
                                && final(self).curves@ == old(self).curves@
                        } else {
                            &&& swap_outcome(
                                old(self).curve_of(asset),
                                final(self).curve_of(asset),
                                cfg,
                                trader,
                                asset,
                                fee_recipient,
                                amount_in,
                                is_buy,
                                min_amount_out,
                                r,
                            )
                            &&& (r is Err ==> final(self).curves@ == old(self).curves@)
                            &&& (old(self).curve_of(asset).is_completed
                                ==> final(self).curve_of(asset).is_completed)
                        }
                    },
                }
            }),
    {
        let cfg = match self.config {
            Some(c) => c,
            None => {
                return Err(CurveError::Unconfigured);
            },
        };
        let idx = match self.position_of(asset) {
            Some(i) => i,
            None => {
                return Err(CurveError::CurveNotLaunched);
            },
        };
        proof {
            lemma_asset_index_is(self.curves@, asset, idx as int);
        }
        let mut curve = self.curves[idx].curve;
        match engine::swap(
            &mut curve,
            &cfg,
            trader,
            asset,
            fee_recipient,
            amount_in,
            is_buy,
            min_amount_out,
        ) {
            Ok(receipt) => {
                self.curves[idx] = CurveEntry { asset, curve };
                proof {
                    let pre = old(self).curves@;
                    let post = self.curves@;
                    assert forall|i: int, j: int|
                        0 <= i < j < post.len() implies post[i].asset != post[j].asset by {
                        assert(pre[i].asset != pre[j].asset);
                    };
                    lemma_asset_index_is(post, asset, idx as int);
                    assert forall|other: AccountId|
                        has_asset(post, other) == has_asset(pre, other) by {
                        if has_asset(pre, other) {
                            let w = choose|i: int| 0 <= i < pre.len() && pre[i].asset == other;
                            assert(post[w].asset == other);
                            assert(has_asset(post, other));
                        }
                        if has_asset(post, other) {
                            let w = choose|i: int| 0 <= i < post.len() && post[i].asset == other;
                            assert(pre[w].asset == other);
                            assert(has_asset(pre, other));
                        }
                    };
                    assert forall|other: AccountId|
                        other != asset && has_asset(pre, other) implies curve_for(post, other)
                        == curve_for(pre, other) by {
                        let w = asset_index(pre, other);
                        assert(0 <= w < pre.len() && pre[w].asset == other);
                        lemma_asset_index_is(pre, other, w);
                        assert(post[w].asset == other);
                        lemma_asset_index_is(post, other, w);
                    };
                }
                Ok(receipt)
            },
            Err(e) => Err(e),
        }
    }
}

} // verus!
