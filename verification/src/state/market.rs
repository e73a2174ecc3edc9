//! A market and the virtual AMM that quotes it.

use vstd::prelude::*;

verus! {

/// The cumulative counters against which liquidity providers measure what
/// they are owed. Trading only ever raises them; each holder remembers the
/// values it last settled at.
#[derive(Clone, Copy, Debug, PartialEq, Eq, Structural)]
pub struct MarketPositionPerLp {
    pub unsettled_pnl: u128,
    pub base_asset_amount: u128,
    pub quote_asset_amount: u128,
}

/// The virtual AMM of one market: its reserves and depth, and what it
/// tracks for the liquidity providers who added to that depth.
#[derive(Clone, Copy, Debug, PartialEq, Eq, Structural)]
pub struct AMM {
    /// Virtual base reserve.
    pub base_asset_reserve: u128,
    /// Virtual quote reserve.
    pub quote_asset_reserve: u128,
    /// Square root of the depth invariant. One unit of it is one share.
    pub sqrt_k: u128,
    /// Shares held by liquidity providers, all holders together.
    pub user_lp_shares: u128,
    /// Net base amount of all positions taken against the AMM.
    pub net_base_asset_amount: i128,
    /// Base amount owed to liquidity providers and not yet settled.
    pub net_unsettled_lp_base_asset_amount: i128,
    pub market_position_per_lp: MarketPositionPerLp,
}

/// One market: its AMM and the profit and loss booked against it.
#[derive(Clone, Copy, Debug, PartialEq, Eq, Structural)]
pub struct Market {
    pub amm: AMM,
    /// Sum of the gains booked to positions and not yet paid out.
    pub unsettled_profit: u128,
    /// Sum of the losses booked to positions and not yet collected.
    pub unsettled_loss: u128,
}

impl AMM {
    /// The number of shares among which the counters' growth is split.
    pub open spec fn total_lp_shares_basis(self) -> u128 {
        self.user_lp_shares
    }

    /// Depth and both reserves are positive, and the holders' shares are
    /// covered by the depth.
    pub open spec fn wf(self) -> bool {
        &&& self.sqrt_k > 0
        &&& self.base_asset_reserve > 0
        &&& self.quote_asset_reserve > 0
        &&& self.user_lp_shares <= self.sqrt_k
    }
}

impl Default for MarketPositionPerLp {
    fn default() -> (r: Self)
        ensures
            r == (MarketPositionPerLp { unsettled_pnl: 0, base_asset_amount: 0, quote_asset_amount: 0 }),
    {
        MarketPositionPerLp { unsettled_pnl: 0, base_asset_amount: 0, quote_asset_amount: 0 }
    }
}

impl Default for AMM {
    fn default() -> (r: Self)
        ensures
            r == (AMM {
                base_asset_reserve: 0,
                quote_asset_reserve: 0,
                sqrt_k: 0,
                user_lp_shares: 0,
                net_base_asset_amount: 0,
                net_unsettled_lp_base_asset_amount: 0,
                market_position_per_lp: MarketPositionPerLp {
                    unsettled_pnl: 0,
                    base_asset_amount: 0,
                    quote_asset_amount: 0,
                },
            }),
    {
        AMM {
            base_asset_reserve: 0,
            quote_asset_reserve: 0,
            sqrt_k: 0,
            user_lp_shares: 0,
            net_base_asset_amount: 0,
            net_unsettled_lp_base_asset_amount: 0,
            market_position_per_lp: MarketPositionPerLp::default(),
        }
    }
}

impl Default for Market {
    fn default() -> (r: Self)
        ensures
            r.amm == (AMM {
                base_asset_reserve: 0,
                quote_asset_reserve: 0,
                sqrt_k: 0,
                user_lp_shares: 0,
                net_base_asset_amount: 0,
                net_unsettled_lp_base_asset_amount: 0,
                market_position_per_lp: MarketPositionPerLp {
                    unsettled_pnl: 0,
                    base_asset_amount: 0,
                    quote_asset_amount: 0,
                },
            }),
            r.unsettled_profit == 0,
            r.unsettled_loss == 0,
    {
        Market { amm: AMM::default(), unsettled_profit: 0, unsettled_loss: 0 }
    }
}

} // verus!
