//! One account's position in one market.

use crate::state::market::AMM;
use vstd::prelude::*;

verus! {

/// A position in one market: what the account holds against the AMM, and,
/// where it provides liquidity, its shares and settlement markers.
#[derive(Clone, Copy, Debug, PartialEq, Eq, Structural)]
pub struct MarketPosition {
    /// Signed size of the position: positive is long.
    pub base_asset_amount: i128,
    /// What the open position cost (long) or brought in (short).
    pub quote_asset_amount: u128,
    /// Gains and losses booked to the position and not yet paid.
    pub unsettled_pnl: i128,
    /// Liquidity shares held.
    pub lp_shares: u128,
    /// The market's cumulative counters as they stood when this holder last
    /// settled.
    pub last_cumulative_fee_per_lp: u128,
    pub last_cumulative_net_base_asset_amount_per_lp: u128,
    pub last_cumulative_net_quote_asset_amount_per_lp: u128,
}

impl MarketPosition {
    /// No marker is ahead of the counter it follows.
    pub open spec fn markers_behind(self, amm: AMM) -> bool {
        &&& self.last_cumulative_fee_per_lp <= amm.market_position_per_lp.unsettled_pnl
        &&& self.last_cumulative_net_base_asset_amount_per_lp
            <= amm.market_position_per_lp.base_asset_amount
        &&& self.last_cumulative_net_quote_asset_amount_per_lp
            <= amm.market_position_per_lp.quote_asset_amount
    }

    /// Every marker stands at the counter it follows: nothing has happened
    /// since the holder last settled.
    pub open spec fn markers_current(self, amm: AMM) -> bool {
        &&& self.last_cumulative_fee_per_lp == amm.market_position_per_lp.unsettled_pnl
        &&& self.last_cumulative_net_base_asset_amount_per_lp
            == amm.market_position_per_lp.base_asset_amount
        &&& self.last_cumulative_net_quote_asset_amount_per_lp
            == amm.market_position_per_lp.quote_asset_amount
    }
}

impl Default for MarketPosition {
    fn default() -> (r: Self)
        ensures
            r == (MarketPosition {
                base_asset_amount: 0,
                quote_asset_amount: 0,
                unsettled_pnl: 0,
                lp_shares: 0,
                last_cumulative_fee_per_lp: 0,
                last_cumulative_net_base_asset_amount_per_lp: 0,
                last_cumulative_net_quote_asset_amount_per_lp: 0,
            }),
    {
        MarketPosition {
            base_asset_amount: 0,
            quote_asset_amount: 0,
            unsettled_pnl: 0,
            lp_shares: 0,
            last_cumulative_fee_per_lp: 0,
            last_cumulative_net_base_asset_amount_per_lp: 0,
            last_cumulative_net_quote_asset_amount_per_lp: 0,
        }
    }
}

} // verus!
