//! What a liquidity provider is owed since it last settled.

use crate::error::{ClearingHouseResult, ErrorCode};
use crate::math::safe_math::{cast_to_i128, get_proportion_u128, proportion};
use crate::state::market::AMM;
use crate::state::user::MarketPosition;
use vstd::prelude::*;

verus! {

/// One holder's slice of what the market accumulated since the holder last
/// settled. Computed afresh for every settlement and never stored.
#[derive(Clone, Copy, Debug, PartialEq, Eq, Structural)]
pub struct LPMetrics {
    pub base_asset_amount: i128,
    pub quote_asset_amount: u128,
    pub unsettled_pnl: i128,
}

/// The part of a counter's growth from `marker` to `current` that falls to
/// `shares` out of `basis`, rounded down. A counter behind its marker, an
/// empty basis and a share beyond `u128::MAX` are arithmetic failures.
pub open spec fn accrued_share(current: u128, marker: u128, shares: u128, basis: u128) -> Result<
    u128,
    ErrorCode,
> {
    if current < marker {
        Err(ErrorCode::ArithmeticError)
    } else {
        proportion((current - marker) as u128, shares, basis)
    }
}

/// The metrics of `position` against `amm`: each of the three counters'
/// growth since the holder's marker, split by shares held over shares
/// outstanding. The base and profit slices must also fit a signed amount.
pub open spec fn lp_metrics(position: MarketPosition, amm: AMM) -> Result<LPMetrics, ErrorCode> {
    let basis = amm.total_lp_shares_basis();
    let base = accrued_share(
        amm.market_position_per_lp.base_asset_amount,
        position.last_cumulative_net_base_asset_amount_per_lp,
        position.lp_shares,
        basis,
    );
    let quote = accrued_share(
        amm.market_position_per_lp.quote_asset_amount,
        position.last_cumulative_net_quote_asset_amount_per_lp,
        position.lp_shares,
        basis,
    );
    let pnl = accrued_share(
        amm.market_position_per_lp.unsettled_pnl,
        position.last_cumulative_fee_per_lp,
        position.lp_shares,
        basis,
    );
    if base is Ok && quote is Ok && pnl is Ok && base->Ok_0 <= i128::MAX && pnl->Ok_0
        <= i128::MAX {
        Ok(
            LPMetrics {
                base_asset_amount: base->Ok_0 as i128,
                quote_asset_amount: quote->Ok_0,
                unsettled_pnl: pnl->Ok_0 as i128,
            },
        )
    } else {
        Err(ErrorCode::ArithmeticError)
    }
}

fn get_accrued_share(current: u128, marker: u128, shares: u128, basis: u128) -> (res:
    ClearingHouseResult<u128>)
    ensures
        res == accrued_share(current, marker, shares, basis),
{
    if current < marker {
        return Err(ErrorCode::ArithmeticError);
    }
    get_proportion_u128(current - marker, shares, basis)
}

/// Computes what `position` is owed by `amm` since it last settled. Nothing
/// is changed.
pub fn get_lp_metrics(position: &MarketPosition, amm: &AMM) -> (res: ClearingHouseResult<LPMetrics>)
    ensures
        res == lp_metrics(*position, *amm),
{
    let total_lp_shares = amm.user_lp_shares;
    let n_shares = position.lp_shares;

    let base_asset_amount = get_accrued_share(
        amm.market_position_per_lp.base_asset_amount,
        position.last_cumulative_net_base_asset_amount_per_lp,
        n_shares,
        total_lp_shares,
    )?;
    let quote_asset_amount = get_accrued_share(
        amm.market_position_per_lp.quote_asset_amount,
        position.last_cumulative_net_quote_asset_amount_per_lp,
        n_shares,
        total_lp_shares,
    )?;
    let unsettled_pnl = get_accrued_share(
        amm.market_position_per_lp.unsettled_pnl,
        position.last_cumulative_fee_per_lp,
        n_shares,
        total_lp_shares,
    )?;

    Ok(
        LPMetrics {
            base_asset_amount: cast_to_i128(base_asset_amount)?,
            quote_asset_amount,
            unsettled_pnl: cast_to_i128(unsettled_pnl)?,
        },
    )
}

/// A holder whose markers stand at the counters is owed nothing, whatever it
/// holds, as long as any shares are outstanding.
pub proof fn lemma_metrics_zero_when_current(position: MarketPosition, amm: AMM)
    requires
        position.markers_current(amm),
        amm.total_lp_shares_basis() > 0,
    ensures
        lp_metrics(position, amm) == Ok::<LPMetrics, ErrorCode>(
            LPMetrics { base_asset_amount: 0, quote_asset_amount: 0, unsettled_pnl: 0 },
        ),
{
    let s = position.lp_shares;
    let d = amm.total_lp_shares_basis();
    assert((0u128 * s) / (d as int) == 0) by (nonlinear_arith)
        requires
            d > 0,
    ;
}

} // verus!
