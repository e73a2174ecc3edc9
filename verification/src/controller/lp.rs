//! Settling a liquidity provider's position and burning its shares.
//!
//! Both operations are all or nothing: they work on copies of the two
//! records and write them back only when every step has succeeded.

use crate::controller::position::{
    lemma_delta_moves_base_alike, lemma_empty_delta_is_identity, position_after_delta,
    position_after_unsettled_pnl, update_position_and_market, update_unsettled_pnl, PositionDelta,
};
use crate::error::{committed, ClearingHouseResult, ErrorCode};
use crate::math::amm::{
    get_update_k_result, lemma_rescale_preserves_price, market_after_update_k, price_preserved,
    update_k, update_k_result, UpdateKResult,
};
use crate::math::lp::{get_lp_metrics, lemma_metrics_zero_when_current, lp_metrics, LPMetrics};
use crate::math::safe_math::{safe_add_i128, safe_sub_i128, safe_sub_u128};
use crate::state::market::{Market, AMM};
use crate::state::user::MarketPosition;
use vstd::prelude::*;

verus! {

/// The position with its three markers moved up to the counters of `amm`.
pub open spec fn with_markers_at(position: MarketPosition, amm: AMM) -> MarketPosition {
    MarketPosition {
        last_cumulative_fee_per_lp: amm.market_position_per_lp.unsettled_pnl,
        last_cumulative_net_base_asset_amount_per_lp: amm.market_position_per_lp.base_asset_amount,
        last_cumulative_net_quote_asset_amount_per_lp: amm.market_position_per_lp.quote_asset_amount,
        ..position
    }
}

/// The position and market after a settlement, or the failure that stops
/// it.
///
/// The holder's metrics are computed; their base and quote go through the
/// shared position update as one change; the profit that realises, plus the
/// metrics' own profit, is booked; the market's unsettled base is lowered
/// by the metrics' base; and the holder's markers move up to the market's
/// counters.
pub open spec fn settle_outcome(position: MarketPosition, market: Market) -> Result<
    (MarketPosition, Market),
    ErrorCode,
> {
    match lp_metrics(position, market.amm) {
        Err(e) => Err(e),
        Ok(metrics) => match position_after_delta(
            position,
            market,
            PositionDelta {
                base_asset_amount: metrics.base_asset_amount,
                quote_asset_amount: metrics.quote_asset_amount,
            },
        ) {
            Err(e) => Err(e),
            Ok((moved_position, moved_market, upnl)) => {
                let booked = upnl + metrics.unsettled_pnl;
                if !(i128::MIN <= booked <= i128::MAX) {
                    Err(ErrorCode::ArithmeticError)
                } else {
                    match position_after_unsettled_pnl(moved_position, moved_market, booked as i128) {
                        Err(e) => Err(e),
                        Ok((booked_position, booked_market)) => {
                            let unsettled = booked_market.amm.net_unsettled_lp_base_asset_amount
                                - metrics.base_asset_amount;
                            if !(i128::MIN <= unsettled <= i128::MAX) {
                                Err(ErrorCode::ArithmeticError)
                            } else {
                                Ok(
                                    (
                                        with_markers_at(booked_position, booked_market.amm),
                                        Market {
                                            amm: AMM {
                                                net_unsettled_lp_base_asset_amount:
                                                    unsettled as i128,
                                                ..booked_market.amm
                                            },
                                            ..booked_market
                                        },
                                    ),
                                )
                            }
                        },
                    }
                }
            },
        }
    }
}

/// The position and market after `shares_to_burn` shares are burned, or the
/// failure that stops it.
///
/// The position is settled first, with the shares it held until now. Then
/// the shares leave the holder and the market, the depth shrinks by one
/// unit for each share, and the reserves are rescaled to the new depth at
/// the present price. More shares than the holder has are insufficient
/// shares; more than the market has outstanding, or than its depth, are an
/// arithmetic failure.
pub open spec fn burn_outcome(
    position: MarketPosition,
    market: Market,
    shares_to_burn: u128,
) -> Result<(MarketPosition, Market), ErrorCode> {
    match settle_outcome(position, market) {
        Err(e) => Err(e),
        Ok((p, m)) => {
            if shares_to_burn > p.lp_shares {
                Err(ErrorCode::InsufficientShares)
            } else if shares_to_burn > m.amm.user_lp_shares || shares_to_burn > m.amm.sqrt_k {
                Err(ErrorCode::ArithmeticError)
            } else {
                let burned = Market {
                    amm: AMM {
                        user_lp_shares: (m.amm.user_lp_shares - shares_to_burn) as u128,
                        ..m.amm
                    },
                    ..m
                };
                match update_k_result(
                    burned.amm,
                    (m.amm.sqrt_k - shares_to_burn) as u128,
                    false,
                ) {
                    Err(e) => Err(e),
                    Ok(k) => match market_after_update_k(burned, k) {
                        Err(e) => Err(e),
                        Ok(rescaled) => Ok(
                            (
                                MarketPosition {
                                    lp_shares: (p.lp_shares - shares_to_burn) as u128,
                                    ..p
                                },
                                rescaled,
                            ),
                        ),
                    },
                }
            }
        },
    }
}

/// Realises what `position` is owed by `market` since it last settled, and
/// moves its markers up to the market's counters.
pub fn settle_lp_position(position: &mut MarketPosition, market: &mut Market) -> (res:
    ClearingHouseResult<()>)
    ensures
        committed(
            res,
            settle_outcome(*old(position), *old(market)),
            (*old(position), *old(market)),
            (*final(position), *final(market)),
        ),
        res is Ok ==> final(position).markers_current(final(market).amm),
{
    let mut settled_position = *position;
    let mut settled_market = *market;

    let metrics: LPMetrics = get_lp_metrics(&settled_position, &settled_market.amm)?;

    let position_delta = PositionDelta {
        base_asset_amount: metrics.base_asset_amount,
        quote_asset_amount: metrics.quote_asset_amount,
    };

    let upnl = update_position_and_market(
        &mut settled_position,
        &mut settled_market,
        &position_delta,
    )?;

    let booked = safe_add_i128(upnl, metrics.unsettled_pnl)?;
    update_unsettled_pnl(&mut settled_position, &mut settled_market, booked)?;

    settled_market.amm.net_unsettled_lp_base_asset_amount =
    safe_sub_i128(
        settled_market.amm.net_unsettled_lp_base_asset_amount,
        metrics.base_asset_amount,
    )?;

    settled_position.last_cumulative_fee_per_lp =
    settled_market.amm.market_position_per_lp.unsettled_pnl;
    settled_position.last_cumulative_net_base_asset_amount_per_lp =
    settled_market.amm.market_position_per_lp.base_asset_amount;
    settled_position.last_cumulative_net_quote_asset_amount_per_lp =
    settled_market.amm.market_position_per_lp.quote_asset_amount;

    *position = settled_position;
    *market = settled_market;

    Ok(())
}

/// Settles `position`, then burns `shares_to_burn` of its shares and
/// shrinks the market's depth by as much, at the present price.
pub fn burn_lp_shares(
    position: &mut MarketPosition,
    market: &mut Market,
    shares_to_burn: u128,
) -> (res: ClearingHouseResult<()>)
    ensures
        committed(
            res,
            burn_outcome(*old(position), *old(market), shares_to_burn),
            (*old(position), *old(market)),
            (*final(position), *final(market)),
        ),
{
    let mut burned_position = *position;
    let mut burned_market = *market;

    settle_lp_position(&mut burned_position, &mut burned_market)?;

    if shares_to_burn > burned_position.lp_shares {
        return Err(ErrorCode::InsufficientShares);
    }
    burned_position.lp_shares = burned_position.lp_shares - shares_to_burn;

    burned_market.amm.user_lp_shares =
    safe_sub_u128(burned_market.amm.user_lp_shares, shares_to_burn)?;

    let new_sqrt_k = safe_sub_u128(burned_market.amm.sqrt_k, shares_to_burn)?;

    let update_k_result: UpdateKResult = get_update_k_result(&burned_market, new_sqrt_k, false)?;
    update_k(&mut burned_market, &update_k_result)?;

    *position = burned_position;
    *market = burned_market;

    Ok(())
}

/// What a settlement that succeeds leaves alone and what it moves: the
/// holder, whose markers were not ahead of the counters, keeps its shares
/// and ends with its markers at the counters; the market keeps its
/// counters, shares, depth and reserves; and the base amount that leaves
/// the market's unsettled total is the base amount that arrives in the
/// position and in the market's net base.
pub proof fn lemma_settle_effect(position: MarketPosition, market: Market)
    requires
        settle_outcome(position, market) is Ok,
    ensures
        ({
            let (p, m) = settle_outcome(position, market)->Ok_0;
            let metrics = lp_metrics(position, market.amm)->Ok_0;
            &&& lp_metrics(position, market.amm) is Ok
            &&& position.markers_behind(market.amm)
            &&& metrics.base_asset_amount >= 0
            &&& p.lp_shares == position.lp_shares
            &&& p.markers_current(m.amm)
            &&& p.base_asset_amount == position.base_asset_amount + metrics.base_asset_amount
            &&& m.amm.net_base_asset_amount == market.amm.net_base_asset_amount
                + metrics.base_asset_amount
            &&& m.amm.net_unsettled_lp_base_asset_amount
                == market.amm.net_unsettled_lp_base_asset_amount - metrics.base_asset_amount
            &&& m.amm.market_position_per_lp == market.amm.market_position_per_lp
            &&& m.amm.user_lp_shares == market.amm.user_lp_shares
            &&& m.amm.sqrt_k == market.amm.sqrt_k
            &&& m.amm.base_asset_reserve == market.amm.base_asset_reserve
            &&& m.amm.quote_asset_reserve == market.amm.quote_asset_reserve
        }),
{
    let metrics = lp_metrics(position, market.amm)->Ok_0;
    let delta = PositionDelta {
        base_asset_amount: metrics.base_asset_amount,
        quote_asset_amount: metrics.quote_asset_amount,
    };
    lemma_delta_moves_base_alike(position, market, delta);
}

/// Settling twice is settling once: a second settlement, with no market
/// activity in between, finds metrics of zero and leaves position and
/// market exactly as the first left them.
pub proof fn lemma_settle_idempotent(position: MarketPosition, market: Market)
    requires
        settle_outcome(position, market) is Ok,
    ensures
        ({
            let (p, m) = settle_outcome(position, market)->Ok_0;
            &&& lp_metrics(p, m.amm) == Ok::<LPMetrics, ErrorCode>(
                LPMetrics { base_asset_amount: 0, quote_asset_amount: 0, unsettled_pnl: 0 },
            )
            &&& settle_outcome(p, m) == Ok::<(MarketPosition, Market), ErrorCode>((p, m))
        }),
{
    let (p, m) = settle_outcome(position, market)->Ok_0;
    lemma_settle_effect(position, market);
    lemma_metrics_zero_when_current(p, m.amm);
    lemma_empty_delta_is_identity(p, m);
}

/// A burn always settles first: whatever a burn that succeeds leaves
/// behind is what a settlement of the same position would have left, with
/// the shares, the depth and the reserves changed afterwards and nothing
/// else. So the position's amounts and its unsettled profit reflect the
/// shares it held before the burn.
pub proof fn lemma_burn_settles_first(
    position: MarketPosition,
    market: Market,
    shares_to_burn: u128,
)
    requires
        burn_outcome(position, market, shares_to_burn) is Ok,
    ensures
        ({
            let (burned, rescaled) = burn_outcome(position, market, shares_to_burn)->Ok_0;
            let (p, m) = settle_outcome(position, market)->Ok_0;
            &&& settle_outcome(position, market) is Ok
            &&& shares_to_burn <= p.lp_shares == position.lp_shares
            &&& burned == MarketPosition { lp_shares: (p.lp_shares - shares_to_burn) as u128, ..p }
            &&& rescaled.amm.user_lp_shares == m.amm.user_lp_shares - shares_to_burn
            &&& rescaled.amm.sqrt_k == m.amm.sqrt_k - shares_to_burn
            &&& rescaled == Market {
                amm: AMM {
                    user_lp_shares: rescaled.amm.user_lp_shares,
                    sqrt_k: rescaled.amm.sqrt_k,
                    base_asset_reserve: rescaled.amm.base_asset_reserve,
                    quote_asset_reserve: rescaled.amm.quote_asset_reserve,
                    ..m.amm
                },
                ..m
            }
            &&& price_preserved(
                m.amm,
                UpdateKResult {
                    sqrt_k: rescaled.amm.sqrt_k,
                    base_asset_reserve: rescaled.amm.base_asset_reserve,
                    quote_asset_reserve: rescaled.amm.quote_asset_reserve,
                },
            )
        }),
{
    let (p, m) = settle_outcome(position, market)->Ok_0;
    lemma_settle_effect(position, market);
    let burned = Market {
        amm: AMM { user_lp_shares: (m.amm.user_lp_shares - shares_to_burn) as u128, ..m.amm },
        ..m
    };
    lemma_rescale_preserves_price(burned.amm, (m.amm.sqrt_k - shares_to_burn) as u128, false);
}

/// A burn of more shares than the holder has, or than the market's depth,
/// is rejected with `InsufficientShares` or `ArithmeticError`.
pub proof fn lemma_burn_rejects_excess(
    position: MarketPosition,
    market: Market,
    shares_to_burn: u128,
)
    requires
        shares_to_burn > position.lp_shares || shares_to_burn > market.amm.sqrt_k,
    ensures
        burn_outcome(position, market, shares_to_burn) == Err::<
            (MarketPosition, Market),
            ErrorCode,
        >(ErrorCode::InsufficientShares) || burn_outcome(position, market, shares_to_burn) == Err::<
            (MarketPosition, Market),
            ErrorCode,
        >(ErrorCode::ArithmeticError),
        settle_outcome(position, market) is Ok && shares_to_burn > position.lp_shares
            ==> burn_outcome(position, market, shares_to_burn) == Err::<
            (MarketPosition, Market),
            ErrorCode,
        >(ErrorCode::InsufficientShares),
{
    if settle_outcome(position, market) is Ok {
        lemma_settle_effect(position, market);
    } else {
        lemma_settle_fails_arithmetically(position, market);
    }
}

/// A settlement fails in one way only: arithmetically.
pub proof fn lemma_settle_fails_arithmetically(position: MarketPosition, market: Market)
    requires
        settle_outcome(position, market) is Err,
    ensures
        settle_outcome(position, market) == Err::<(MarketPosition, Market), ErrorCode>(
            ErrorCode::ArithmeticError,
        ),
{
}

/// A burn that succeeds leaves a well-formed market: depth and reserves
/// are positive and cover the shares still outstanding.
pub proof fn lemma_burn_keeps_market_wf(
    position: MarketPosition,
    market: Market,
    shares_to_burn: u128,
)
    requires
        burn_outcome(position, market, shares_to_burn) is Ok,
    ensures
        burn_outcome(position, market, shares_to_burn)->Ok_0.1.amm.wf(),
{
}

} // verus!
