//! The update path that trades and settlements share: folding a change of
//! base and quote into a position, and booking profit and loss.

use crate::error::{ClearingHouseResult, ErrorCode};
use crate::math::safe_math::{
    cast_to_i128, get_proportion_u128, lemma_proportion_of_part, magnitude, safe_add_i128,
    safe_add_u128, unsigned_abs,
};
use crate::state::market::{Market, AMM};
use crate::state::user::MarketPosition;
use vstd::prelude::*;

verus! {

/// A change to a position: a signed base amount and the quote amount paid
/// or received for it.
#[derive(Clone, Copy, Debug, PartialEq, Eq, Structural)]
pub struct PositionDelta {
    pub base_asset_amount: i128,
    pub quote_asset_amount: u128,
}

impl Default for PositionDelta {
    fn default() -> (r: Self)
        ensures
            r == (PositionDelta { base_asset_amount: 0, quote_asset_amount: 0 }),
    {
        PositionDelta { base_asset_amount: 0, quote_asset_amount: 0 }
    }
}

/// Whether a change of `change` extends a holding of `held` rather than
/// running against it. A change of no base runs against nothing.
pub open spec fn extends_position(held: int, change: int) -> bool {
    held == 0 || change == 0 || (held > 0) == (change > 0)
}

/// How much of a holding a change against it closes: all of the change, or
/// all of the holding where the change is larger.
pub open spec fn closed_amount(held: int, change: int) -> nat {
    if magnitude(change) < magnitude(held) {
        magnitude(change)
    } else {
        magnitude(held)
    }
}

/// The part of the position's quote amount that belongs to the closed base.
pub open spec fn cost_basis(position: MarketPosition, delta: PositionDelta) -> int {
    (position.quote_asset_amount * closed_amount(
        position.base_asset_amount as int,
        delta.base_asset_amount as int,
    )) / (magnitude(position.base_asset_amount as int) as int)
}

/// The part of the change's quote amount that pays for the closed base.
pub open spec fn exit_value(position: MarketPosition, delta: PositionDelta) -> int {
    (delta.quote_asset_amount * closed_amount(
        position.base_asset_amount as int,
        delta.base_asset_amount as int,
    )) / (magnitude(delta.base_asset_amount as int) as int)
}

/// The position and market after `delta`, and the profit realised by it.
///
/// A change that extends the position adds base and quote and realises
/// nothing. A change against it closes base at its share of the quote paid:
/// a long gains the exit value less the cost basis, a short the reverse. If
/// the change is larger than the holding, the rest opens the opposite
/// position at the rest of the change's quote. The market's net base amount
/// moves by the change. A value out of range is an arithmetic failure.
pub open spec fn position_after_delta(
    position: MarketPosition,
    market: Market,
    delta: PositionDelta,
) -> Result<(MarketPosition, Market, i128), ErrorCode> {
    let held = position.base_asset_amount as int;
    let change = delta.base_asset_amount as int;
    let net = market.amm.net_base_asset_amount + change;
    let moved = Market { amm: AMM { net_base_asset_amount: net as i128, ..market.amm }, ..market };
    if !(i128::MIN <= net <= i128::MAX) {
        Err(ErrorCode::ArithmeticError)
    } else if extends_position(held, change) {
        let base = held + change;
        let quote = position.quote_asset_amount + delta.quote_asset_amount;
        if i128::MIN <= base <= i128::MAX && quote <= u128::MAX {
            Ok(
                (
                    MarketPosition {
                        base_asset_amount: base as i128,
                        quote_asset_amount: quote as u128,
                        ..position
                    },
                    moved,
                    0i128,
                ),
            )
        } else {
            Err(ErrorCode::ArithmeticError)
        }
    } else {
        let cost = cost_basis(position, delta);
        let exit = exit_value(position, delta);
        if cost > i128::MAX || exit > i128::MAX {
            Err(ErrorCode::ArithmeticError)
        } else {
            let pnl = if held > 0 {
                exit - cost
            } else {
                cost - exit
            };
            let quote = if magnitude(change) <= magnitude(held) {
                position.quote_asset_amount - cost
            } else {
                delta.quote_asset_amount - exit
            };
            Ok(
                (
                    MarketPosition {
                        base_asset_amount: (held + change) as i128,
                        quote_asset_amount: quote as u128,
                        ..position
                    },
                    moved,
                    pnl as i128,
                ),
            )
        }
    }
}

/// The position and market after `unsettled_pnl` is booked: the position's
/// unsettled amount moves by it, and the market's unsettled profit grows by
/// a gain, its unsettled loss by the size of a loss.
pub open spec fn position_after_unsettled_pnl(
    position: MarketPosition,
    market: Market,
    unsettled_pnl: i128,
) -> Result<(MarketPosition, Market), ErrorCode> {
    let booked = position.unsettled_pnl + unsettled_pnl;
    let profit = market.unsettled_profit + (if unsettled_pnl > 0 {
        unsettled_pnl as int
    } else {
        0
    });
    let loss = market.unsettled_loss + (if unsettled_pnl > 0 {
        0
    } else {
        -unsettled_pnl
    });
    if i128::MIN <= booked <= i128::MAX && profit <= u128::MAX && loss <= u128::MAX {
        Ok(
            (
                MarketPosition { unsettled_pnl: booked as i128, ..position },
                Market { unsettled_profit: profit as u128, unsettled_loss: loss as u128, ..market },
            ),
        )
    } else {
        Err(ErrorCode::ArithmeticError)
    }
}

/// Folds `delta` into `position` and `market` and returns the profit it
/// realises. On failure neither record is touched.
pub fn update_position_and_market(
    position: &mut MarketPosition,
    market: &mut Market,
    delta: &PositionDelta,
) -> (res: ClearingHouseResult<i128>)
    ensures
        match position_after_delta(*old(position), *old(market), *delta) {
            Ok((p, m, pnl)) => res == Ok::<i128, ErrorCode>(pnl) && *final(position) == p
                && *final(market) == m,
            Err(e) => res == Err::<i128, ErrorCode>(e) && *final(position) == *old(position)
                && *final(market) == *old(market),
        },
{
    let held = position.base_asset_amount;
    let change = delta.base_asset_amount;
    let net_base_asset_amount = safe_add_i128(market.amm.net_base_asset_amount, change)?;
    let increasing = held == 0 || change == 0 || (held > 0) == (change > 0);

    let new_base_asset_amount: i128;
    let new_quote_asset_amount: u128;
    let pnl: i128;
    if increasing {
        new_base_asset_amount = safe_add_i128(held, change)?;
        new_quote_asset_amount =
        safe_add_u128(position.quote_asset_amount, delta.quote_asset_amount)?;
        pnl = 0;
    } else {
        let held_unsigned = unsigned_abs(held);
        let change_unsigned = unsigned_abs(change);
        let closed = if change_unsigned < held_unsigned {
            change_unsigned
        } else {
            held_unsigned
        };
        proof {
            lemma_proportion_of_part(position.quote_asset_amount, closed, held_unsigned);
            lemma_proportion_of_part(delta.quote_asset_amount, closed, change_unsigned);
        }
        let cost = get_proportion_u128(position.quote_asset_amount, closed, held_unsigned)?;
        let exit = get_proportion_u128(delta.quote_asset_amount, closed, change_unsigned)?;
        let cost_signed = cast_to_i128(cost)?;
        let exit_signed = cast_to_i128(exit)?;
        pnl =
        if held > 0 {
            exit_signed - cost_signed
        } else {
            cost_signed - exit_signed
        };
        new_quote_asset_amount =
        if change_unsigned <= held_unsigned {
            position.quote_asset_amount - cost
        } else {
            delta.quote_asset_amount - exit
        };
        new_base_asset_amount = held + change;
    }

    position.base_asset_amount = new_base_asset_amount;
    position.quote_asset_amount = new_quote_asset_amount;
    market.amm.net_base_asset_amount = net_base_asset_amount;

    Ok(pnl)
}

/// Books `unsettled_pnl` to `position` and `market`. On failure neither
/// record is touched.
pub fn update_unsettled_pnl(
    position: &mut MarketPosition,
    market: &mut Market,
    unsettled_pnl: i128,
) -> (res: ClearingHouseResult<()>)
    ensures
        match position_after_unsettled_pnl(*old(position), *old(market), unsettled_pnl) {
            Ok((p, m)) => res is Ok && *final(position) == p && *final(market) == m,
            Err(e) => res == Err::<(), ErrorCode>(e) && *final(position) == *old(position)
                && *final(market) == *old(market),
        },
{
    let new_unsettled_pnl = safe_add_i128(position.unsettled_pnl, unsettled_pnl)?;
    let amount = unsigned_abs(unsettled_pnl);
    if unsettled_pnl > 0 {
        let unsettled_profit = safe_add_u128(market.unsettled_profit, amount)?;
        market.unsettled_profit = unsettled_profit;
    } else {
        let unsettled_loss = safe_add_u128(market.unsettled_loss, amount)?;
        market.unsettled_loss = unsettled_loss;
    }
    position.unsettled_pnl = new_unsettled_pnl;
    Ok(())
}

/// A change of nothing changes nothing and realises nothing.
pub proof fn lemma_empty_delta_is_identity(position: MarketPosition, market: Market)
    ensures
        position_after_delta(
            position,
            market,
            PositionDelta { base_asset_amount: 0, quote_asset_amount: 0 },
        ) == Ok::<(MarketPosition, Market, i128), ErrorCode>((position, market, 0i128)),
        position_after_unsettled_pnl(position, market, 0) == Ok::<
            (MarketPosition, Market),
            ErrorCode,
        >((position, market)),
{
}

/// Whatever a change does to the quote amounts, it moves the position's
/// base and the market's net base by exactly its own base amount, and
/// touches nothing else but the position's quote amount.
pub proof fn lemma_delta_moves_base_alike(
    position: MarketPosition,
    market: Market,
    delta: PositionDelta,
)
    requires
        position_after_delta(position, market, delta) is Ok,
    ensures
        ({
            let (p, m, _pnl) = position_after_delta(position, market, delta)->Ok_0;
            &&& p.base_asset_amount == position.base_asset_amount + delta.base_asset_amount
            &&& m.amm.net_base_asset_amount == market.amm.net_base_asset_amount
                + delta.base_asset_amount
            &&& p == MarketPosition {
                base_asset_amount: p.base_asset_amount,
                quote_asset_amount: p.quote_asset_amount,
                ..position
            }
            &&& m == Market {
                amm: AMM { net_base_asset_amount: m.amm.net_base_asset_amount, ..market.amm },
                ..market
            }
        }),
{
}

/// A change that closes a position exactly leaves no base and no quote: the
/// whole cost basis is set against the whole exit value.
pub proof fn lemma_exact_close_empties_position(
    position: MarketPosition,
    market: Market,
    delta: PositionDelta,
)
    requires
        position.base_asset_amount != 0,
        delta.base_asset_amount == -position.base_asset_amount,
        position_after_delta(position, market, delta) is Ok,
    ensures
        ({
            let (p, _m, pnl) = position_after_delta(position, market, delta)->Ok_0;
            &&& p.base_asset_amount == 0
            &&& p.quote_asset_amount == 0
            &&& position.base_asset_amount > 0 ==> pnl == delta.quote_asset_amount
                - position.quote_asset_amount
            &&& position.base_asset_amount < 0 ==> pnl == position.quote_asset_amount
                - delta.quote_asset_amount
        }),
{
    let n = magnitude(position.base_asset_amount as int);
    assert(closed_amount(position.base_asset_amount as int, delta.base_asset_amount as int) == n);
    assert(magnitude(delta.base_asset_amount as int) == n);
    vstd::arithmetic::div_mod::lemma_div_multiples_vanish(
        position.quote_asset_amount as int,
        n as int,
    );
    vstd::arithmetic::div_mod::lemma_div_multiples_vanish(delta.quote_asset_amount as int, n as int);
    vstd::arithmetic::mul::lemma_mul_is_commutative(position.quote_asset_amount as int, n as int);
    vstd::arithmetic::mul::lemma_mul_is_commutative(delta.quote_asset_amount as int, n as int);
}

} // verus!
