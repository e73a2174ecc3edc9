//! Rescaling the AMM's depth without moving its price.
//!
//! The mark price is the ratio of the quote reserve to the base reserve. To
//! change the depth from `sqrt_k` to `new_sqrt_k`, both reserves are
//! multiplied by `new_sqrt_k / sqrt_k`, so that their product scales with
//! the square of the depth while their ratio stays where it was, up to the
//! rounding of each reserve to a whole unit.

use crate::error::{ClearingHouseResult, ErrorCode};
use crate::math::constants::{PRICE_PRECISION, PRICE_TOLERANCE_DENOMINATOR};
use crate::math::safe_math::{get_proportion_u128, proportion};
use crate::state::market::{Market, AMM};
use vstd::arithmetic::div_mod::{lemma_div_is_ordered, lemma_fundamental_div_mod};
use vstd::prelude::*;

verus! {

/// The reserves and depth that a rescale would install. Computing it changes
/// nothing, so a caller can inspect it before committing.
#[derive(Clone, Copy, Debug, PartialEq, Eq, Structural)]
pub struct UpdateKResult {
    pub sqrt_k: u128,
    pub base_asset_reserve: u128,
    pub quote_asset_reserve: u128,
}

/// The mark price of the given reserves in units of `PRICE_PRECISION`,
/// rounded down.
pub open spec fn mark_price(quote_asset_reserve: u128, base_asset_reserve: u128) -> Result<
    u128,
    ErrorCode,
> {
    proportion(quote_asset_reserve, PRICE_PRECISION, base_asset_reserve)
}

/// Whether a price of `after` is within the tolerance of a price of `before`.
pub open spec fn price_within_tolerance(before: u128, after: u128) -> bool {
    let drift = if after >= before {
        after - before
    } else {
        before - after
    };
    drift <= before / PRICE_TOLERANCE_DENOMINATOR
}

/// Whether a change of depth from `sqrt_k` to `new_sqrt_k` goes the way
/// that `is_increase` declares. Standing still goes either way.
pub open spec fn direction_holds(sqrt_k: u128, new_sqrt_k: u128, is_increase: bool) -> bool {
    if is_increase {
        new_sqrt_k >= sqrt_k
    } else {
        new_sqrt_k <= sqrt_k
    }
}

/// The outcome of rescaling `amm` to a depth of `new_sqrt_k`.
///
/// A target of zero, or one on the wrong side of the present depth, is an
/// invalid invariant. Each reserve is scaled by `new_sqrt_k / sqrt_k` and
/// rounded down; a present depth of zero or a reserve beyond `u128::MAX` is
/// an arithmetic failure. A reserve rounded down to nothing leaves no
/// price, and a mark price moved by more than the tolerance is no longer
/// the same price: both are invalid invariants.
pub open spec fn update_k_result(amm: AMM, new_sqrt_k: u128, is_increase: bool) -> Result<
    UpdateKResult,
    ErrorCode,
> {
    if new_sqrt_k == 0 || !direction_holds(amm.sqrt_k, new_sqrt_k, is_increase) {
        Err(ErrorCode::InvalidInvariant)
    } else {
        match (
            proportion(amm.base_asset_reserve, new_sqrt_k, amm.sqrt_k),
            proportion(amm.quote_asset_reserve, new_sqrt_k, amm.sqrt_k),
        ) {
            (Ok(base), Ok(quote)) => {
                if base == 0 || quote == 0 {
                    Err(ErrorCode::InvalidInvariant)
                } else {
                    match (
                        mark_price(amm.quote_asset_reserve, amm.base_asset_reserve),
                        mark_price(quote, base),
                    ) {
                        (Ok(before), Ok(after)) => {
                            if price_within_tolerance(before, after) {
                                Ok(
                                    UpdateKResult {
                                        sqrt_k: new_sqrt_k,
                                        base_asset_reserve: base,
                                        quote_asset_reserve: quote,
                                    },
                                )
                            } else {
                                Err(ErrorCode::InvalidInvariant)
                            }
                        },
                        _ => Err(ErrorCode::ArithmeticError),
                    }
                }
            },
            _ => Err(ErrorCode::ArithmeticError),
        }
    }
}

/// The market after `result` is committed. A result with a zero in it, or
/// with less depth than the shares that holders have outstanding, is an
/// invalid invariant.
pub open spec fn market_after_update_k(market: Market, result: UpdateKResult) -> Result<
    Market,
    ErrorCode,
> {
    if result.sqrt_k == 0 || result.base_asset_reserve == 0 || result.quote_asset_reserve == 0
        || result.sqrt_k < market.amm.user_lp_shares {
        Err(ErrorCode::InvalidInvariant)
    } else {
        Ok(
            Market {
                amm: AMM {
                    sqrt_k: result.sqrt_k,
                    base_asset_reserve: result.base_asset_reserve,
                    quote_asset_reserve: result.quote_asset_reserve,
                    ..market.amm
                },
                ..market
            },
        )
    }
}

/// How far rounding can part the price after a rescale from the price before
/// it, stated without division: the two cross products of old and new
/// reserves differ by less than one old reserve. Where both scalings are
/// exact, the cross products are equal and the price has not moved at all.
pub open spec fn price_preserved(amm: AMM, result: UpdateKResult) -> bool {
    let cross_new = amm.base_asset_reserve * result.quote_asset_reserve;
    let cross_old = result.base_asset_reserve * amm.quote_asset_reserve;
    &&& cross_new - cross_old < amm.quote_asset_reserve
    &&& cross_old - cross_new < amm.base_asset_reserve
    &&& ((amm.base_asset_reserve * result.sqrt_k) % (amm.sqrt_k as int) == 0 && (
    amm.quote_asset_reserve * result.sqrt_k) % (amm.sqrt_k as int) == 0) ==> cross_new
        == cross_old
}

/// How the product of the reserves follows the depth, stated without
/// division: the product scales with the square of the depth, short of it
/// by less than what one more unit of each reserve would add.
pub open spec fn product_scaled(amm: AMM, result: UpdateKResult) -> bool {
    let old_product = amm.base_asset_reserve * amm.quote_asset_reserve;
    let new_product = result.base_asset_reserve * result.quote_asset_reserve;
    let next_product = (result.base_asset_reserve + 1) * (result.quote_asset_reserve + 1);
    let old_k = amm.sqrt_k * amm.sqrt_k;
    let new_k = result.sqrt_k * result.sqrt_k;
    &&& new_product * old_k <= old_product * new_k < next_product * old_k
    &&& ((amm.base_asset_reserve * result.sqrt_k) % (amm.sqrt_k as int) == 0 && (
    amm.quote_asset_reserve * result.sqrt_k) % (amm.sqrt_k as int) == 0) ==> new_product * old_k
        == old_product * new_k
}

/// The mark price of the given reserves.
pub fn calculate_price(quote_asset_reserve: u128, base_asset_reserve: u128) -> (res:
    ClearingHouseResult<u128>)
    ensures
        res == mark_price(quote_asset_reserve, base_asset_reserve),
{
    get_proportion_u128(quote_asset_reserve, PRICE_PRECISION, base_asset_reserve)
}

/// Computes the reserves for a depth of `new_sqrt_k` at the present price.
/// The market is not changed.
pub fn get_update_k_result(market: &Market, new_sqrt_k: u128, is_increase: bool) -> (res:
    ClearingHouseResult<UpdateKResult>)
    ensures
        res == update_k_result(market.amm, new_sqrt_k, is_increase),
        res matches Ok(k) ==> k.sqrt_k == new_sqrt_k && price_preserved(market.amm, k)
            && product_scaled(market.amm, k),
{
    let old_sqrt_k = market.amm.sqrt_k;
    if new_sqrt_k == 0 {
        return Err(ErrorCode::InvalidInvariant);
    }
    if (is_increase && new_sqrt_k < old_sqrt_k) || (!is_increase && new_sqrt_k > old_sqrt_k) {
        return Err(ErrorCode::InvalidInvariant);
    }
    let base_asset_reserve = get_proportion_u128(
        market.amm.base_asset_reserve,
        new_sqrt_k,
        old_sqrt_k,
    )?;
    let quote_asset_reserve = get_proportion_u128(
        market.amm.quote_asset_reserve,
        new_sqrt_k,
        old_sqrt_k,
    )?;
    if base_asset_reserve == 0 || quote_asset_reserve == 0 {
        return Err(ErrorCode::InvalidInvariant);
    }
    let price_before = calculate_price(
        market.amm.quote_asset_reserve,
        market.amm.base_asset_reserve,
    )?;
    let price_after = calculate_price(quote_asset_reserve, base_asset_reserve)?;
    let drift = if price_after >= price_before {
        price_after - price_before
    } else {
        price_before - price_after
    };
    if drift > price_before / PRICE_TOLERANCE_DENOMINATOR {
        return Err(ErrorCode::InvalidInvariant);
    }
    proof {
        lemma_rescale_preserves_price(market.amm, new_sqrt_k, is_increase);
    }
    Ok(UpdateKResult { sqrt_k: new_sqrt_k, base_asset_reserve, quote_asset_reserve })
}

/// Commits a rescale to the market. On failure the market is not touched.
pub fn update_k(market: &mut Market, update_k_result: &UpdateKResult) -> (res: ClearingHouseResult<
    (),
>)
    ensures
        match market_after_update_k(*old(market), *update_k_result) {
            Ok(m) => res is Ok && *final(market) == m,
            Err(e) => res == Err::<(), ErrorCode>(e) && *final(market) == *old(market),
        },
{
    if update_k_result.sqrt_k == 0 || update_k_result.base_asset_reserve == 0
        || update_k_result.quote_asset_reserve == 0 || update_k_result.sqrt_k
        < market.amm.user_lp_shares {
        return Err(ErrorCode::InvalidInvariant);
    }
    market.amm.base_asset_reserve = update_k_result.base_asset_reserve;
    market.amm.quote_asset_reserve = update_k_result.quote_asset_reserve;
    market.amm.sqrt_k = update_k_result.sqrt_k;
    Ok(())
}

/// Rounding a scaled reserve down loses less than one unit: `scaled` is the
/// largest whole number with `scaled * old <= reserve * new`.
proof fn lemma_scaled_bounds(reserve: u128, new: u128, old: u128)
    requires
        old > 0,
    ensures
        ({
            let scaled = (reserve * new) / (old as int);
            &&& 0 <= scaled
            &&& scaled * old <= reserve * new < (scaled + 1) * old
            &&& (reserve * new) % (old as int) == 0 ==> scaled * old == reserve * new
        }),
{
    let x: int = reserve * new;
    assert(0 <= x) by (nonlinear_arith)
        requires
            x == reserve * new,
    ;
    lemma_fundamental_div_mod(x, old as int);
    lemma_div_is_ordered(0, x, old as int);
    let q = x / (old as int);
    assert(q * old == old * q && (q + 1) * old == old * q + old) by (nonlinear_arith);
}

/// A rescale keeps the price: one that succeeds installs the depth asked
/// for and leaves the ratio of the reserves where it was, up to the
/// rounding of each reserve to a whole unit, and exactly where the scaling
/// is exact. The product of the reserves follows the square of the
/// depth, and both reserves move the way the depth moves.
pub proof fn lemma_rescale_preserves_price(amm: AMM, new_sqrt_k: u128, is_increase: bool)
    requires
        update_k_result(amm, new_sqrt_k, is_increase) is Ok,
    ensures
        ({
            let k = update_k_result(amm, new_sqrt_k, is_increase)->Ok_0;
            &&& k.sqrt_k == new_sqrt_k
            &&& price_preserved(amm, k)
            &&& product_scaled(amm, k)
            &&& new_sqrt_k <= amm.sqrt_k ==> k.base_asset_reserve <= amm.base_asset_reserve
                && k.quote_asset_reserve <= amm.quote_asset_reserve
            &&& new_sqrt_k >= amm.sqrt_k ==> k.base_asset_reserve >= amm.base_asset_reserve
                && k.quote_asset_reserve >= amm.quote_asset_reserve
            &&& mark_price(amm.quote_asset_reserve, amm.base_asset_reserve) matches Ok(before)
                && mark_price(k.quote_asset_reserve, k.base_asset_reserve) matches Ok(after)
                && price_within_tolerance(before, after)
        }),
{
    let k = update_k_result(amm, new_sqrt_k, is_increase)->Ok_0;
    let b: int = amm.base_asset_reserve as int;
    let q: int = amm.quote_asset_reserve as int;
    let n: int = new_sqrt_k as int;
    let o: int = amm.sqrt_k as int;
    let b2: int = k.base_asset_reserve as int;
    let q2: int = k.quote_asset_reserve as int;
    assert(o > 0);
    lemma_scaled_bounds(amm.base_asset_reserve, new_sqrt_k, amm.sqrt_k);
    lemma_scaled_bounds(amm.quote_asset_reserve, new_sqrt_k, amm.sqrt_k);
    assert(b2 == (b * n) / o);
    assert(q2 == (q * n) / o);
    assert(b > 0 && q > 0) by (nonlinear_arith)
        requires
            b2 > 0,
            q2 > 0,
            b2 * o <= b * n,
            q2 * o <= q * n,
            o > 0,
            n > 0,
            b >= 0,
            q >= 0,
    ;
    // b * q2 * o <= b * q * n == q * (b * n) < q * (b2 + 1) * o
    assert(b * q2 - b2 * q < q) by (nonlinear_arith)
        requires
            q2 * o <= q * n,
            b * n < (b2 + 1) * o,
            o > 0,
            b > 0,
            q > 0,
    ;
    assert(b2 * q - b * q2 < b) by (nonlinear_arith)
        requires
            b2 * o <= b * n,
            q * n < (q2 + 1) * o,
            o > 0,
            b > 0,
            q > 0,
    ;
    if (b * n) % o == 0 && (q * n) % o == 0 {
        assert(b * q2 == b2 * q) by (nonlinear_arith)
            requires
                b2 * o == b * n,
                q2 * o == q * n,
                o > 0,
        ;
    }
    if (b * n) % o == 0 && (q * n) % o == 0 {
        assert((b2 * q2) * (o * o) == (b * q) * (n * n)) by (nonlinear_arith)
            requires
                b2 * o == b * n,
                q2 * o == q * n,
        ;
    }
    assert((b2 * q2) * (o * o) <= (b * q) * (n * n) < ((b2 + 1) * (q2 + 1)) * (o * o))
        by (nonlinear_arith)
        requires
            b2 * o <= b * n < (b2 + 1) * o,
            q2 * o <= q * n < (q2 + 1) * o,
            o > 0,
            n > 0,
            b > 0,
            q > 0,
            b2 > 0,
            q2 > 0,
    ;
    if n <= o {
        assert(b2 <= b && q2 <= q) by (nonlinear_arith)
            requires
                b2 * o <= b * n,
                q2 * o <= q * n,
                0 < n <= o,
                b > 0,
                q > 0,
                b2 >= 0,
                q2 >= 0,
        ;
    }
    if n >= o {
        assert(b2 >= b && q2 >= q) by (nonlinear_arith)
            requires
                b * n < (b2 + 1) * o,
                q * n < (q2 + 1) * o,
                0 < o <= n,
                b > 0,
                q > 0,
        ;
    }
}

/// Where the reserves multiply to the square of the depth and the new depth
/// divides evenly into both, a rescale keeps both the invariant and the
/// price exactly: the new reserves multiply to the square of the new depth,
/// and their ratio is the old ratio.
pub proof fn lemma_exact_rescale_keeps_invariant(amm: AMM, new_sqrt_k: u128, is_increase: bool)
    requires
        update_k_result(amm, new_sqrt_k, is_increase) is Ok,
        amm.base_asset_reserve * amm.quote_asset_reserve == amm.sqrt_k * amm.sqrt_k,
        (amm.base_asset_reserve * new_sqrt_k) % (amm.sqrt_k as int) == 0,
        (amm.quote_asset_reserve * new_sqrt_k) % (amm.sqrt_k as int) == 0,
    ensures
        ({
            let k = update_k_result(amm, new_sqrt_k, is_increase)->Ok_0;
            &&& k.base_asset_reserve * k.quote_asset_reserve == new_sqrt_k * new_sqrt_k
            &&& amm.base_asset_reserve * k.quote_asset_reserve == k.base_asset_reserve
                * amm.quote_asset_reserve
        }),
{
    let k = update_k_result(amm, new_sqrt_k, is_increase)->Ok_0;
    lemma_rescale_preserves_price(amm, new_sqrt_k, is_increase);
    let old_k: int = amm.sqrt_k * amm.sqrt_k;
    let new_k: int = new_sqrt_k * new_sqrt_k;
    let new_product: int = k.base_asset_reserve * k.quote_asset_reserve;
    assert(new_product == new_k) by (nonlinear_arith)
        requires
            new_product * old_k == old_k * new_k,
            old_k == amm.sqrt_k * amm.sqrt_k,
            amm.sqrt_k > 0,
    ;
}

} // verus!
