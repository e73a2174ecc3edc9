use clearing_house::controller::position::{
    update_position_and_market, update_unsettled_pnl, PositionDelta,
};
use clearing_house::error::ErrorCode;
use clearing_house::state::market::Market;
use clearing_house::MarketPosition;

fn position(base: i128, quote: u128) -> MarketPosition {
    MarketPosition { base_asset_amount: base, quote_asset_amount: quote, ..MarketPosition::default() }
}

fn delta(base: i128, quote: u128) -> PositionDelta {
    PositionDelta { base_asset_amount: base, quote_asset_amount: quote }
}

#[test]
fn defaults_are_zero() {
    let p = MarketPosition::default();
    assert_eq!(p.base_asset_amount, 0);
    assert_eq!(p.quote_asset_amount, 0);
    assert_eq!(p.unsettled_pnl, 0);
    assert_eq!(p.lp_shares, 0);
    assert_eq!(p.last_cumulative_fee_per_lp, 0);
    assert_eq!(p.last_cumulative_net_base_asset_amount_per_lp, 0);
    assert_eq!(p.last_cumulative_net_quote_asset_amount_per_lp, 0);
    let m = Market::default();
    assert_eq!(m.amm.sqrt_k, 0);
    assert_eq!(m.amm.base_asset_reserve, 0);
    assert_eq!(m.amm.quote_asset_reserve, 0);
    assert_eq!(m.amm.user_lp_shares, 0);
    assert_eq!(m.amm.net_base_asset_amount, 0);
    assert_eq!(m.amm.net_unsettled_lp_base_asset_amount, 0);
    assert_eq!(m.amm.market_position_per_lp.base_asset_amount, 0);
    assert_eq!(m.amm.market_position_per_lp.quote_asset_amount, 0);
    assert_eq!(m.amm.market_position_per_lp.unsettled_pnl, 0);
    assert_eq!(m.unsettled_profit, 0);
    assert_eq!(m.unsettled_loss, 0);
    assert_eq!(PositionDelta::default(), delta(0, 0));
}

#[test]
fn opening_a_position_realises_nothing() {
    let mut p = MarketPosition::default();
    let mut m = Market::default();
    assert_eq!(update_position_and_market(&mut p, &mut m, &delta(10, 1000)), Ok(0));
    assert_eq!(p, position(10, 1000));
    assert_eq!(m.amm.net_base_asset_amount, 10);
}

#[test]
fn increasing_a_long_adds_base_and_quote() {
    let mut p = position(10, 1000);
    let mut m = Market::default();
    m.amm.net_base_asset_amount = 10;
    assert_eq!(update_position_and_market(&mut p, &mut m, &delta(5, 700)), Ok(0));
    assert_eq!(p, position(15, 1700));
    assert_eq!(m.amm.net_base_asset_amount, 15);
}

#[test]
fn increasing_a_short_adds_base_and_quote() {
    let mut p = position(-10, 1000);
    let mut m = Market::default();
    assert_eq!(update_position_and_market(&mut p, &mut m, &delta(-5, 700)), Ok(0));
    assert_eq!(p, position(-15, 1700));
    assert_eq!(m.amm.net_base_asset_amount, -5);
}

#[test]
fn reducing_a_long_realises_exit_less_cost() {
    let mut p = position(10, 1000);
    let mut m = Market::default();
    assert_eq!(update_position_and_market(&mut p, &mut m, &delta(-4, 500)), Ok(100));
    assert_eq!(p, position(6, 600));
    assert_eq!(m.amm.net_base_asset_amount, -4);
}

#[test]
fn reducing_a_short_realises_cost_less_exit() {
    let mut p = position(-10, 1000);
    let mut m = Market::default();
    assert_eq!(update_position_and_market(&mut p, &mut m, &delta(4, 300)), Ok(100));
    assert_eq!(p, position(-6, 600));
    assert_eq!(m.amm.net_base_asset_amount, 4);
}

#[test]
fn reducing_at_a_loss_realises_a_negative_amount() {
    let mut p = position(10, 1000);
    let mut m = Market::default();
    assert_eq!(update_position_and_market(&mut p, &mut m, &delta(-5, 350)), Ok(-150));
    assert_eq!(p, position(5, 500));
}

#[test]
fn closing_exactly_leaves_nothing() {
    let mut p = position(10, 1000);
    let mut m = Market::default();
    m.amm.net_base_asset_amount = 10;
    assert_eq!(update_position_and_market(&mut p, &mut m, &delta(-10, 900)), Ok(-100));
    assert_eq!(p, position(0, 0));
    assert_eq!(m.amm.net_base_asset_amount, 0);
}

#[test]
fn flipping_closes_then_opens_the_rest() {
    let mut p = position(10, 1000);
    let mut m = Market::default();
    assert_eq!(update_position_and_market(&mut p, &mut m, &delta(-15, 1800)), Ok(200));
    assert_eq!(p, position(-5, 600));
    assert_eq!(m.amm.net_base_asset_amount, -15);

    let mut p = position(-10, 1000);
    let mut m = Market::default();
    assert_eq!(update_position_and_market(&mut p, &mut m, &delta(30, 2400)), Ok(200));
    assert_eq!(p, position(20, 1600));
    assert_eq!(m.amm.net_base_asset_amount, 30);
}

#[test]
fn cost_basis_rounds_down() {
    let mut p = position(3, 100);
    let mut m = Market::default();
    // cost basis 100 * 1 / 3 = 33, exit value 40
    assert_eq!(update_position_and_market(&mut p, &mut m, &delta(-1, 40)), Ok(7));
    assert_eq!(p, position(2, 67));
}

#[test]
fn an_empty_delta_changes_nothing() {
    let mut p = position(-7, 123);
    p.unsettled_pnl = -9;
    p.lp_shares = 4;
    let mut m = Market::default();
    m.amm.net_base_asset_amount = 55;
    let (position_before, market_before) = (p, m);
    assert_eq!(update_position_and_market(&mut p, &mut m, &delta(0, 0)), Ok(0));
    assert_eq!((p, m), (position_before, market_before));
    assert_eq!(update_unsettled_pnl(&mut p, &mut m, 0), Ok(()));
    assert_eq!((p, m), (position_before, market_before));
}

#[test]
fn delta_overflow_is_rejected_and_changes_nothing() {
    let mut p = position(i128::MAX, 5);
    let mut m = Market::default();
    let (position_before, market_before) = (p, m);
    assert_eq!(
        update_position_and_market(&mut p, &mut m, &delta(1, 1)),
        Err(ErrorCode::ArithmeticError)
    );
    assert_eq!((p, m), (position_before, market_before));

    let mut p = position(1, u128::MAX);
    assert_eq!(
        update_position_and_market(&mut p, &mut m, &delta(1, 1)),
        Err(ErrorCode::ArithmeticError)
    );
    assert_eq!(p, position(1, u128::MAX));
    assert_eq!(m, market_before);

    let mut p = position(1, 1);
    m.amm.net_base_asset_amount = i128::MIN;
    let market_once = m;
    assert_eq!(
        update_position_and_market(&mut p, &mut m, &delta(-1, 1)),
        Err(ErrorCode::ArithmeticError)
    );
    assert_eq!((p, m), (position(1, 1), market_once));

    // the exit value does not fit a signed amount
    let mut p = position(1, 1);
    let mut m = Market::default();
    assert_eq!(
        update_position_and_market(&mut p, &mut m, &delta(-1, u128::MAX)),
        Err(ErrorCode::ArithmeticError)
    );
    assert_eq!((p, m), (position(1, 1), Market::default()));
}

#[test]
fn a_gain_is_booked_as_profit() {
    let mut p = position(1, 1);
    p.unsettled_pnl = -20;
    let mut m = Market::default();
    m.unsettled_profit = 5;
    m.unsettled_loss = 6;
    assert_eq!(update_unsettled_pnl(&mut p, &mut m, 50), Ok(()));
    assert_eq!(p.unsettled_pnl, 30);
    assert_eq!(m.unsettled_profit, 55);
    assert_eq!(m.unsettled_loss, 6);
    assert_eq!((p.base_asset_amount, p.quote_asset_amount), (1, 1));
}

#[test]
fn a_loss_is_booked_as_loss() {
    let mut p = MarketPosition::default();
    let mut m = Market::default();
    m.unsettled_profit = 5;
    m.unsettled_loss = 6;
    assert_eq!(update_unsettled_pnl(&mut p, &mut m, -50), Ok(()));
    assert_eq!(p.unsettled_pnl, -50);
    assert_eq!(m.unsettled_profit, 5);
    assert_eq!(m.unsettled_loss, 56);

    assert_eq!(update_unsettled_pnl(&mut p, &mut m, i128::MIN + 50), Ok(()));
    assert_eq!(p.unsettled_pnl, i128::MIN);
    assert_eq!(m.unsettled_loss, 170141183460469231731687303715884105734);
}

#[test]
fn unsettled_pnl_overflow_is_rejected_and_changes_nothing() {
    let mut p = MarketPosition::default();
    p.unsettled_pnl = i128::MAX;
    let mut m = Market::default();
    let (position_before, market_before) = (p, m);
    assert_eq!(update_unsettled_pnl(&mut p, &mut m, 1), Err(ErrorCode::ArithmeticError));
    assert_eq!((p, m), (position_before, market_before));

    let mut p = MarketPosition::default();
    m.unsettled_profit = u128::MAX;
    let market_once = m;
    assert_eq!(update_unsettled_pnl(&mut p, &mut m, 1), Err(ErrorCode::ArithmeticError));
    assert_eq!((p, m), (MarketPosition::default(), market_once));

    m.unsettled_profit = 0;
    m.unsettled_loss = u128::MAX;
    let market_twice = m;
    assert_eq!(update_unsettled_pnl(&mut p, &mut m, -1), Err(ErrorCode::ArithmeticError));
    assert_eq!((p, m), (MarketPosition::default(), market_twice));
}
