use clearing_house::error::ErrorCode;
use clearing_house::math::amm::{calculate_price, get_update_k_result, update_k, UpdateKResult};
use clearing_house::math::constants::{PRICE_PRECISION, PRICE_TOLERANCE_DENOMINATOR};
use clearing_house::state::market::Market;

fn market(base: u128, quote: u128, sqrt_k: u128) -> Market {
    let mut m = Market::default();
    m.amm.base_asset_reserve = base;
    m.amm.quote_asset_reserve = quote;
    m.amm.sqrt_k = sqrt_k;
    m
}

#[test]
fn constants_have_their_values() {
    assert_eq!(PRICE_PRECISION, 10_000_000_000);
    assert_eq!(PRICE_TOLERANCE_DENOMINATOR, 10_000);
}

#[test]
fn price_is_quote_over_base() {
    assert_eq!(calculate_price(1_000_000, 1_000_000), Ok(10_000_000_000));
    assert_eq!(calculate_price(500_000, 2_000_000), Ok(2_500_000_000));
    assert_eq!(calculate_price(10, 3), Ok(33_333_333_333));
    assert_eq!(calculate_price(0, 3), Ok(0));
    assert_eq!(calculate_price(3, 0), Err(ErrorCode::ArithmeticError));
    assert_eq!(calculate_price(u128::MAX, 1), Err(ErrorCode::ArithmeticError));
}

#[test]
fn shrinking_scales_both_reserves() {
    let m = market(2_000_000, 500_000, 1_000_000);
    let before = m;
    assert_eq!(
        get_update_k_result(&m, 990_000, false),
        Ok(UpdateKResult {
            sqrt_k: 990_000,
            base_asset_reserve: 1_980_000,
            quote_asset_reserve: 495_000
        })
    );
    assert_eq!(m, before);
    assert_eq!(calculate_price(495_000, 1_980_000), calculate_price(500_000, 2_000_000));
}

#[test]
fn growing_scales_both_reserves() {
    let m = market(3_000_000, 7_000_000, 1_000);
    assert_eq!(
        get_update_k_result(&m, 1_500, true),
        Ok(UpdateKResult {
            sqrt_k: 1_500,
            base_asset_reserve: 4_500_000,
            quote_asset_reserve: 10_500_000
        })
    );
}

#[test]
fn standing_still_goes_either_way() {
    let m = market(3_000_000, 7_000_000, 1_000);
    let same =
        UpdateKResult { sqrt_k: 1_000, base_asset_reserve: 3_000_000, quote_asset_reserve: 7_000_000 };
    assert_eq!(get_update_k_result(&m, 1_000, true), Ok(same));
    assert_eq!(get_update_k_result(&m, 1_000, false), Ok(same));
}

#[test]
fn scaled_reserves_round_down_within_tolerance() {
    let m = market(1_000_003, 2_000_007, 1_000);
    let k = get_update_k_result(&m, 999, false).unwrap();
    assert_eq!(k.sqrt_k, 999);
    assert_eq!(k.base_asset_reserve, 999_002);
    assert_eq!(k.quote_asset_reserve, 1_998_006);
    assert_eq!(calculate_price(2_000_007, 1_000_003), Ok(20_000_009_999));
    assert_eq!(calculate_price(1_998_006, 999_002), Ok(20_000_020_019));
    // the cross products differ by less than one old reserve
    let cross_new = 1_000_003u128 * 1_998_006;
    let cross_old = 999_002u128 * 2_000_007;
    assert_eq!(cross_new - cross_old, 1_001_004);
    assert!(cross_new - cross_old < 2_000_007);
}

#[test]
fn reserves_scale_at_full_width() {
    let m = market(u128::MAX, u128::MAX - 1, u128::MAX);
    assert_eq!(
        get_update_k_result(&m, u128::MAX, false),
        Ok(UpdateKResult {
            sqrt_k: u128::MAX,
            base_asset_reserve: u128::MAX,
            quote_asset_reserve: u128::MAX - 1
        })
    );
}

#[test]
fn zero_target_is_invalid() {
    let m = market(1_000, 1_000, 1_000);
    assert_eq!(get_update_k_result(&m, 0, false), Err(ErrorCode::InvalidInvariant));
    assert_eq!(get_update_k_result(&m, 0, true), Err(ErrorCode::InvalidInvariant));
}

#[test]
fn target_against_the_direction_is_invalid() {
    let m = market(1_000, 1_000, 1_000);
    assert_eq!(get_update_k_result(&m, 999, true), Err(ErrorCode::InvalidInvariant));
    assert_eq!(get_update_k_result(&m, 1_001, false), Err(ErrorCode::InvalidInvariant));
}

#[test]
fn price_beyond_tolerance_is_invalid() {
    // 3 -> 1 and 10 -> 5: the price would go from 3.33 to 5
    let m = market(3, 10, 10);
    assert_eq!(get_update_k_result(&m, 5, false), Err(ErrorCode::InvalidInvariant));
}

#[test]
fn vanishing_reserve_is_invalid() {
    let m = market(1, 10, 10);
    assert_eq!(get_update_k_result(&m, 5, false), Err(ErrorCode::InvalidInvariant));
    let m = market(10, 1, 10);
    assert_eq!(get_update_k_result(&m, 5, false), Err(ErrorCode::InvalidInvariant));
}

#[test]
fn rescale_arithmetic_failures() {
    // no present depth to scale from
    let m = market(1_000, 1_000, 0);
    assert_eq!(get_update_k_result(&m, 5, true), Err(ErrorCode::ArithmeticError));
    // a reserve beyond the range
    let m = market(u128::MAX, 1_000, 1);
    assert_eq!(get_update_k_result(&m, 2, true), Err(ErrorCode::ArithmeticError));
    let m = market(1_000, u128::MAX, 1);
    assert_eq!(get_update_k_result(&m, 2, true), Err(ErrorCode::ArithmeticError));
    // a price beyond the range
    let m = market(1, u128::MAX, 1);
    assert_eq!(get_update_k_result(&m, 1, true), Err(ErrorCode::ArithmeticError));
}

#[test]
fn update_k_commits_the_result() {
    let mut m = market(2_000_000, 500_000, 1_000_000);
    m.amm.user_lp_shares = 100;
    m.amm.net_base_asset_amount = -3;
    m.unsettled_profit = 9;
    let k = UpdateKResult { sqrt_k: 990_000, base_asset_reserve: 1_980_000, quote_asset_reserve: 495_000 };
    assert_eq!(update_k(&mut m, &k), Ok(()));
    let mut expected = market(1_980_000, 495_000, 990_000);
    expected.amm.user_lp_shares = 100;
    expected.amm.net_base_asset_amount = -3;
    expected.unsettled_profit = 9;
    assert_eq!(m, expected);
}

#[test]
fn update_k_rejects_a_broken_result() {
    let mut m = market(2_000_000, 500_000, 1_000_000);
    m.amm.user_lp_shares = 100;
    let before = m;
    for k in [
        UpdateKResult { sqrt_k: 0, base_asset_reserve: 1, quote_asset_reserve: 1 },
        UpdateKResult { sqrt_k: 100, base_asset_reserve: 0, quote_asset_reserve: 1 },
        UpdateKResult { sqrt_k: 100, base_asset_reserve: 1, quote_asset_reserve: 0 },
        UpdateKResult { sqrt_k: 99, base_asset_reserve: 1, quote_asset_reserve: 1 },
    ] {
        assert_eq!(update_k(&mut m, &k), Err(ErrorCode::InvalidInvariant));
        assert_eq!(m, before);
    }
    let k = UpdateKResult { sqrt_k: 100, base_asset_reserve: 1, quote_asset_reserve: 1 };
    assert_eq!(update_k(&mut m, &k), Ok(()));
    assert_eq!(m.amm.sqrt_k, 100);
}
