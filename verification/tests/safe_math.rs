use clearing_house::error::ErrorCode;
use clearing_house::math::safe_math::{
    cast_to_i128, get_proportion_u128, safe_add_i128, safe_add_u128, safe_sub_i128, safe_sub_u128,
    unsigned_abs,
};

#[test]
fn proportion_rounds_down() {
    assert_eq!(get_proportion_u128(10, 3, 4), Ok(7));
    assert_eq!(get_proportion_u128(0, 5, 7), Ok(0));
    assert_eq!(get_proportion_u128(5, 0, 7), Ok(0));
    assert_eq!(get_proportion_u128(7, 1, 1), Ok(7));
    assert_eq!(get_proportion_u128(1, 1, 2), Ok(0));
}

#[test]
fn proportion_takes_the_product_at_full_width() {
    assert_eq!(
        get_proportion_u128(u128::MAX, 2, 4),
        Ok(170141183460469231731687303715884105727)
    );
    assert_eq!(
        get_proportion_u128(u128::MAX, 3, 7),
        Ok(145835300108973627198589117470757804909)
    );
    assert_eq!(get_proportion_u128(u128::MAX, u128::MAX, u128::MAX), Ok(u128::MAX));
    assert_eq!(get_proportion_u128(u128::MAX - 1, u128::MAX, u128::MAX), Ok(u128::MAX - 1));
    assert_eq!(
        get_proportion_u128(
            1_000_000_000_000_000_000_000_000_000_000,
            1_000_000_000_000_000_000_000_000_000_000,
            10_000_000_000_000_000_000_000_000
        ),
        Ok(100_000_000_000_000_000_000_000_000_000_000_000)
    );
    assert_eq!(
        get_proportion_u128(
            1267650600228229401496703217721,
            1237940039285380274899124902,
            1180591620717411303433
        ),
        Ok(1329227995784915872893674702060388352)
    );
}

#[test]
fn proportion_rejects_zero_denominator() {
    assert_eq!(get_proportion_u128(1, 1, 0), Err(ErrorCode::ArithmeticError));
    assert_eq!(get_proportion_u128(0, 0, 0), Err(ErrorCode::ArithmeticError));
}

#[test]
fn proportion_rejects_quotient_out_of_range() {
    assert_eq!(get_proportion_u128(u128::MAX, 2, 1), Err(ErrorCode::ArithmeticError));
    assert_eq!(
        get_proportion_u128(u128::MAX, u128::MAX, u128::MAX - 1),
        Err(ErrorCode::ArithmeticError)
    );
    assert_eq!(
        get_proportion_u128(12345678901234567890123456789, 98765432109876543210, 1234567),
        Err(ErrorCode::ArithmeticError)
    );
}

#[test]
fn checked_sums_and_differences() {
    assert_eq!(safe_add_u128(2, 3), Ok(5));
    assert_eq!(safe_add_u128(u128::MAX, 0), Ok(u128::MAX));
    assert_eq!(safe_add_u128(u128::MAX, 1), Err(ErrorCode::ArithmeticError));
    assert_eq!(safe_sub_u128(5, 3), Ok(2));
    assert_eq!(safe_sub_u128(3, 3), Ok(0));
    assert_eq!(safe_sub_u128(3, 5), Err(ErrorCode::ArithmeticError));
    assert_eq!(safe_add_i128(-2, 3), Ok(1));
    assert_eq!(safe_add_i128(i128::MAX, 1), Err(ErrorCode::ArithmeticError));
    assert_eq!(safe_add_i128(i128::MIN, -1), Err(ErrorCode::ArithmeticError));
    assert_eq!(safe_sub_i128(-2, 3), Ok(-5));
    assert_eq!(safe_sub_i128(i128::MIN, 1), Err(ErrorCode::ArithmeticError));
    assert_eq!(safe_sub_i128(i128::MAX, -1), Err(ErrorCode::ArithmeticError));
    assert_eq!(safe_sub_i128(0, i128::MIN), Err(ErrorCode::ArithmeticError));
}

#[test]
fn cast_to_signed() {
    assert_eq!(cast_to_i128(0), Ok(0));
    assert_eq!(cast_to_i128(42), Ok(42));
    assert_eq!(cast_to_i128(i128::MAX as u128), Ok(i128::MAX));
    assert_eq!(cast_to_i128(i128::MAX as u128 + 1), Err(ErrorCode::ArithmeticError));
    assert_eq!(cast_to_i128(u128::MAX), Err(ErrorCode::ArithmeticError));
}

#[test]
fn magnitude_of_signed() {
    assert_eq!(unsigned_abs(0), 0);
    assert_eq!(unsigned_abs(17), 17);
    assert_eq!(unsigned_abs(-17), 17);
    assert_eq!(unsigned_abs(i128::MAX), 170141183460469231731687303715884105727);
    assert_eq!(unsigned_abs(i128::MIN), 170141183460469231731687303715884105728);
}
