//! Checked arithmetic on 128-bit integers. Every operation either returns
//! the exact mathematical result or reports `ArithmeticError`; nothing wraps,
//! saturates or truncates.

use crate::error::{ClearingHouseResult, ErrorCode};
use vstd::arithmetic::div_mod::{lemma_div_is_ordered, lemma_fundamental_div_mod_converse};
use vstd::prelude::*;

verus! {

/// `v` as a `u128` where it is one, `ArithmeticError` otherwise.
pub open spec fn fit_u128(v: int) -> Result<u128, ErrorCode> {
    if 0 <= v <= u128::MAX {
        Ok(v as u128)
    } else {
        Err(ErrorCode::ArithmeticError)
    }
}

/// `v` as an `i128` where it is one, `ArithmeticError` otherwise.
pub open spec fn fit_i128(v: int) -> Result<i128, ErrorCode> {
    if i128::MIN <= v <= i128::MAX {
        Ok(v as i128)
    } else {
        Err(ErrorCode::ArithmeticError)
    }
}

/// The share `value * numerator / denominator`, rounded down. The product is
/// taken exactly, so only a zero denominator or a quotient beyond `u128::MAX`
/// fails.
pub open spec fn proportion(value: u128, numerator: u128, denominator: u128) -> Result<
    u128,
    ErrorCode,
> {
    if denominator == 0 {
        Err(ErrorCode::ArithmeticError)
    } else {
        fit_u128((value * numerator) / (denominator as int))
    }
}

/// The magnitude of `x`.
pub open spec fn magnitude(x: int) -> nat {
    if x < 0 {
        (-x) as nat
    } else {
        x as nat
    }
}

/// `a + b`, failing above `u128::MAX`.
pub fn safe_add_u128(a: u128, b: u128) -> (res: ClearingHouseResult<u128>)
    ensures
        res == fit_u128(a + b),
{
    match a.checked_add(b) {
        Some(v) => Ok(v),
        None => Err(ErrorCode::ArithmeticError),
    }
}

/// `a - b`, failing below zero.
pub fn safe_sub_u128(a: u128, b: u128) -> (res: ClearingHouseResult<u128>)
    ensures
        res == fit_u128(a - b),
{
    match a.checked_sub(b) {
        Some(v) => Ok(v),
        None => Err(ErrorCode::ArithmeticError),
    }
}

/// `a + b`, failing outside the range of `i128`.
pub fn safe_add_i128(a: i128, b: i128) -> (res: ClearingHouseResult<i128>)
    ensures
        res == fit_i128(a + b),
{
    match a.checked_add(b) {
        Some(v) => Ok(v),
        None => Err(ErrorCode::ArithmeticError),
    }
}

/// `a - b`, failing outside the range of `i128`.
pub fn safe_sub_i128(a: i128, b: i128) -> (res: ClearingHouseResult<i128>)
    ensures
        res == fit_i128(a - b),
{
    match a.checked_sub(b) {
        Some(v) => Ok(v),
        None => Err(ErrorCode::ArithmeticError),
    }
}

/// Converts an unsigned amount to a signed one, failing above `i128::MAX`.
pub fn cast_to_i128(x: u128) -> (res: ClearingHouseResult<i128>)
    ensures
        res == fit_i128(x as int),
{
    if x <= 0x7fff_ffff_ffff_ffff_ffff_ffff_ffff_ffffu128 {
        Ok(x as i128)
    } else {
        Err(ErrorCode::ArithmeticError)
    }
}

/// The magnitude of a signed amount; `i128::MIN` has one too.
pub fn unsigned_abs(x: i128) -> (res: u128)
    ensures
        res == magnitude(x as int),
{
    if x >= 0 {
        x as u128
    } else {
        let below: i128 = -(x + 1);
        below as u128 + 1
    }
}

/// Quotient and remainder of the exact product `a * b` by `c`, or `None`
/// where the quotient does not fit. Works through `a` bit by bit, so no
/// intermediate value is wider than 128 bits.
fn mul_div_rem(a: u128, b: u128, c: u128) -> (res: Option<(u128, u128)>)
    requires
        c > 0,
    ensures
        match res {
            Some((q, r)) => q == (a * b) / (c as int) && r == (a * b) % (c as int),
            None => (a * b) / (c as int) > u128::MAX,
        },
    decreases a,
{
    if a == 0 {
        assert(a * b == 0) by (nonlinear_arith)
            requires
                a == 0,
        ;
        return Some((0, 0));
    }
    let half: u128 = a / 2;
    let bit: u128 = a % 2;
    let ghost hb: int = half * b;
    let ghost ab: int = a * b;
    assert(ab == 2 * hb + bit * b && hb <= ab) by (nonlinear_arith)
        requires
            a == 2 * half + bit,
            hb == half * b,
            ab == a * b,
            bit >= 0,
            b >= 0,
            half >= 0,
    ;
    let (q, r) = match mul_div_rem(half, b, c) {
        Some(qr) => qr,
        None => {
            proof {
                lemma_div_is_ordered(hb, ab, c as int);
            }
            return None;
        },
    };
    assert(hb == q * c + r) by {
        vstd::arithmetic::div_mod::lemma_fundamental_div_mod(hb, c as int);
        vstd::arithmetic::mul::lemma_mul_is_commutative(q as int, c as int);
    }
    // Twice the half: 2 * hb == (2 * q + carry) * c + twice_r, with twice_r < c.
    let wrapped: bool = r >= c - r;
    let carry: u128 = if wrapped { 1 } else { 0 };
    let twice_r: u128 = if wrapped { r - (c - r) } else { r + r };
    let ghost twice_q: int = 2 * q + carry;
    assert(2 * hb == twice_q * c + twice_r) by (nonlinear_arith)
        requires
            hb == q * c + r,
            twice_q == 2 * q + carry,
            2 * r == carry * c + twice_r,
    ;
    // The low bit of `a` adds `b` once more.
    let bq: u128 = if bit == 1 { b / c } else { 0 };
    let br: u128 = if bit == 1 { b % c } else { 0 };
    assert(bit * b == bq * c + br) by {
        if bit == 1 {
            vstd::arithmetic::div_mod::lemma_fundamental_div_mod(b as int, c as int);
            vstd::arithmetic::mul::lemma_mul_is_commutative(bq as int, c as int);
        }
        assert(bit * b == bq * c + br) by (nonlinear_arith)
            requires
                bit == 1 ==> b == bq * c + br,
                bit == 0 ==> bq == 0 && br == 0,
                bit == 0 || bit == 1,
        ;
    }
    let wrapped_again: bool = twice_r >= c - br;
    let carry_again: u128 = if wrapped_again { 1 } else { 0 };
    let rem: u128 = if wrapped_again { twice_r - (c - br) } else { twice_r + br };
    let ghost quot: int = twice_q + bq + carry_again;
    assert(ab == quot * c + rem) by (nonlinear_arith)
        requires
            ab == 2 * hb + bit * b,
            2 * hb == twice_q * c + twice_r,
            bit * b == bq * c + br,
            quot == twice_q + bq + carry_again,
            twice_r + br == carry_again * c + rem,
    ;
    proof {
        lemma_fundamental_div_mod_converse(ab, c as int, quot, rem as int);
    }
    let doubled: u128 = match q.checked_mul(2) {
        Some(v) => v,
        None => { return None; },
    };
    let with_carry: u128 = match doubled.checked_add(carry) {
        Some(v) => v,
        None => { return None; },
    };
    let with_b: u128 = match with_carry.checked_add(bq) {
        Some(v) => v,
        None => { return None; },
    };
    match with_b.checked_add(carry_again) {
        Some(v) => Some((v, rem)),
        None => None,
    }
}

/// A part of a whole is a proportion that cannot fail, and it is no more
/// than the value it is taken of.
pub proof fn lemma_proportion_of_part(value: u128, numerator: u128, denominator: u128)
    requires
        0 < denominator,
        numerator <= denominator,
    ensures
        (value * numerator) / (denominator as int) <= value,
        0 <= (value * numerator) / (denominator as int),
        proportion(value, numerator, denominator) == Ok::<u128, ErrorCode>(
            ((value * numerator) / (denominator as int)) as u128,
        ),
{
    let whole: int = value * denominator;
    let part: int = value * numerator;
    assert(0 <= part <= whole) by (nonlinear_arith)
        requires
            part == value * numerator,
            whole == value * denominator,
            0 <= numerator <= denominator,
            0 <= value,
    ;
    lemma_div_is_ordered(part, whole, denominator as int);
    lemma_div_is_ordered(0, part, denominator as int);
    vstd::arithmetic::div_mod::lemma_div_multiples_vanish(value as int, denominator as int);
    vstd::arithmetic::mul::lemma_mul_is_commutative(value as int, denominator as int);
}

/// `value * numerator / denominator`, rounded down, with the product taken
/// at full width.
pub fn get_proportion_u128(value: u128, numerator: u128, denominator: u128) -> (res:
    ClearingHouseResult<u128>)
    ensures
        res == proportion(value, numerator, denominator),
{
    if denominator == 0 {
        return Err(ErrorCode::ArithmeticError);
    }
    match mul_div_rem(value, numerator, denominator) {
        Some((q, _)) => Ok(q),
        None => Err(ErrorCode::ArithmeticError),
    }
}

} // verus!
