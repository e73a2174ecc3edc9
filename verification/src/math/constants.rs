//! Fixed-point scales.

use vstd::prelude::*;

verus! {

/// The scale of a mark price: a price of one is this many units.
pub const PRICE_PRECISION: u128 = 10_000_000_000;

/// A rescale may move the mark price by at most the price divided by this:
/// one basis point.
pub const PRICE_TOLERANCE_DENOMINATOR: u128 = 10_000;

} // verus!
