//! Liquidity-provider settlement and depth rescaling for a perpetual
//! futures market quoted by a virtual AMM.
//!
//! Liquidity providers hold shares of a market's depth. Trading raises the
//! market's cumulative counters; a holder settles to realise its slice of
//! what they gained since it last settled, and burns shares to withdraw
//! depth, which rescales the AMM's reserves without moving its price.
//!
//! - [`math`]: checked 128-bit arithmetic, a holder's metrics, the rescale.
//! - [`state`]: the market, the position and the insurance fund stake.
//! - [`controller`]: the operations, each all or nothing, and what holds of
//!   a market and its holders across any sequence of them.
//! - [`error`]: the three ways an operation is rejected.

pub mod controller;
pub mod error;
pub mod math;
pub mod state;

pub use crate::state::user::MarketPosition;
