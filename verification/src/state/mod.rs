//! The records that the engine reads and updates.

pub mod insurance_fund_stake;
pub mod market;
pub mod user;
