//! The operations that change positions and markets.

pub mod ledger;
pub mod lp;
pub mod position;
