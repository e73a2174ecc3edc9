//! Fixed-point arithmetic and the formulas built on it.

pub mod amm;
pub mod constants;
pub mod lp;
pub mod safe_math;
