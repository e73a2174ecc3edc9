//! The failures that the engine reports.

use vstd::prelude::*;

verus! {

/// Why an operation was rejected. Every rejection leaves the records it was
/// given as they were.
#[derive(Clone, Copy, Debug, PartialEq, Eq, Structural)]
pub enum ErrorCode {
    /// A checked fixed-point step overflowed, underflowed or divided by zero.
    ArithmeticError,
    /// A rescale target was zero, ran against the declared direction, or
    /// would have moved the mark price beyond the tolerance.
    InvalidInvariant,
    /// A burn or a withdrawal request asked for more shares than are held.
    InsufficientShares,
}

pub type ClearingHouseResult<T = ()> = Result<T, ErrorCode>;

/// Whether a call that returned `res` and turned `before` into `after` did
/// what `expected` says, all or nothing: on success the expected state is in
/// place; on failure the error is the expected one and the state is as
/// `before`.
pub open spec fn committed<S>(
    res: ClearingHouseResult<()>,
    expected: Result<S, ErrorCode>,
    before: S,
    after: S,
) -> bool {
    match expected {
        Ok(state) => res is Ok && after == state,
        Err(e) => res == Err::<(), ErrorCode>(e) && after == before,
    }
}

} // verus!
