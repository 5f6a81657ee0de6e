//! The simulation's randomness, drawn through one thin trusted boundary
//! over the `rand` crate. Every caller states only what holds of every
//! possible outcome.

use vstd::prelude::*;

verus! {

/// Relies on rand::random_range over the integer range `0..n`: the draw is
/// taken from the thread-local generator and lies within the range, so it
/// is strictly below `n`; the range is non-empty by the precondition, so
/// the call does not panic.
#[verifier::external_body]
pub(crate) fn draw_below(n: u32) -> (r: u32)
    requires
        n > 0,
    ensures
        r < n,
{
    rand::random_range(0..n)
}

} // verus!
