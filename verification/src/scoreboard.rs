//! The score: monotonically non-decreasing within a run, reset to zero when
//! a run starts.

use vstd::prelude::*;

verus! {

/// The game's score.
#[derive(Clone, Copy, Debug, PartialEq, Eq, Structural)]
pub struct Score(pub u64);

/// Reset the score to the start-of-run baseline.
pub fn reset_score(score: &mut Score)
    ensures
        *final(score) == Score(0),
{
    score.0 = 0;
}

} // verus!
