//! The coarse run state: a tick advances only while playing; pausing
//! freezes it, game over awaits a restart.

use vstd::prelude::*;

verus! {

#[derive(Clone, Copy, Debug, PartialEq, Eq, Structural, Hash)]
pub enum GameState {
    Playing,
    Paused,
    GameOver,
}

impl Default for GameState {
    /// A fresh game starts in the playing state.
    fn default() -> (s: GameState)
        ensures
            s == GameState::Playing,
    {
        GameState::Playing
    }
}

} // verus!
