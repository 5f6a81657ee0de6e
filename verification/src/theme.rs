//! The UI color palette, with channels in per-mille of full intensity.

use vstd::prelude::*;

verus! {

/// An RGB color; each channel is per-mille of full intensity (1000 = 1.0).
#[derive(Clone, Copy, Debug, PartialEq, Eq, Structural)]
pub struct Rgb {
    pub r: u16,
    pub g: u16,
    pub b: u16,
}

/// The fixed text colors of the game's screens.
pub struct Palette;

impl Palette {
    pub fn text_primary() -> (c: Rgb)
        ensures
            c == (Rgb { r: 900u16, g: 900u16, b: 900u16 }),
    {
        Rgb { r: 900, g: 900, b: 900 }
    }

    pub fn text_game_over() -> (c: Rgb)
        ensures
            c == (Rgb { r: 1000u16, g: 0u16, b: 0u16 }),
    {
        Rgb { r: 1000, g: 0, b: 0 }
    }

    pub fn text_paused() -> (c: Rgb)
        ensures
            c == (Rgb { r: 600u16, g: 600u16, b: 600u16 }),
    {
        Rgb { r: 600, g: 600, b: 600 }
    }
}

} // verus!
