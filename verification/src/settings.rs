//! Audio volume settings, in per-mille of full volume (1000 = 1.0).

use vstd::prelude::*;

verus! {

/// Per-mille representation of full volume.
pub const VOLUME_FULL: u32 = 1000;

#[derive(Clone, Copy, Debug, PartialEq, Eq, Structural)]
pub struct Settings {
    pub music_volume: u32,
    pub effect_volume: u32,
}

/// A requested volume clamped into the valid range.
pub open spec fn spec_clamp_volume(v: u32) -> u32 {
    if v > VOLUME_FULL {
        VOLUME_FULL
    } else {
        v
    }
}

impl Settings {
    pub open spec fn wf(self) -> bool {
        self.music_volume <= VOLUME_FULL && self.effect_volume <= VOLUME_FULL
    }

    /// Both volumes start at half of full.
    pub fn new() -> (s: Settings)
        ensures
            s == (Settings { music_volume: 500u32, effect_volume: 500u32 }),
            s.wf(),
    {
        Settings { music_volume: 500, effect_volume: 500 }
    }

    pub fn set_music_volume(&mut self, volume: u32)
        ensures
            final(self).music_volume == spec_clamp_volume(volume),
            final(self).effect_volume == old(self).effect_volume,
            old(self).wf() ==> final(self).wf(),
    {
        self.music_volume = if volume > VOLUME_FULL {
            VOLUME_FULL
        } else {
            volume
        };
    }

    pub fn set_effect_volume(&mut self, volume: u32)
        ensures
            final(self).effect_volume == spec_clamp_volume(volume),
            final(self).music_volume == old(self).music_volume,
            old(self).wf() ==> final(self).wf(),
    {
        self.effect_volume = if volume > VOLUME_FULL {
            VOLUME_FULL
        } else {
            volume
        };
    }
}

} // verus!
