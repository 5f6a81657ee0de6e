//! Plain components: the player's stat multipliers in per-mille fixed
//! point, movement input, health, and the shoot cooldown state.

use vstd::prelude::*;

verus! {

/// Per-mille representation of the multiplier 1.0.
pub const STAT_BASE: u64 = 1000;

/// Upper bound a stat multiplier saturates at, per-mille. Buffs stack
/// multiplicatively with no designed upper limit; this bound only keeps the
/// arithmetic finite and is far beyond reachable play.
pub const STAT_CAP: u64 = 1000000000000;

/// Multiplicative buff accumulators, per-mille (1000 = x1.0). Buffs only
/// stack upward: both stay at or above the base value.
#[derive(Clone, Copy, Debug, PartialEq, Eq, Structural)]
pub struct PlayerStats {
    pub fire_rate: u64,
    pub speed: u64,
}

/// Applying a per-mille multiplier to a per-mille stat, saturating at the
/// cap.
pub open spec fn spec_apply_mult(v: u64, m: u64) -> u64
    recommends
        v <= STAT_CAP,
        m <= 1500,
{
    if (v * m) / 1000 > STAT_CAP {
        STAT_CAP
    } else {
        ((v * m) / 1000) as u64
    }
}

impl PlayerStats {
    pub open spec fn wf(self) -> bool {
        &&& STAT_BASE <= self.fire_rate <= STAT_CAP
        &&& STAT_BASE <= self.speed <= STAT_CAP
    }

    pub fn new(fire_rate: u64, speed: u64) -> (s: PlayerStats)
        requires
            STAT_BASE <= fire_rate <= STAT_CAP,
            STAT_BASE <= speed <= STAT_CAP,
        ensures
            s == (PlayerStats { fire_rate, speed }),
            s.wf(),
    {
        PlayerStats { fire_rate, speed }
    }

    /// Reset both multipliers to the base value, as on player respawn.
    pub fn reset(&mut self)
        ensures
            *final(self) == (PlayerStats { fire_rate: STAT_BASE, speed: STAT_BASE }),
            final(self).wf(),
    {
        self.fire_rate = STAT_BASE;
        self.speed = STAT_BASE;
    }
}

impl Default for PlayerStats {
    /// Both multipliers start at x1.0.
    fn default() -> (s: PlayerStats)
        ensures
            s == (PlayerStats { fire_rate: STAT_BASE, speed: STAT_BASE }),
            s.wf(),
    {
        PlayerStats { fire_rate: STAT_BASE, speed: STAT_BASE }
    }
}

/// Multiply a per-mille stat by a per-mille factor of at most x1.5,
/// saturating at the cap.
pub fn apply_mult(v: u64, m: u64) -> (r: u64)
    requires
        v <= STAT_CAP,
        1000 <= m <= 1500,
    ensures
        r == spec_apply_mult(v, m),
        v <= r <= STAT_CAP,
{
    proof {
        assert(v * m <= STAT_CAP * 1500) by (nonlinear_arith)
            requires
                v <= STAT_CAP,
                m <= 1500,
        ;
        assert(v * 1000 <= v * m) by (nonlinear_arith)
            requires
                1000 <= m,
                0 <= v,
        ;
        assert((v * 1000) / 1000 == v);
        assert((v * 1000) / 1000 <= (v * m) / 1000) by {
            vstd::arithmetic::div_mod::lemma_div_is_ordered(v * 1000, v * m, 1000);
        }
    }
    let wide: u64 = (v * m) / 1000;
    if wide > STAT_CAP {
        STAT_CAP
    } else {
        wide
    }
}

/// Health of a destructible object. It can go negative transiently within a
/// tick; the end-of-tick sweep destroys anything at or below zero.
#[derive(Clone, Copy, Debug, PartialEq, Eq, Structural)]
pub struct Health(pub i32);

/// The mutual-damage resolution of an overlapping pair: each side loses the
/// other's current health, and only when both are currently positive, so no
/// damage is ever dealt by or to an already-dead object.
pub open spec fn spec_mutual_damage(a: i32, b: i32) -> (i32, i32) {
    if a > 0 && b > 0 {
        (((a - b) as i32), ((b - a) as i32))
    } else {
        (a, b)
    }
}

pub fn mutual_damage(a: Health, b: Health) -> (r: (Health, Health))
    ensures
        (r.0.0, r.1.0) == spec_mutual_damage(a.0, b.0),
{
    if a.0 > 0 && b.0 > 0 {
        (Health(a.0 - b.0), Health(b.0 - a.0))
    } else {
        (a, b)
    }
}

/// Normalized per-tick directional input; each axis is -1, 0 or 1.
#[derive(Clone, Copy, Debug, PartialEq, Eq, Structural)]
pub struct MovementInput {
    pub dx: i32,
    pub dy: i32,
}

impl MovementInput {
    pub open spec fn wf(self) -> bool {
        &&& -1 <= self.dx <= 1
        &&& -1 <= self.dy <= 1
    }
}

/// Shooting intent and the cooldown countdown between shots.
#[derive(Clone, Copy, Debug, PartialEq, Eq, Structural)]
pub struct Shoot {
    pub is_shooting: bool,
    /// Base cooldown between shots, milliseconds.
    pub cooldown_ms: u32,
    /// Milliseconds until the next shot is allowed.
    pub timer_ms: u32,
}

/// The base cooldown divided by the fire-rate multiplier: a higher fire
/// rate shortens the wait.
pub open spec fn spec_adjusted_cooldown(cooldown_ms: u32, fire_rate: u64) -> u32
    recommends
        fire_rate >= STAT_BASE,
{
    (((cooldown_ms as int) * 1000) / (fire_rate as int)) as u32
}

impl Shoot {
    pub fn new(cooldown_ms: u32) -> (s: Shoot)
        ensures
            s == (Shoot { is_shooting: false, cooldown_ms, timer_ms: cooldown_ms }),
    {
        Shoot { is_shooting: false, cooldown_ms, timer_ms: cooldown_ms }
    }

    /// A fresh countdown of `ms` milliseconds.
    pub fn timer_from_cooldown(ms: u32) -> (t: u32)
        ensures
            t == ms,
    {
        ms
    }

    pub fn get_adjusted_cooldown(&self, fire_rate: u64) -> (r: u32)
        requires
            fire_rate >= STAT_BASE,
        ensures
            r == spec_adjusted_cooldown(self.cooldown_ms, fire_rate),
            r <= self.cooldown_ms,
    {
        let wide: u64 = ((self.cooldown_ms as u64) * 1000) / fire_rate;
        proof {
            let c = self.cooldown_ms as int;
            assert((c * 1000) / fire_rate as int <= (c * 1000) / 1000) by {
                vstd::arithmetic::div_mod::lemma_div_is_ordered_by_denominator(
                    c * 1000,
                    1000,
                    fire_rate as int,
                );
            }
            assert((c * 1000) / 1000 == c);
        }
        wide as u32
    }
}

} // verus!
