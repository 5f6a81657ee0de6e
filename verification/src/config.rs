//! Static gameplay configuration: enemy tiers, powerup kinds, their stat
//! tables, and the tuning constants of the simulation.
//!
//! Lengths are milli-pixels (1 pixel = 1000), speeds are pixels per second,
//! spawn weights are centi-weights (1.0 = 100), and stat multipliers are
//! per-mille (1.0 = 1000).

use vstd::prelude::*;

verus! {

/// The three enemy size classes, each bound to a fixed stat tuple.
#[derive(Clone, Copy, Debug, PartialEq, Eq, Structural)]
pub enum EnemyType {
    Small,
    Medium,
    Large,
}

/// The two powerup kinds an enemy can drop.
#[derive(Clone, Copy, Debug, PartialEq, Eq, Structural)]
pub enum PowerupType {
    FireRate,
    Speed,
}

/// Upper bound on simultaneously live enemies at spawn-decision time.
pub const MAX_ENEMIES: usize = 40;

/// An enemy spawn roll in `[0, ENEMY_SPAWN_DENOMINATOR)` spawns only when it
/// is at most `ENEMY_SPAWN_CHANCE`.
pub const ENEMY_SPAWN_CHANCE: u32 = 1;

pub const ENEMY_SPAWN_DENOMINATOR: u32 = 100;

/// Horizontal gap between spawn columns, milli-pixels.
pub const ENEMY_GUTTER: i64 = 4000;

/// Upper bound on simultaneously live powerups.
pub const MAX_POWERUPS: usize = 3;

/// Sum of the three tier centi-weights (800 + 40 + 10).
pub const TIER_WEIGHT_TOTAL: u32 = 850;

/// Damage one bullet deals on contact.
pub const BULLET_DAMAGE: i32 = 1;

/// Bullet speed, pixels per second, straight up.
pub const BULLET_SPEED: u32 = 500;

/// Bullet collision box full size, milli-pixels (half extent 8 px).
pub const BULLET_SIZE: i64 = 16000;

/// Player base speed, pixels per second.
pub const PLAYER_SPEED: u32 = 200;

/// Player starting health.
pub const PLAYER_HEALTH: i32 = 10;

/// Base cooldown between shots, milliseconds.
pub const PLAYER_SHOOT_COOLDOWN_MS: u32 = 400;

/// Player collision box size, milli-pixels: 16 x 24 sprite scaled by 1.8.
pub const PLAYER_BOUNDS_X: i64 = 28800;

pub const PLAYER_BOUNDS_Y: i64 = 43200;

/// Powerup fall speed, pixels per second.
pub const POWERUP_SPEED: u32 = 50;

/// Powerup collision box full size, milli-pixels (16 px sprite scaled by 2).
pub const POWERUP_SIZE: i64 = 32000;

/// Largest viewport dimension the simulation accepts, milli-pixels (10000 px).
pub const MAX_DIM: i64 = 10000000;

/// Largest tick delta the simulation accepts, milliseconds.
pub const MAX_DT_MS: u32 = 1000000;

/// Largest speed any object can carry, pixels per second.
pub const MAX_SPEED: u32 = 1000;

/// Fixed stats of an enemy tier.
pub struct EnemyConfig {
    /// Fall speed, pixels per second.
    pub speed: u32,
    /// Health at spawn.
    pub health: i32,
    /// Selection centi-weight (8.0 / 0.4 / 0.1 scaled by 100).
    pub spawn_weight: u32,
    /// Score awarded when a bullet destroys an enemy of this tier.
    pub score: u64,
    /// Collision box width, milli-pixels (sprite width scaled by 2).
    pub width: i64,
    /// Collision box height, milli-pixels (sprite height scaled by 2).
    pub height: i64,
}

pub open spec fn spec_enemy_config(t: EnemyType) -> EnemyConfig {
    match t {
        EnemyType::Small => EnemyConfig {
            speed: 100,
            health: 2,
            spawn_weight: 800,
            score: 2,
            width: 34000,
            height: 32000,
        },
        EnemyType::Medium => EnemyConfig {
            speed: 50,
            health: 8,
            spawn_weight: 40,
            score: 12,
            width: 64000,
            height: 32000,
        },
        EnemyType::Large => EnemyConfig {
            speed: 25,
            health: 20,
            spawn_weight: 10,
            score: 40,
            width: 64000,
            height: 64000,
        },
    }
}

impl EnemyType {
    /// The static stat table of this tier.
    pub fn config(&self) -> (c: EnemyConfig)
        ensures
            c == spec_enemy_config(*self),
    {
        match self {
            EnemyType::Small => EnemyConfig {
                speed: 100,
                health: 2,
                spawn_weight: 800,
                score: 2,
                width: 34000,
                height: 32000,
            },
            EnemyType::Medium => EnemyConfig {
                speed: 50,
                health: 8,
                spawn_weight: 40,
                score: 12,
                width: 64000,
                height: 32000,
            },
            EnemyType::Large => EnemyConfig {
                speed: 25,
                health: 20,
                spawn_weight: 10,
                score: 40,
                width: 64000,
                height: 64000,
            },
        }
    }
}

/// The weighted tier scan: candidates are walked in the fixed order Large,
/// Medium, Small and the first whose centi-weight is at least the roll is
/// taken, with Small as the fallback when no weight matches.
///
/// This is deliberately not an inverse-CDF walk: the scan is positionally
/// biased toward the earlier entries (a roll of at most 10 would already have
/// matched Large), which reproduces the observed spawn ratios of the game.
pub open spec fn spec_select_tier(roll: u32) -> EnemyType {
    if roll <= spec_enemy_config(EnemyType::Large).spawn_weight {
        EnemyType::Large
    } else if roll <= spec_enemy_config(EnemyType::Medium).spawn_weight {
        EnemyType::Medium
    } else if roll <= spec_enemy_config(EnemyType::Small).spawn_weight {
        EnemyType::Small
    } else {
        EnemyType::Small
    }
}

/// Pick an enemy tier from a weighted roll in centi-weight units.
pub fn select_tier(roll: u32) -> (t: EnemyType)
    ensures
        t == spec_select_tier(roll),
{
    if roll <= EnemyType::Large.config().spawn_weight {
        EnemyType::Large
    } else if roll <= EnemyType::Medium.config().spawn_weight {
        EnemyType::Medium
    } else if roll <= EnemyType::Small.config().spawn_weight {
        EnemyType::Small
    } else {
        EnemyType::Small
    }
}

/// The powerup a destroyed enemy of tier `t` drops: Medium drops Speed,
/// Large drops FireRate, Small drops nothing.
pub open spec fn spec_powerup_for_tier(t: EnemyType) -> Option<PowerupType> {
    match t {
        EnemyType::Small => None,
        EnemyType::Medium => Some(PowerupType::Speed),
        EnemyType::Large => Some(PowerupType::FireRate),
    }
}

pub fn powerup_for_tier(t: EnemyType) -> (r: Option<PowerupType>)
    ensures
        r == spec_powerup_for_tier(t),
{
    match t {
        EnemyType::Small => None,
        EnemyType::Medium => Some(PowerupType::Speed),
        EnemyType::Large => Some(PowerupType::FireRate),
    }
}

/// Per-mille stat multiplier a powerup applies: FireRate is x1.5 and Speed
/// is x1.2.
pub open spec fn spec_powerup_multiplier(p: PowerupType) -> u64 {
    match p {
        PowerupType::FireRate => 1500,
        PowerupType::Speed => 1200,
    }
}

pub fn powerup_multiplier(p: PowerupType) -> (m: u64)
    ensures
        m == spec_powerup_multiplier(p),
{
    match p {
        PowerupType::FireRate => 1500,
        PowerupType::Speed => 1200,
    }
}

} // verus!
