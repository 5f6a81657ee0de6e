//! Enemies: the per-tier population counter and the destruction event the
//! collision phase emits for the scoring and powerup systems.

use vstd::prelude::*;

use crate::anim::{spec_timer_from_fps, AnimationConfig};
use crate::config::{
    spec_enemy_config, spec_select_tier, EnemyType, ENEMY_GUTTER, ENEMY_SPAWN_CHANCE, MAX_DIM,
    MAX_ENEMIES,
};
use crate::game::World;
use crate::geom::{Vec2i, Viewport};
use crate::registry::{lemma_counts_one_slot_change, Entity, GameObject, Kind, Slot};

verus! {

/// The live enemy population, one counter per tier. The world invariant
/// ties each counter to the true number of live enemies of that tier in the
/// registry.
#[derive(Clone, Copy, Debug, PartialEq, Eq, Structural)]
pub struct EnemyCount {
    pub small: usize,
    pub medium: usize,
    pub large: usize,
}

impl EnemyCount {
    pub open spec fn spec_total(self) -> int {
        self.small + self.medium + self.large
    }

    pub fn total(&self) -> (t: usize)
        requires
            self.spec_total() <= usize::MAX,
        ensures
            t == self.spec_total(),
    {
        self.small + self.medium + self.large
    }

    pub fn increment(&mut self, enemy_type: &EnemyType)
        requires
            old(self).spec_total() < usize::MAX,
        ensures
            *final(self) == (match *enemy_type {
                EnemyType::Small => EnemyCount { small: (old(self).small + 1) as usize, ..*old(self) },
                EnemyType::Medium => EnemyCount {
                    medium: (old(self).medium + 1) as usize,
                    ..*old(self)
                },
                EnemyType::Large => EnemyCount { large: (old(self).large + 1) as usize, ..*old(self) },
            }),
    {
        match enemy_type {
            EnemyType::Small => self.small = self.small + 1,
            EnemyType::Medium => self.medium = self.medium + 1,
            EnemyType::Large => self.large = self.large + 1,
        }
    }

    /// Decrement a tier's counter, stopping at zero.
    pub fn decrement(&mut self, enemy_type: &EnemyType)
        ensures
            *final(self) == (match *enemy_type {
                EnemyType::Small => EnemyCount {
                    small: (if old(self).small > 0 {
                        old(self).small - 1
                    } else {
                        0
                    }) as usize,
                    ..*old(self)
                },
                EnemyType::Medium => EnemyCount {
                    medium: (if old(self).medium > 0 {
                        old(self).medium - 1
                    } else {
                        0
                    }) as usize,
                    ..*old(self)
                },
                EnemyType::Large => EnemyCount {
                    large: (if old(self).large > 0 {
                        old(self).large - 1
                    } else {
                        0
                    }) as usize,
                    ..*old(self)
                },
            }),
    {
        match enemy_type {
            EnemyType::Small => self.small = if self.small > 0 {
                self.small - 1
            } else {
                0
            },
            EnemyType::Medium => self.medium = if self.medium > 0 {
                self.medium - 1
            } else {
                0
            },
            EnemyType::Large => self.large = if self.large > 0 {
                self.large - 1
            } else {
                0
            },
        }
    }
}

impl Default for EnemyCount {
    fn default() -> (c: EnemyCount)
        ensures
            c == (EnemyCount { small: 0, medium: 0, large: 0 }),
    {
        EnemyCount { small: 0, medium: 0, large: 0 }
    }
}

/// What the collision phase knows about a destroyed enemy: its tier and
/// where it died.
#[derive(Clone, Copy, Debug, PartialEq, Eq, Structural)]
pub struct EnemyDestroyedData {
    pub enemy_type: EnemyType,
    pub position: Vec2i,
}

/// A single-tick destruction notice, consumed by the scoring and powerup
/// systems in the same tick it was emitted.
#[derive(Clone, Copy, Debug, PartialEq, Eq, Structural)]
pub struct EnemyDestroyedEvent(pub EnemyDestroyedData);

/// The random draws one enemy-spawn attempt consumes: the spawn-chance
/// roll, the weighted tier roll in centi-weight units, and the column
/// index.
#[derive(Clone, Copy, Debug, PartialEq, Eq, Structural)]
pub struct SpawnDraws {
    pub chance: u32,
    pub tier_roll: u32,
    pub column: u32,
}

/// How many spawn columns of a sprite `size_x` wide (gutter included) fit
/// across the viewport.
pub open spec fn spec_column_count(width: int, size_x: int) -> int
    recommends
        size_x > 0,
{
    width / (size_x + ENEMY_GUTTER)
}

/// The x-coordinate of spawn column `column`: the columns and their gutters
/// are laid out as one centered block, and the coordinate is the center of
/// the chosen column, relative to the screen center.
pub open spec fn spec_enemy_x(width: int, column: int, size_x: int) -> int
    recommends
        size_x > 0,
        spec_column_count(width, size_x) >= 1,
{
    let cc = spec_column_count(width, size_x);
    let content = cc * size_x + (cc - 1) * ENEMY_GUTTER;
    let margin = (width - content) / 2;
    column * (size_x + ENEMY_GUTTER) + size_x / 2 + margin - width / 2
}

/// Calculate the x position for an enemy in a given column.
pub fn calculate_enemy_x_position(vp: &Viewport, column: u32, size_x: i64) -> (x: i64)
    requires
        vp.wf(),
        0 < size_x <= MAX_DIM,
        1 <= spec_column_count(vp.width as int, size_x as int),
        column < spec_column_count(vp.width as int, size_x as int),
    ensures
        x == spec_enemy_x(vp.width as int, column as int, size_x as int),
{
    let divisor: i64 = size_x + ENEMY_GUTTER;
    let cc: i64 = ((vp.width as u64) / (divisor as u64)) as i64;
    proof {
        assert(cc == (vp.width as int) / (divisor as int));
        vstd::arithmetic::div_mod::lemma_fundamental_div_mod(vp.width as int, divisor as int);
        vstd::arithmetic::div_mod::lemma_mod_bound(vp.width as int, divisor as int);
        assert(cc * divisor <= vp.width);
        assert(cc * (size_x as int) + (cc - 1) * ENEMY_GUTTER == cc * ((size_x as int)
            + ENEMY_GUTTER) - ENEMY_GUTTER) by (nonlinear_arith);
        assert(divisor == size_x + ENEMY_GUTTER);
        assert(cc <= vp.width) by (nonlinear_arith)
            requires
                cc * divisor <= vp.width,
                divisor >= 1,
                cc >= 0,
        ;
        assert((column as int) * divisor <= cc * divisor) by (nonlinear_arith)
            requires
                column as int <= cc,
                divisor >= 0,
        ;
        assert(0 <= (column as int) * divisor) by (nonlinear_arith)
            requires
                0 <= column as int,
                0 <= divisor,
        ;
    }
    let content: i64 = cc * size_x + (cc - 1) * ENEMY_GUTTER;
    let margin: i64 = (((vp.width - content) as u64) / 2) as i64;
    let half_size: i64 = ((size_x as u64) / 2) as i64;
    let half_width: i64 = ((vp.width as u64) / 2) as i64;
    (column as i64) * divisor + half_size + margin - half_width
}

/// The enemy object one spawn attempt creates: it appears centered in its
/// column just above the top edge, with its tier's stats and looping
/// two-frame animation.
pub open spec fn spec_spawned_enemy(tier: EnemyType, vp: Viewport, column: u32) -> GameObject {
    let cfg = spec_enemy_config(tier);
    GameObject {
        kind: Kind::Enemy(tier),
        pos: Vec2i {
            x: spec_enemy_x(vp.width as int, column as int, cfg.width as int) as i64,
            y: ((vp.height as int) / 2 + (cfg.width as int) / 2) as i64,
        },
        size: Vec2i { x: cfg.width, y: cfg.height },
        speed: cfg.speed,
        health: cfg.health,
        anim: AnimationConfig {
            first_sprite_index: 0,
            last_sprite_index: 1,
            fps: 12,
            frame_timer_ms: spec_timer_from_fps(12),
        },
        frame: 0,
    }
}

/// What one draw-decided enemy-spawn attempt does to the world.
pub open spec fn spec_spawn_enemy_rel(
    pre: World,
    post: World,
    vp: Viewport,
    draws: SpawnDraws,
    r: Option<Entity>,
) -> bool {
    &&& post.wf()
    // at the population cap no spawn ever occurs
    &&& (pre.counts.spec_total() >= MAX_ENEMIES ==> r is None)
    &&& post.counts.spec_total() <= MAX_ENEMIES
    &&& (r is None ==> post == pre)
    // success exactly when every gate passes
    &&& ((r is Some) <==> ({
        let cfg = spec_enemy_config(spec_select_tier(draws.tier_roll));
        let cc = spec_column_count(vp.width as int, cfg.width as int);
        &&& pre.counts.spec_total() < MAX_ENEMIES
        &&& draws.chance <= ENEMY_SPAWN_CHANCE
        &&& cc >= 1
        &&& draws.column < cc
    }))
    &&& (r matches Some(e) ==> ({
        let tier = spec_select_tier(draws.tier_roll);
        &&& post.reg.is_live(e)
        &&& post.reg.obj_of(e) == spec_spawned_enemy(tier, vp, draws.column)
        &&& post.counts.spec_total() == pre.counts.spec_total() + 1
        &&& post.score == pre.score
        &&& post.stats == pre.stats
        &&& post.powerup_count == pre.powerup_count
        &&& post.player == pre.player
        &&& post.state == pre.state
        &&& post.same_player_components(pre)
        // every occupied slot is untouched
        &&& forall|j: int|
            0 <= j < pre.reg.num_slots() && pre.reg.slots_seq()[j].obj is Some
                ==> post.reg.slots_seq()[j] == #[trigger] pre.reg.slots_seq()[j]
    }))
}

/// One enemy-spawn attempt, decided by the given draws.
///
/// The attempt is a no-op — never an error — unless every gate passes: the
/// live population is under the cap, the chance roll succeeds, and the
/// viewport fits at least one column of the drawn tier (a degenerate
/// viewport spawns nothing rather than divide by zero). On success the
/// spawned enemy and the incremented tier counter are the only changes.
pub fn spawn_enemy_from_draws(w: &mut World, vp: &Viewport, draws: SpawnDraws) -> (r: Option<
    Entity,
>)
    requires
        old(w).wf(),
        vp.wf(),
    ensures
        spec_spawn_enemy_rel(*old(w), *final(w), *vp, draws, r),
{
    let total = w.counts.total();
    if total >= MAX_ENEMIES {
        return None;
    }
    if draws.chance > ENEMY_SPAWN_CHANCE {
        return None;
    }
    let tier = crate::config::select_tier(draws.tier_roll);
    let cfg = tier.config();
    let divisor: i64 = cfg.width + ENEMY_GUTTER;
    let cc: i64 = ((vp.width as u64) / (divisor as u64)) as i64;
    if cc < 1 {
        return None;
    }
    if (draws.column as i64) >= cc {
        return None;
    }
    let x = calculate_enemy_x_position(vp, draws.column, cfg.width);
    let y: i64 = (((vp.height as u64) / 2) + ((cfg.width as u64) / 2)) as i64;
    let obj = GameObject {
        kind: Kind::Enemy(tier),
        pos: Vec2i { x, y },
        size: Vec2i { x: cfg.width, y: cfg.height },
        speed: cfg.speed,
        health: cfg.health,
        anim: AnimationConfig::new(0, 1, 12),
        frame: 0,
    };
    let ghost pre: Seq<Slot> = w.reg.slots_seq();
    let e = w.reg.spawn(obj);
    proof {
        lemma_counts_one_slot_change(
            pre,
            w.reg.slots_seq(),
            e.index as int,
            Slot { generation: e.generation, obj: Some(obj) },
        );
    }
    w.counts.increment(&tier);
    Some(e)
}

/// The once-per-tick random enemy spawn attempt.
///
/// With the population under the cap, a chance roll decides whether to
/// spawn at all; a weighted roll picks the tier; a column roll places it.
/// Whatever the draws, the outcome is one draw-decided spawn attempt: the
/// cap is never exceeded and nothing but the new enemy and its tier
/// counter ever changes.
pub fn spawn_enemies(w: &mut World, vp: &Viewport) -> (r: Option<Entity>)
    requires
        old(w).wf(),
        vp.wf(),
    ensures
        exists|draws: SpawnDraws| spec_spawn_enemy_rel(*old(w), *final(w), *vp, draws, r),
        final(w).wf(),
        old(w).counts.spec_total() >= MAX_ENEMIES ==> r is None,
        final(w).counts.spec_total() <= MAX_ENEMIES,
        r is None ==> *final(w) == *old(w),
        r matches Some(e) ==> ({
            &&& final(w).reg.is_live(e)
            &&& final(w).reg.obj_of(e).kind is Enemy
            &&& final(w).counts.spec_total() == old(w).counts.spec_total() + 1
            &&& final(w).score == old(w).score
            &&& final(w).stats == old(w).stats
            &&& final(w).powerup_count == old(w).powerup_count
            &&& final(w).player == old(w).player
            &&& final(w).state == old(w).state
            &&& final(w).same_player_components(*old(w))
            &&& forall|j: int|
                0 <= j < old(w).reg.num_slots() && old(w).reg.slots_seq()[j].obj is Some
                    ==> final(w).reg.slots_seq()[j] == #[trigger] old(w).reg.slots_seq()[j]
        }),
{
    let total = w.counts.total();
    if total >= MAX_ENEMIES {
        proof {
            assert(spec_spawn_enemy_rel(
                *w,
                *w,
                *vp,
                SpawnDraws { chance: 0, tier_roll: 0, column: 0 },
                None,
            ));
        }
        return None;
    }
    let chance = crate::rng::draw_below(crate::config::ENEMY_SPAWN_DENOMINATOR);
    if chance > ENEMY_SPAWN_CHANCE {
        proof {
            assert(spec_spawn_enemy_rel(
                *w,
                *w,
                *vp,
                SpawnDraws { chance, tier_roll: 0, column: 0 },
                None,
            ));
        }
        return None;
    }
    let tier_roll = crate::rng::draw_below(crate::config::TIER_WEIGHT_TOTAL);
    let tier = crate::config::select_tier(tier_roll);
    let cfg = tier.config();
    let divisor: i64 = cfg.width + ENEMY_GUTTER;
    let cc: i64 = ((vp.width as u64) / (divisor as u64)) as i64;
    proof {
        assert(cc == (vp.width as int) / (divisor as int));
        vstd::arithmetic::div_mod::lemma_div_is_ordered_by_denominator(vp.width as int, 1, divisor as int);
        assert(cc <= vp.width);
    }
    if cc < 1 {
        proof {
            assert(spec_spawn_enemy_rel(
                *w,
                *w,
                *vp,
                SpawnDraws { chance, tier_roll, column: 0 },
                None,
            ));
        }
        return None;
    }
    let column = crate::rng::draw_below(cc as u32);
    let ghost pre: World = *w;
    let r = spawn_enemy_from_draws(w, vp, SpawnDraws { chance, tier_roll, column });
    proof {
        assert(spec_spawn_enemy_rel(pre, *w, *vp, SpawnDraws { chance, tier_roll, column }, r));
    }
    r
}

} // verus!
