//! The player: spawning, input-driven movement with viewport confinement,
//! and shooting.

use vstd::prelude::*;

use crate::anim::{
    spec_count_down, spec_player_anim_step, spec_stack_frames, spec_state_for_input,
    spec_timer_from_fps, AnimationConfig,
};
use crate::components::{spec_adjusted_cooldown, Shoot};
use crate::config::{
    BULLET_SIZE, BULLET_SPEED, MAX_DT_MS, PLAYER_BOUNDS_X, PLAYER_BOUNDS_Y, PLAYER_HEALTH,
    PLAYER_SPEED,
};
use crate::game::{obj_ok, World};
use crate::game_state::GameState;
use crate::geom::{clamp_i64, sat_add, spec_clamp, spec_sat_add, Vec2i, Viewport};
use crate::registry::{
    count_bullets, lemma_counts_one_slot_change, slot_filled, Entity, GameObject, Kind, Registry,
    Slot,
};

verus! {

/// The player object as it starts a run: centered, full health, base speed,
/// the idle animation.
pub open spec fn spec_player_object() -> GameObject {
    GameObject {
        kind: Kind::Player,
        pos: Vec2i { x: 0, y: 0 },
        size: Vec2i { x: PLAYER_BOUNDS_X, y: PLAYER_BOUNDS_Y },
        speed: PLAYER_SPEED,
        health: PLAYER_HEALTH,
        anim: AnimationConfig {
            first_sprite_index: 0,
            last_sprite_index: 1,
            fps: 12,
            frame_timer_ms: spec_timer_from_fps(12),
        },
        frame: 0,
    }
}

/// Put a fresh player into the arena.
pub fn spawn_player(reg: &mut Registry) -> (e: Entity)
    requires
        old(reg).wf(),
    ensures
        final(reg).wf(),
        final(reg).is_live(e),
        final(reg).obj_of(e) == spec_player_object(),
        !old(reg).is_live(e),
        (e.index < old(reg).num_slots() && old(reg).slots_seq()[e.index as int].obj is None
            && e.generation == old(reg).slots_seq()[e.index as int].generation
            && final(reg).slots_seq() == old(reg).slots_seq().update(
            e.index as int,
            Slot { generation: e.generation, obj: Some(spec_player_object()) },
        )) || (e.index == old(reg).num_slots() && final(reg).slots_seq() == old(reg).slots_seq().push(
            Slot { generation: e.generation, obj: Some(spec_player_object()) },
        )),
{
    let obj = GameObject {
        kind: Kind::Player,
        pos: Vec2i { x: 0, y: 0 },
        size: Vec2i { x: PLAYER_BOUNDS_X, y: PLAYER_BOUNDS_Y },
        speed: PLAYER_SPEED,
        health: PLAYER_HEALTH,
        anim: AnimationConfig::new(0, 1, 12),
        frame: 0,
    };
    reg.spawn(obj)
}

/// How far the player travels in one tick, in milli-pixels: the base speed
/// scaled by the per-mille speed stat, scaled again by 707/1000 when both
/// axes are driven so diagonal motion is not faster, times the tick length.
pub open spec fn spec_player_delta(speed: u32, stat: u64, dt: u32, diag: bool) -> int {
    let eff = ((speed as int) * (stat as int)) / 1000;
    let eff2 = if diag {
        (eff * 707) / 1000
    } else {
        eff
    };
    eff2 * (dt as int)
}

/// What the input-driven player motion phase does to the world.
pub open spec fn spec_player_movement_rel(pre: World, post: World, dt: u32) -> bool {
    &&& post.wf()
    &&& post.counts == pre.counts
    &&& post.powerup_count == pre.powerup_count
    &&& post.score == pre.score
    &&& post.stats == pre.stats
    &&& post.player == pre.player
    &&& post.state == pre.state
    &&& post.same_player_components(pre)
    &&& (pre.player is None ==> post == pre)
    &&& (pre.player matches Some(p) ==> ({
        let o = pre.reg.obj_of(p);
        let diag = pre.input.dx != 0 && pre.input.dy != 0;
        let d = spec_player_delta(o.speed, pre.stats.speed, dt, diag);
        post.reg.slots_seq() == pre.reg.slots_seq().update(
            p.index as int,
            slot_filled(
                pre.reg.slots_seq()[p.index as int],
                GameObject {
                    pos: Vec2i {
                        x: spec_sat_add(o.pos.x as int, pre.input.dx * d) as i64,
                        y: spec_sat_add(o.pos.y as int, pre.input.dy * d) as i64,
                    },
                    ..o
                },
            ),
        )
    }))
}

/// Move the player by the current directional input, scaled by its speed
/// and the speed stat.
pub fn apply_player_movement(w: &mut World, dt: u32)
    requires
        old(w).wf(),
        dt <= MAX_DT_MS,
        old(w).input.wf(),
    ensures
        spec_player_movement_rel(*old(w), *final(w), dt),
{
    let p = match w.player {
        Some(p) => p,
        None => {
            return ;
        },
    };
    let o = match w.reg.get(p) {
        Some(o) => o,
        None => {
            proof {
                assert(false);
            }
            return ;
        },
    };
    proof {
        assert(w.reg.slots_seq()[p.index as int].obj == Some(o));
        assert(obj_ok(o));
        assert((o.speed as int) * (w.stats.speed as int) <= 1000 * 1000000000000)
            by (nonlinear_arith)
            requires
                o.speed <= 1000,
                w.stats.speed <= 1000000000000,
        ;
    }
    let eff: u64 = ((o.speed as u64) * w.stats.speed) / 1000;
    proof {
        vstd::arithmetic::div_mod::lemma_div_is_ordered(
            (o.speed as int) * (w.stats.speed as int),
            1000int * 1000000000000,
            1000,
        );
        assert(eff <= 1000000000000);
    }
    let diag = w.input.dx != 0 && w.input.dy != 0;
    let eff2: u64 = if diag {
        let scaled = (eff * 707) / 1000;
        proof {
            vstd::arithmetic::div_mod::lemma_div_is_ordered(
                (eff as int) * 707,
                1000000000000int * 707,
                1000,
            );
        }
        scaled
    } else {
        eff
    };
    proof {
        assert(eff2 <= 1000000000000);
        assert((eff2 as int) * (dt as int) <= 1000000000000 * (MAX_DT_MS as int))
            by (nonlinear_arith)
            requires
                eff2 <= 1000000000000,
                dt <= MAX_DT_MS,
        ;
    }
    let d: i64 = (eff2 * (dt as u64)) as i64;
    let new_x: i64 = if w.input.dx > 0 {
        sat_add(o.pos.x, d)
    } else if w.input.dx < 0 {
        sat_add(o.pos.x, -d)
    } else {
        o.pos.x
    };
    let new_y: i64 = if w.input.dy > 0 {
        sat_add(o.pos.y, d)
    } else if w.input.dy < 0 {
        sat_add(o.pos.y, -d)
    } else {
        o.pos.y
    };
    let new_obj = GameObject { pos: Vec2i { x: new_x, y: new_y }, ..o };
    proof {
        let ghost dd = spec_player_delta(o.speed, w.stats.speed, dt, diag);
        assert(d as int == dd);
        assert((w.input.dx as int) * dd == (if w.input.dx > 0 {
            dd
        } else if w.input.dx < 0 {
            -dd
        } else {
            0int
        })) by (nonlinear_arith)
            requires
                -1 <= w.input.dx <= 1,
        ;
        assert((w.input.dy as int) * dd == (if w.input.dy > 0 {
            dd
        } else if w.input.dy < 0 {
            -dd
        } else {
            0int
        })) by (nonlinear_arith)
            requires
                -1 <= w.input.dy <= 1,
        ;
        assert(new_x as int == spec_sat_add(o.pos.x as int, (w.input.dx as int) * dd));
        assert(new_y as int == spec_sat_add(o.pos.y as int, (w.input.dy as int) * dd));
    }
    let ghost pre: Seq<Slot> = w.reg.slots_seq();
    proof {
        lemma_counts_one_slot_change(
            pre,
            pre.update(p.index as int, slot_filled(pre[p.index as int], new_obj)),
            p.index as int,
            slot_filled(pre[p.index as int], new_obj),
        );
    }
    w.reg.set_obj(p.index, new_obj);
}

/// Where viewport confinement puts a coordinate: clamped into the interior
/// band that keeps the whole box on screen, or left alone when the box is
/// wider than the screen itself.
pub open spec fn spec_confined(v: int, half: int, dim: int) -> int {
    let lo = -(dim / 2) + half;
    let hi = dim / 2 - half;
    if lo <= hi {
        spec_clamp(v, lo, hi)
    } else {
        v
    }
}

/// What the confinement phase does to the world.
pub open spec fn spec_confine_rel(pre: World, post: World, vp: Viewport) -> bool {
    &&& post.wf()
    &&& post.counts == pre.counts
    &&& post.powerup_count == pre.powerup_count
    &&& post.score == pre.score
    &&& post.stats == pre.stats
    &&& post.player == pre.player
    &&& post.state == pre.state
    &&& post.same_player_components(pre)
    &&& (pre.player is None ==> post == pre)
    &&& (pre.player matches Some(p) ==> ({
        let o = pre.reg.obj_of(p);
        post.reg.slots_seq() == pre.reg.slots_seq().update(
            p.index as int,
            slot_filled(
                pre.reg.slots_seq()[p.index as int],
                GameObject {
                    pos: Vec2i {
                        x: spec_confined(o.pos.x as int, o.size.x as int / 2, vp.width as int)
                            as i64,
                        y: spec_confined(o.pos.y as int, o.size.y as int / 2, vp.height as int)
                            as i64,
                    },
                    ..o
                },
            ),
        )
    }))
}

/// Clamp the player back into the visible play area, minus half its
/// bounds. Enemies, bullets and powerups are deliberately not confined:
/// they leave the screen and are removed there.
pub fn confine_player_movement(w: &mut World, vp: &Viewport)
    requires
        old(w).wf(),
        vp.wf(),
    ensures
        spec_confine_rel(*old(w), *final(w), *vp),
{
    let p = match w.player {
        Some(p) => p,
        None => {
            return ;
        },
    };
    let o = match w.reg.get(p) {
        Some(o) => o,
        None => {
            proof {
                assert(false);
            }
            return ;
        },
    };
    proof {
        assert(w.reg.slots_seq()[p.index as int].obj == Some(o));
        assert(obj_ok(o));
    }
    let half_x: i64 = ((o.size.x as u64) / 2) as i64;
    let half_y: i64 = ((o.size.y as u64) / 2) as i64;
    let half_w: i64 = ((vp.width as u64) / 2) as i64;
    let half_h: i64 = ((vp.height as u64) / 2) as i64;
    let new_x: i64 = if -half_w + half_x <= half_w - half_x {
        clamp_i64(o.pos.x, -half_w + half_x, half_w - half_x)
    } else {
        o.pos.x
    };
    let new_y: i64 = if -half_h + half_y <= half_h - half_y {
        clamp_i64(o.pos.y, -half_h + half_y, half_h - half_y)
    } else {
        o.pos.y
    };
    let new_obj = GameObject { pos: Vec2i { x: new_x, y: new_y }, ..o };
    let ghost pre: Seq<Slot> = w.reg.slots_seq();
    proof {
        lemma_counts_one_slot_change(
            pre,
            pre.update(p.index as int, slot_filled(pre[p.index as int], new_obj)),
            p.index as int,
            slot_filled(pre[p.index as int], new_obj),
        );
    }
    w.reg.set_obj(p.index, new_obj);
}

/// The bullet one shot fires, rising from the player's position.
pub open spec fn spec_spawned_bullet(pos: Vec2i) -> GameObject {
    GameObject {
        kind: Kind::Bullet,
        pos,
        size: Vec2i { x: BULLET_SIZE, y: BULLET_SIZE },
        speed: BULLET_SPEED,
        health: 1,
        anim: AnimationConfig {
            first_sprite_index: 2,
            last_sprite_index: 3,
            fps: 12,
            frame_timer_ms: spec_timer_from_fps(12),
        },
        frame: 2,
    }
}

/// What the shooting phase does to the world.
pub open spec fn spec_spawn_bullets_rel(pre: World, post: World, dt: u32) -> bool {
    &&& post.wf()
    &&& post.counts == pre.counts
    &&& post.powerup_count == pre.powerup_count
    &&& post.score == pre.score
    &&& post.stats == pre.stats
    &&& post.player == pre.player
    &&& post.state == pre.state
    &&& post.player_state == pre.player_state
    &&& post.prev_state == pre.prev_state
    &&& post.anim_stack.frames@ == pre.anim_stack.frames@
    &&& post.anim_stack.cycles == pre.anim_stack.cycles
    &&& post.input == pre.input
    &&& post.shoot.is_shooting == pre.shoot.is_shooting
    &&& post.shoot.cooldown_ms == pre.shoot.cooldown_ms
    &&& ({
        let t1 = spec_count_down(pre.shoot.timer_ms, dt);
        let fires = pre.shoot.is_shooting && t1 == 0 && pre.player is Some;
        &&& (!fires ==> (post.shoot.timer_ms == t1 && post.reg.slots_seq() == pre.reg.slots_seq()))
        &&& (fires ==> ({
            let p = pre.player->0;
            &&& post.shoot.timer_ms == spec_adjusted_cooldown(
                pre.shoot.cooldown_ms,
                pre.stats.fire_rate,
            )
            &&& count_bullets(post.reg.slots_seq()) == count_bullets(pre.reg.slots_seq()) + 1
            &&& exists|e: Entity|
                post.reg.is_live(e) && #[trigger] post.reg.obj_of(e) == spec_spawned_bullet(
                    pre.reg.obj_of(p).pos,
                )
            &&& forall|j: int|
                0 <= j < pre.reg.num_slots() && pre.reg.slots_seq()[j].obj is Some
                    ==> post.reg.slots_seq()[j] == #[trigger] pre.reg.slots_seq()[j]
        }))
    })
}

/// Tick the shoot cooldown and fire when the trigger is held and the
/// cooldown has run out: one bullet appears at the player's position and
/// the cooldown restarts at the base value divided by the fire-rate stat.
pub fn spawn_bullets(w: &mut World, dt: u32)
    requires
        old(w).wf(),
    ensures
        spec_spawn_bullets_rel(*old(w), *final(w), dt),
{
    let t1: u32 = if dt >= w.shoot.timer_ms {
        0
    } else {
        w.shoot.timer_ms - dt
    };
    w.shoot.timer_ms = t1;
    if !w.shoot.is_shooting {
        return ;
    }
    if t1 != 0 {
        return ;
    }
    let p = match w.player {
        Some(p) => p,
        None => {
            return ;
        },
    };
    let o = match w.reg.get(p) {
        Some(o) => o,
        None => {
            proof {
                assert(false);
            }
            return ;
        },
    };
    let bullet = GameObject {
        kind: Kind::Bullet,
        pos: o.pos,
        size: Vec2i { x: BULLET_SIZE, y: BULLET_SIZE },
        speed: BULLET_SPEED,
        health: 1,
        anim: AnimationConfig::new(2, 3, 12),
        frame: 2,
    };
    let ghost pre: Seq<Slot> = w.reg.slots_seq();
    let e = w.reg.spawn(bullet);
    proof {
        lemma_counts_one_slot_change(
            pre,
            w.reg.slots_seq(),
            e.index as int,
            Slot { generation: e.generation, obj: Some(bullet) },
        );
    }
    let cooldown = w.shoot.get_adjusted_cooldown(w.stats.fire_rate);
    w.shoot.timer_ms = Shoot::timer_from_cooldown(cooldown);
}

/// What the game-over check does to the world: nothing but the run state,
/// which flips to game over exactly when the player is gone.
pub open spec fn spec_health_check_rel(pre: World, post: World) -> bool {
    &&& post.wf()
    &&& post == (World {
        state: if pre.player is None {
            GameState::GameOver
        } else {
            pre.state
        },
        ..pre
    })
}

/// End the run once the player is gone: the mutual-damage sweep despawns a
/// dead player, and this check turns that into the game-over state even if
/// another phase observed it first.
pub fn check_player_health(w: &mut World)
    requires
        old(w).wf(),
    ensures
        spec_health_check_rel(*old(w), *final(w)),
{
    if w.player.is_none() {
        w.state = GameState::GameOver;
    }
}

/// What the state-machine phase does to the world.
pub open spec fn spec_player_state_rel(pre: World, post: World) -> bool {
    &&& post.wf()
    &&& post.reg == pre.reg
    &&& post.counts == pre.counts
    &&& post.powerup_count == pre.powerup_count
    &&& post.score == pre.score
    &&& post.stats == pre.stats
    &&& post.player == pre.player
    &&& post.state == pre.state
    &&& post.shoot == pre.shoot
    &&& post.input == pre.input
    &&& ({
        let target = spec_state_for_input(pre.input.dx);
        let changed = target != pre.player_state;
        &&& post.player_state == target
        &&& (changed ==> (post.prev_state == crate::anim::PrevPlayerState(pre.player_state)
            && post.anim_stack.frames@ == spec_stack_frames(target, pre.player_state)
            && post.anim_stack.cycles == 0))
        &&& (!changed ==> (post.prev_state == pre.prev_state && post.anim_stack.frames@
            == pre.anim_stack.frames@ && post.anim_stack.cycles == pre.anim_stack.cycles))
    })
}

/// Drive the player state machine from the tick's horizontal input and, on
/// an actual transition, rebuild the animation stack for the new state
/// with the transition frames of the state being left.
pub fn update_player_state(w: &mut World)
    requires
        old(w).wf(),
    ensures
        spec_player_state_rel(*old(w), *final(w)),
{
    let dx = w.input.dx;
    let changed = crate::anim::update_player_state(dx, &mut w.player_state, &mut w.prev_state);
    if changed {
        crate::anim::update_animation_stack(w.player_state, w.prev_state, &mut w.anim_stack);
    }
}

/// What the player-animation phase does to the world.
pub open spec fn spec_player_anim_rel(pre: World, post: World, dt: u32) -> bool {
    &&& post.wf()
    &&& post.counts == pre.counts
    &&& post.powerup_count == pre.powerup_count
    &&& post.score == pre.score
    &&& post.stats == pre.stats
    &&& post.player == pre.player
    &&& post.state == pre.state
    &&& post.shoot == pre.shoot
    &&& post.input == pre.input
    &&& post.player_state == pre.player_state
    &&& post.prev_state == pre.prev_state
    &&& (pre.player is None ==> post == pre)
    &&& (pre.player matches Some(p) ==> ({
        let o = pre.reg.obj_of(p);
        let step = spec_player_anim_step(
            o.anim,
            o.frame,
            pre.anim_stack.frames@,
            pre.anim_stack.cycles,
            dt,
        );
        &&& post.reg.slots_seq() == pre.reg.slots_seq().update(
            p.index as int,
            slot_filled(
                pre.reg.slots_seq()[p.index as int],
                GameObject { anim: step.0, frame: step.1, ..o },
            ),
        )
        &&& post.anim_stack.frames@ == step.2
        &&& post.anim_stack.cycles == step.3
    }))
}

/// Advance the player's layered animation, stored partly on the player
/// object (config and frame) and partly in the world (the stack).
pub fn update_player_animation(w: &mut World, dt: u32)
    requires
        old(w).wf(),
    ensures
        spec_player_anim_rel(*old(w), *final(w), dt),
{
    let p = match w.player {
        Some(p) => p,
        None => {
            return ;
        },
    };
    let o = match w.reg.get(p) {
        Some(o) => o,
        None => {
            proof {
                assert(false);
            }
            return ;
        },
    };
    proof {
        assert(w.reg.slots_seq()[p.index as int].obj == Some(o));
        assert(obj_ok(o));
    }
    let mut anim = o.anim;
    let mut frame = o.frame;
    crate::anim::update_player_animation(&mut anim, &mut frame, &mut w.anim_stack, dt);
    let new_obj = GameObject { anim, frame, ..o };
    let ghost pre: Seq<Slot> = w.reg.slots_seq();
    proof {
        lemma_counts_one_slot_change(
            pre,
            pre.update(p.index as int, slot_filled(pre[p.index as int], new_obj)),
            p.index as int,
            slot_filled(pre[p.index as int], new_obj),
        );
    }
    w.reg.set_obj(p.index, new_obj);
}

} // verus!
