//! Per-tick motion integration for all constant-velocity objects, and the
//! removal of objects that left the screen.
//!
//! Enemies and powerups fall straight down at their configured speed,
//! bullets rise straight up; the player is moved separately by input. An
//! object's travel in one tick is `speed * dt` (pixels per second times
//! milliseconds, giving milli-pixels), added with saturation so positions
//! stay total without bounds bookkeeping.

use vstd::prelude::*;

use crate::config::{MAX_DT_MS, MAX_SPEED};
use crate::game::{obj_ok, World};
use crate::geom::{sat_add, spec_sat_add, Vec2i, Viewport};
use crate::registry::{
    lemma_count_where_at_least_one, lemma_counts_one_slot_change, slot_filled, spec_bump,
    GameObject, Kind, Slot,
};

verus! {

/// Where one tick of constant-velocity motion takes an object.
pub open spec fn spec_moved(o: GameObject, dt: u32) -> GameObject {
    match o.kind {
        Kind::Enemy(_) => GameObject {
            pos: Vec2i {
                x: o.pos.x,
                y: spec_sat_add(o.pos.y as int, -((o.speed as int) * (dt as int))) as i64,
            },
            ..o
        },
        Kind::Powerup(_) => GameObject {
            pos: Vec2i {
                x: o.pos.x,
                y: spec_sat_add(o.pos.y as int, -((o.speed as int) * (dt as int))) as i64,
            },
            ..o
        },
        Kind::Bullet => GameObject {
            pos: Vec2i {
                x: o.pos.x,
                y: spec_sat_add(o.pos.y as int, (o.speed as int) * (dt as int)) as i64,
            },
            ..o
        },
        Kind::Player => o,
        Kind::Explosion => o,
    }
}

pub open spec fn spec_slot_moved(s: Slot, dt: u32) -> Slot {
    Slot {
        generation: s.generation,
        obj: match s.obj {
            Some(o) => Some(spec_moved(o, dt)),
            None => None,
        },
    }
}

/// What one motion phase does to the world: every slot is moved pointwise
/// and nothing else changes.
pub open spec fn spec_movement_rel(pre: World, post: World, dt: u32) -> bool {
    &&& post.wf()
    &&& post.reg.num_slots() == pre.reg.num_slots()
    &&& forall|j: int|
        0 <= j < pre.reg.num_slots() ==> post.reg.slots_seq()[j] == spec_slot_moved(
            #[trigger] pre.reg.slots_seq()[j],
            dt,
        )
    &&& post.counts == pre.counts
    &&& post.powerup_count == pre.powerup_count
    &&& post.score == pre.score
    &&& post.stats == pre.stats
    &&& post.player == pre.player
    &&& post.state == pre.state
    &&& post.same_player_components(pre)
}

/// Advance every enemy, powerup and bullet by one tick of motion. Nothing
/// else about the world changes.
pub fn apply_movement(w: &mut World, dt: u32)
    requires
        old(w).wf(),
        dt <= MAX_DT_MS,
    ensures
        spec_movement_rel(*old(w), *final(w), dt),
{
    let ghost orig: Seq<Slot> = w.reg.slots_seq();
    let n = w.reg.slot_count();
    for i in 0..n
        invariant
            n == orig.len(),
            w.reg.num_slots() == orig.len(),
            w.reg.wf(),
            w.counts_ok(),
            w.objs_ok(),
            w.player_ok(),
            w.stats.wf(),
            w.anim_stack.frames@.len() >= 1,
            dt <= MAX_DT_MS,
            forall|j: int|
                0 <= j < i ==> w.reg.slots_seq()[j] == spec_slot_moved(#[trigger] orig[j], dt),
            forall|j: int| i <= j < orig.len() ==> w.reg.slots_seq()[j] == #[trigger] orig[j],
            w.counts == old(w).counts,
            w.powerup_count == old(w).powerup_count,
            w.score == old(w).score,
            w.stats == old(w).stats,
            w.player == old(w).player,
            w.state == old(w).state,
            w.same_player_components(*old(w)),
            orig == old(w).reg.slots_seq(),
    {
        let ghost pre: Seq<Slot> = w.reg.slots_seq();
        match w.reg.peek(i) {
            Some((e, o)) => {
                let moved: bool = match o.kind {
                    Kind::Enemy(_) => true,
                    Kind::Powerup(_) => true,
                    Kind::Bullet => true,
                    Kind::Player => false,
                    Kind::Explosion => false,
                };
                if moved {
                    proof {
                        assert(w.reg.slots_seq()[i as int].obj == Some(o));
                        assert(obj_ok(o));
                        assert((o.speed as int) * (dt as int) <= (MAX_SPEED as int) * (
                        MAX_DT_MS as int)) by (nonlinear_arith)
                            requires
                                o.speed <= MAX_SPEED,
                                dt <= MAX_DT_MS,
                        ;
                    }
                    let delta: i64 = (o.speed as i64) * (dt as i64);
                    let new_y: i64 = match o.kind {
                        Kind::Bullet => sat_add(o.pos.y, delta),
                        _ => sat_add(o.pos.y, -delta),
                    };
                    let new_obj = GameObject { pos: Vec2i { x: o.pos.x, y: new_y }, ..o };
                    w.reg.set_obj(i, new_obj);
                    proof {
                        lemma_counts_one_slot_change(
                            pre,
                            w.reg.slots_seq(),
                            i as int,
                            slot_filled(pre[i as int], new_obj),
                        );
                        assert(w.reg.slots_seq()[i as int] == spec_slot_moved(orig[i as int], dt));
                    }
                } else {
                    proof {
                        assert(w.reg.slots_seq()[i as int] == spec_slot_moved(orig[i as int], dt));
                    }
                }
            },
            None => {
                proof {
                    assert(w.reg.slots_seq()[i as int] == spec_slot_moved(orig[i as int], dt));
                }
            },
        }
    }
}

/// Whether an object has left the play area and is due for removal:
/// enemies and powerups once they fell below the bottom edge, bullets once
/// they rose above the top edge. The player and explosions never leave this
/// way.
pub open spec fn spec_offscreen(o: GameObject, vp: Viewport) -> bool {
    match o.kind {
        Kind::Enemy(_) => o.pos.y < -((vp.height as int) / 2),
        Kind::Powerup(_) => o.pos.y < -((vp.height as int) / 2),
        Kind::Bullet => o.pos.y > (vp.height as int) / 2,
        Kind::Player => false,
        Kind::Explosion => false,
    }
}

/// What the removal sweep leaves of a slot.
pub open spec fn spec_swept_slot(s: Slot, vp: Viewport) -> Slot {
    if s.obj matches Some(o) && spec_offscreen(o, vp) {
        Slot { generation: spec_bump(s.generation), obj: None }
    } else {
        s
    }
}

/// What the off-screen sweep does to the world: every slot is swept
/// pointwise and nothing but the population counters changes with it.
pub open spec fn spec_offscreen_rel(pre: World, post: World, vp: Viewport) -> bool {
    &&& post.wf()
    &&& post.reg.num_slots() == pre.reg.num_slots()
    &&& forall|j: int|
        0 <= j < pre.reg.num_slots() ==> post.reg.slots_seq()[j] == spec_swept_slot(
            #[trigger] pre.reg.slots_seq()[j],
            vp,
        )
    &&& post.score == pre.score
    &&& post.stats == pre.stats
    &&& post.player == pre.player
    &&& post.state == pre.state
    &&& post.same_player_components(pre)
}

/// Despawn every object that left the screen, keeping the population
/// counters in step. Nothing else about the world changes.
pub fn remove_offscreen(w: &mut World, vp: &Viewport)
    requires
        old(w).wf(),
        vp.wf(),
    ensures
        spec_offscreen_rel(*old(w), *final(w), *vp),
{
    let ghost orig: Seq<Slot> = w.reg.slots_seq();
    let n = w.reg.slot_count();
    let half_h: i64 = ((vp.height as u64) / 2) as i64;
    for i in 0..n
        invariant
            n == orig.len(),
            w.reg.num_slots() == orig.len(),
            w.reg.wf(),
            w.counts_ok(),
            w.objs_ok(),
            w.player_ok(),
            w.stats.wf(),
            w.anim_stack.frames@.len() >= 1,
            vp.wf(),
            half_h == (vp.height as int) / 2,
            forall|j: int|
                0 <= j < i ==> w.reg.slots_seq()[j] == spec_swept_slot(#[trigger] orig[j], *vp),
            forall|j: int| i <= j < orig.len() ==> w.reg.slots_seq()[j] == #[trigger] orig[j],
            w.score == old(w).score,
            w.stats == old(w).stats,
            w.player == old(w).player,
            w.state == old(w).state,
            w.same_player_components(*old(w)),
            orig == old(w).reg.slots_seq(),
    {
        let ghost pre: Seq<Slot> = w.reg.slots_seq();
        match w.reg.peek(i) {
            Some((e, o)) => {
                let gone: bool = match o.kind {
                    Kind::Enemy(_) => o.pos.y < -half_h,
                    Kind::Powerup(_) => o.pos.y < -half_h,
                    Kind::Bullet => o.pos.y > half_h,
                    Kind::Player => false,
                    Kind::Explosion => false,
                };
                if gone {
                    proof {
                        lemma_counts_one_slot_change(
                            pre,
                            pre.update(
                                i as int,
                                Slot { generation: spec_bump(pre[i as int].generation), obj: None },
                            ),
                            i as int,
                            Slot { generation: spec_bump(pre[i as int].generation), obj: None },
                        );
                        match o.kind {
                            Kind::Enemy(t) => {
                                lemma_count_where_at_least_one(
                                    pre,
                                    i as int,
                                    crate::registry::enemy_pred(t),
                                );
                            },
                            Kind::Powerup(_) => {
                                lemma_count_where_at_least_one(
                                    pre,
                                    i as int,
                                    crate::registry::powerup_pred(),
                                );
                            },
                            _ => {},
                        }
                    }
                    let _ = w.reg.despawn(e);
                    match o.kind {
                        Kind::Enemy(t) => {
                            w.counts.decrement(&t);
                        },
                        Kind::Powerup(_) => {
                            w.powerup_count.0 = w.powerup_count.0 - 1;
                        },
                        _ => {},
                    }
                    proof {
                        assert(w.reg.slots_seq()[i as int] == spec_swept_slot(orig[i as int], *vp));
                    }
                } else {
                    proof {
                        assert(w.reg.slots_seq()[i as int] == spec_swept_slot(orig[i as int], *vp));
                    }
                }
            },
            None => {
                proof {
                    assert(w.reg.slots_seq()[i as int] == spec_swept_slot(orig[i as int], *vp));
                }
            },
        }
    }
}

} // verus!
