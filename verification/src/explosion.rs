//! Explosion visuals: every destruction event spawns a one-shot explosion
//! animation at the death position, and the per-tick animation advance for
//! all registry objects, which also retires finished explosions.

use vstd::prelude::*;

use crate::anim::{
    spec_anim_ticked, spec_just_finished, spec_timer_from_fps, AnimationConfig,
};
use crate::enemies::EnemyDestroyedEvent;
use crate::game::World;
use crate::geom::Vec2i;
use crate::registry::{
    count_explosions, lemma_counts_one_slot_change, slot_filled, spec_bump, GameObject, Kind,
    Slot,
};

verus! {

/// The explosion object spawned where an enemy died: a five-frame one-shot
/// animation that despawns when it completes.
pub open spec fn spec_spawned_explosion(pos: Vec2i) -> GameObject {
    GameObject {
        kind: Kind::Explosion,
        pos,
        size: Vec2i { x: 32000, y: 32000 },
        speed: 0,
        health: 1,
        anim: AnimationConfig {
            first_sprite_index: 0,
            last_sprite_index: 4,
            fps: 12,
            frame_timer_ms: spec_timer_from_fps(12),
        },
        frame: 0,
    }
}

/// What the explosion spawner does to the world for one tick's events.
pub open spec fn spec_destroy_events_rel(
    pre: World,
    post: World,
    events: Seq<crate::enemies::EnemyDestroyedEvent>,
) -> bool {
    &&& post.wf()
    &&& post.counts == pre.counts
    &&& post.powerup_count == pre.powerup_count
    &&& post.score == pre.score
    &&& post.stats == pre.stats
    &&& post.player == pre.player
    &&& post.state == pre.state
    &&& post.same_player_components(pre)
    &&& forall|j: int|
        0 <= j < pre.reg.num_slots() && pre.reg.slots_seq()[j].obj is Some
            ==> post.reg.slots_seq()[j] == #[trigger] pre.reg.slots_seq()[j]
    &&& (events.len() == 0 ==> post.reg.slots_seq() == pre.reg.slots_seq())
    // exactly one explosion appears per event
    &&& count_explosions(post.reg.slots_seq()) == count_explosions(pre.reg.slots_seq())
        + events.len()
    // one live explosion stands at each death position
    &&& forall|k: int|
        0 <= k < events.len() ==> (exists|idx: int|
            0 <= idx < post.reg.num_slots() && post.reg.slots_seq()[idx].obj == Some(
                spec_spawned_explosion(#[trigger] events[k].0.position),
            ))
}

/// Spawn one explosion per destruction event of the tick.
pub fn handle_destroy_event(w: &mut World, events: &Vec<EnemyDestroyedEvent>)
    requires
        old(w).wf(),
    ensures
        spec_destroy_events_rel(*old(w), *final(w), events@),
{
    let ghost orig: Seq<Slot> = w.reg.slots_seq();
    let m = events.len();
    for i in 0..m
        invariant
            m == events@.len(),
            w.reg.wf(),
            w.counts_ok(),
            w.objs_ok(),
            w.player_ok(),
            w.stats.wf(),
            w.anim_stack.frames@.len() >= 1,
            w.counts == old(w).counts,
            w.powerup_count == old(w).powerup_count,
            w.score == old(w).score,
            w.stats == old(w).stats,
            w.player == old(w).player,
            w.state == old(w).state,
            w.same_player_components(*old(w)),
            orig == old(w).reg.slots_seq(),
            w.reg.num_slots() >= orig.len(),
            forall|j: int|
                0 <= j < orig.len() && orig[j].obj is Some ==> w.reg.slots_seq()[j]
                    == #[trigger] orig[j],
            m == 0 ==> w.reg.slots_seq() == orig,
            count_explosions(w.reg.slots_seq()) == count_explosions(orig) + i,
            forall|k: int|
                0 <= k < i ==> (exists|idx: int|
                    0 <= idx < w.reg.num_slots() && w.reg.slots_seq()[idx].obj == Some(
                        spec_spawned_explosion(#[trigger] events@[k].0.position),
                    )),
    {
        let ev = events[i];
        let obj = GameObject {
            kind: Kind::Explosion,
            pos: ev.0.position,
            size: Vec2i { x: 32000, y: 32000 },
            speed: 0,
            health: 1,
            anim: AnimationConfig::new(0, 4, 12),
            frame: 0,
        };
        let ghost pre: Seq<Slot> = w.reg.slots_seq();
        let e = w.reg.spawn(obj);
        proof {
            lemma_counts_one_slot_change(
                pre,
                w.reg.slots_seq(),
                e.index as int,
                Slot { generation: e.generation, obj: Some(obj) },
            );
            assert(w.reg.slots_seq()[e.index as int].obj == Some(
                spec_spawned_explosion(ev.0.position),
            ));
            assert forall|k: int|
                0 <= k < i + 1 implies (exists|idx: int|
                0 <= idx < w.reg.num_slots() && w.reg.slots_seq()[idx].obj == Some(
                    spec_spawned_explosion(#[trigger] events@[k].0.position),
                )) by {
                if k == i as int {
                    assert(0 <= e.index < w.reg.num_slots() && w.reg.slots_seq()[e.index as int].obj
                        == Some(spec_spawned_explosion(events@[k].0.position)));
                } else {
                    let idx = choose|idx: int|
                        0 <= idx < pre.len() && pre[idx].obj == Some(
                            spec_spawned_explosion(events@[k].0.position),
                        );
                    assert(w.reg.slots_seq()[idx] == pre[idx]);
                }
            }
        }
    }
}

/// What one tick of animation does to a slot: enemies, bullets and
/// powerups loop their frame range; an explosion that finished its last
/// frame is despawned; the player's sprite is driven by the animation
/// stack instead, elsewhere.
pub open spec fn spec_anim_slot(s: Slot, dt: u32) -> Slot {
    match s.obj {
        None => s,
        Some(o) => match o.kind {
            Kind::Player => s,
            Kind::Explosion => {
                if spec_just_finished(o.anim.frame_timer_ms, dt) && o.frame
                    >= o.anim.last_sprite_index {
                    Slot { generation: spec_bump(s.generation), obj: None }
                } else {
                    slot_filled(
                        s,
                        GameObject {
                            anim: spec_anim_ticked(o.anim, o.frame, dt).0,
                            frame: spec_anim_ticked(o.anim, o.frame, dt).1,
                            ..o
                        },
                    )
                }
            },
            _ => slot_filled(
                s,
                GameObject {
                    anim: spec_anim_ticked(o.anim, o.frame, dt).0,
                    frame: spec_anim_ticked(o.anim, o.frame, dt).1,
                    ..o
                },
            ),
        },
    }
}

/// What the sprite-animation phase does to the world: every slot is
/// advanced pointwise and nothing else changes.
pub open spec fn spec_animations_rel(pre: World, post: World, dt: u32) -> bool {
    &&& post.wf()
    &&& post.reg.num_slots() == pre.reg.num_slots()
    &&& forall|j: int|
        0 <= j < pre.reg.num_slots() ==> post.reg.slots_seq()[j] == spec_anim_slot(
            #[trigger] pre.reg.slots_seq()[j],
            dt,
        )
    &&& post.counts == pre.counts
    &&& post.powerup_count == pre.powerup_count
    &&& post.score == pre.score
    &&& post.stats == pre.stats
    &&& post.player == pre.player
    &&& post.state == pre.state
    &&& post.same_player_components(pre)
}

/// Advance every non-player sprite animation by `dt` milliseconds.
pub fn update_animations(w: &mut World, dt: u32)
    requires
        old(w).wf(),
    ensures
        spec_animations_rel(*old(w), *final(w), dt),
{
    let ghost orig: Seq<Slot> = w.reg.slots_seq();
    let n = w.reg.slot_count();
    for i in 0..n
        invariant
            n == orig.len(),
            w.reg.num_slots() == orig.len(),
            w.reg.wf(),
            w.counts_ok(),
            w.objs_ok(),
            w.player_ok(),
            w.stats.wf(),
            w.anim_stack.frames@.len() >= 1,
            w.counts == old(w).counts,
            w.powerup_count == old(w).powerup_count,
            w.score == old(w).score,
            w.stats == old(w).stats,
            w.player == old(w).player,
            w.state == old(w).state,
            w.same_player_components(*old(w)),
            orig == old(w).reg.slots_seq(),
            forall|j: int|
                0 <= j < i ==> w.reg.slots_seq()[j] == spec_anim_slot(#[trigger] orig[j], dt),
            forall|j: int| i <= j < orig.len() ==> w.reg.slots_seq()[j] == #[trigger] orig[j],
    {
        let ghost pre: Seq<Slot> = w.reg.slots_seq();
        match w.reg.peek(i) {
            Some((e, o)) => {
                proof {
                    assert(w.reg.slots_seq()[i as int].obj == Some(o));
                    assert(crate::game::obj_ok(o));
                }
                match o.kind {
                    Kind::Player => {
                        proof {
                            assert(w.reg.slots_seq()[i as int] == spec_anim_slot(
                                orig[i as int],
                                dt,
                            ));
                        }
                    },
                    Kind::Explosion => {
                        let mut anim = o.anim;
                        let mut frame = o.frame;
                        let over = crate::anim::update_one_shot_animation(&mut anim, &mut frame, dt);
                        if over {
                            proof {
                                lemma_counts_one_slot_change(
                                    pre,
                                    pre.update(
                                        i as int,
                                        Slot {
                                            generation: spec_bump(pre[i as int].generation),
                                            obj: None,
                                        },
                                    ),
                                    i as int,
                                    Slot {
                                        generation: spec_bump(pre[i as int].generation),
                                        obj: None,
                                    },
                                );
                            }
                            let _ = w.reg.despawn(e);
                        } else {
                            let new_obj = GameObject { anim, frame, ..o };
                            proof {
                                lemma_counts_one_slot_change(
                                    pre,
                                    pre.update(i as int, slot_filled(pre[i as int], new_obj)),
                                    i as int,
                                    slot_filled(pre[i as int], new_obj),
                                );
                            }
                            w.reg.set_obj(i, new_obj);
                        }
                        proof {
                            assert(w.reg.slots_seq()[i as int] == spec_anim_slot(
                                orig[i as int],
                                dt,
                            ));
                        }
                    },
                    _ => {
                        let mut anim = o.anim;
                        let mut frame = o.frame;
                        let _ = crate::anim::update_animation(&mut anim, &mut frame, dt);
                        let new_obj = GameObject { anim, frame, ..o };
                        proof {
                            lemma_counts_one_slot_change(
                                pre,
                                pre.update(i as int, slot_filled(pre[i as int], new_obj)),
                                i as int,
                                slot_filled(pre[i as int], new_obj),
                            );
                        }
                        w.reg.set_obj(i, new_obj);
                        proof {
                            assert(w.reg.slots_seq()[i as int] == spec_anim_slot(
                                orig[i as int],
                                dt,
                            ));
                        }
                    },
                }
            },
            None => {
                proof {
                    assert(w.reg.slots_seq()[i as int] == spec_anim_slot(orig[i as int], dt));
                }
            },
        }
    }
}

} // verus!
