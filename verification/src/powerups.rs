//! Powerups: the live-powerup counter and event-driven spawning. A powerup
//! drop is not random: every non-Small enemy destruction attempts exactly
//! one spawn at the death position, gated only by the population cap.

use vstd::prelude::*;

use crate::anim::{spec_timer_from_fps, AnimationConfig};
use crate::config::{
    spec_powerup_for_tier, EnemyType, PowerupType, MAX_POWERUPS, POWERUP_SIZE, POWERUP_SPEED,
};
use crate::enemies::EnemyDestroyedEvent;
use crate::game::World;
use crate::geom::Vec2i;
use crate::registry::{lemma_counts_one_slot_change, GameObject, Kind, Slot};

verus! {

/// How many powerups are live; the world invariant ties it to the registry
/// contents and the population cap.
#[derive(Clone, Copy, Debug, PartialEq, Eq, Structural)]
pub struct PowerupCount(pub usize);

impl Default for PowerupCount {
    fn default() -> (c: PowerupCount)
        ensures
            c == PowerupCount(0),
    {
        PowerupCount(0)
    }
}

/// How many of the tick's destruction events come from a non-Small tier —
/// the ones that drop a powerup.
pub open spec fn spec_non_small(evs: Seq<EnemyDestroyedEvent>) -> int
    decreases evs.len(),
{
    if evs.len() == 0 {
        0
    } else {
        spec_non_small(evs.drop_last()) + (if evs.last().0.enemy_type == EnemyType::Small {
            0int
        } else {
            1int
        })
    }
}

pub proof fn lemma_non_small_take(evs: Seq<EnemyDestroyedEvent>, i: int)
    requires
        0 <= i < evs.len(),
    ensures
        spec_non_small(evs.take(i + 1)) == spec_non_small(evs.take(i)) + (if evs[i].0.enemy_type
            == EnemyType::Small {
            0int
        } else {
            1int
        }),
{
    assert(evs.take(i + 1).drop_last() =~= evs.take(i));
    assert(evs.take(i + 1).last() == evs[i]);
}

pub proof fn lemma_non_small_nonneg(evs: Seq<EnemyDestroyedEvent>)
    ensures
        0 <= spec_non_small(evs) <= evs.len(),
    decreases evs.len(),
{
    if evs.len() > 0 {
        lemma_non_small_nonneg(evs.drop_last());
    }
}

/// The powerup object a destroyed enemy leaves behind, falling from the
/// death position with the kind's two animation frames.
pub open spec fn spec_spawned_powerup(pt: PowerupType, pos: Vec2i) -> GameObject {
    GameObject {
        kind: Kind::Powerup(pt),
        pos,
        size: Vec2i { x: POWERUP_SIZE, y: POWERUP_SIZE },
        speed: POWERUP_SPEED,
        health: 1,
        anim: AnimationConfig {
            first_sprite_index: if pt == PowerupType::FireRate {
                0
            } else {
                2
            },
            last_sprite_index: if pt == PowerupType::FireRate {
                1
            } else {
                3
            },
            fps: 12,
            frame_timer_ms: spec_timer_from_fps(12),
        },
        frame: 0,
    }
}

/// Whether the destruction event in position `k` of the tick's list drops
/// a powerup: its tier maps to one and the population cap still has room
/// when its turn comes.
pub open spec fn spec_event_drops(evs: Seq<EnemyDestroyedEvent>, k: int, start_count: int) -> bool {
    &&& evs[k].0.enemy_type != EnemyType::Small
    &&& start_count + spec_non_small(evs.take(k)) < MAX_POWERUPS
}

/// What the powerup coordinator does to the world for one tick's events.
pub open spec fn spec_spawn_powerups_rel(
    pre: World,
    post: World,
    events: Seq<EnemyDestroyedEvent>,
) -> bool {
    &&& post.wf()
    &&& post.counts == pre.counts
    &&& post.score == pre.score
    &&& post.stats == pre.stats
    &&& post.player == pre.player
    &&& post.state == pre.state
    &&& post.same_player_components(pre)
    &&& ({
        let total = pre.powerup_count.0 + spec_non_small(events);
        post.powerup_count.0 == (if total > MAX_POWERUPS {
            MAX_POWERUPS as int
        } else {
            total
        })
    })
    // every occupied slot is untouched
    &&& forall|j: int|
        0 <= j < pre.reg.num_slots() && pre.reg.slots_seq()[j].obj is Some
            ==> post.reg.slots_seq()[j] == #[trigger] pre.reg.slots_seq()[j]
    &&& (events.len() == 0 ==> (post.reg.slots_seq() == pre.reg.slots_seq() && post.powerup_count
        == pre.powerup_count))
    // every dropping event leaves one powerup of the tier's mapped kind at
    // the death position
    &&& forall|k: int|
        0 <= k < events.len() && spec_event_drops(events, k, pre.powerup_count.0 as int) ==> (
        exists|idx: int|
            0 <= idx < post.reg.num_slots() && post.reg.slots_seq()[idx].obj == Some(
                spec_spawned_powerup(
                    spec_powerup_for_tier(events[k].0.enemy_type)->0,
                    #[trigger] events[k].0.position,
                ),
            ))
}

/// Turn the tick's destruction events into powerup drops: each non-Small
/// kill spawns one powerup of the tier's kind at the death position, unless
/// the population cap is already reached. The counter therefore ends at the
/// cap or at its old value plus the number of non-Small kills, whichever is
/// smaller.
pub fn spawn_powerups(w: &mut World, events: &Vec<EnemyDestroyedEvent>)
    requires
        old(w).wf(),
    ensures
        spec_spawn_powerups_rel(*old(w), *final(w), events@),
{
    let ghost orig: Seq<Slot> = w.reg.slots_seq();
    let ghost orig_pc: usize = w.powerup_count.0;
    let m = events.len();
    proof {
        assert(events@.take(0) =~= Seq::<EnemyDestroyedEvent>::empty());
    }
    for i in 0..m
        invariant
            m == events@.len(),
            w.reg.wf(),
            w.counts_ok(),
            w.objs_ok(),
            w.player_ok(),
            w.stats.wf(),
            w.anim_stack.frames@.len() >= 1,
            w.counts == old(w).counts,
            w.score == old(w).score,
            w.stats == old(w).stats,
            w.player == old(w).player,
            w.state == old(w).state,
            w.same_player_components(*old(w)),
            orig == old(w).reg.slots_seq(),
            orig_pc == old(w).powerup_count.0,
            w.reg.num_slots() >= orig.len(),
            forall|j: int|
                0 <= j < orig.len() && orig[j].obj is Some ==> w.reg.slots_seq()[j]
                    == #[trigger] orig[j],
            ({
                let total = orig_pc + spec_non_small(events@.take(i as int));
                w.powerup_count.0 == (if total > MAX_POWERUPS {
                    MAX_POWERUPS as int
                } else {
                    total
                })
            }),
            m == 0 ==> (w.reg.slots_seq() == orig && w.powerup_count.0 == orig_pc),
            forall|k: int|
                0 <= k < i && spec_event_drops(events@, k, orig_pc as int) ==> (exists|idx: int|
                    0 <= idx < w.reg.num_slots() && w.reg.slots_seq()[idx].obj == Some(
                        spec_spawned_powerup(
                            spec_powerup_for_tier(events@[k].0.enemy_type)->0,
                            #[trigger] events@[k].0.position,
                        ),
                    )),
    {
        proof {
            lemma_non_small_take(events@, i as int);
            lemma_non_small_nonneg(events@.take(i as int));
        }
        let ev = events[i];
        let drop_kind = match ev.0.enemy_type {
            EnemyType::Small => None,
            EnemyType::Medium => Some(PowerupType::Speed),
            EnemyType::Large => Some(PowerupType::FireRate),
        };
        if let Some(pt) = drop_kind {
            if w.powerup_count.0 < MAX_POWERUPS {
                let first: usize = match pt {
                    PowerupType::FireRate => 0,
                    PowerupType::Speed => 2,
                };
                let last: usize = match pt {
                    PowerupType::FireRate => 1,
                    PowerupType::Speed => 3,
                };
                let obj = GameObject {
                    kind: Kind::Powerup(pt),
                    pos: ev.0.position,
                    size: Vec2i { x: POWERUP_SIZE, y: POWERUP_SIZE },
                    speed: POWERUP_SPEED,
                    health: 1,
                    anim: AnimationConfig::new(first, last, 12),
                    frame: 0,
                };
                let ghost pre: Seq<Slot> = w.reg.slots_seq();
                let e = w.reg.spawn(obj);
                proof {
                    lemma_counts_one_slot_change(
                        pre,
                        w.reg.slots_seq(),
                        e.index as int,
                        Slot { generation: e.generation, obj: Some(obj) },
                    );
                    assert(w.reg.slots_seq()[e.index as int].obj == Some(
                        spec_spawned_powerup(pt, ev.0.position),
                    ));
                    assert(spec_powerup_for_tier(ev.0.enemy_type)->0 == pt);
                    assert forall|k: int|
                        0 <= k < i + 1 && spec_event_drops(events@, k, orig_pc as int) implies (
                    exists|idx: int|
                        0 <= idx < w.reg.num_slots() && w.reg.slots_seq()[idx].obj == Some(
                            spec_spawned_powerup(
                                spec_powerup_for_tier(events@[k].0.enemy_type)->0,
                                #[trigger] events@[k].0.position,
                            ),
                        )) by {
                        if k == i as int {
                            assert(0 <= e.index < w.reg.num_slots()
                                && w.reg.slots_seq()[e.index as int].obj == Some(
                                spec_spawned_powerup(
                                    spec_powerup_for_tier(events@[k].0.enemy_type)->0,
                                    events@[k].0.position,
                                ),
                            ));
                        } else {
                            let idx = choose|idx: int|
                                0 <= idx < pre.len() && pre[idx].obj == Some(
                                    spec_spawned_powerup(
                                        spec_powerup_for_tier(events@[k].0.enemy_type)->0,
                                        events@[k].0.position,
                                    ),
                                );
                            assert(w.reg.slots_seq()[idx] == pre[idx]);
                        }
                    }
                }
                w.powerup_count.0 = w.powerup_count.0 + 1;
            }
        }
    }
    proof {
        assert(events@.take(m as int) =~= events@);
    }
}

} // verus!
