//! Collision detection and damage resolution, the algorithmic core.
//!
//! Two independent categories run in a fixed order each tick: bullets
//! against enemies first, then enemies against the player, so a lethal
//! bullet kill resolves before the same enemy could hurt the player.

use vstd::prelude::*;

use crate::config::{spec_enemy_config, EnemyType};
use crate::enemies::{EnemyDestroyedData, EnemyDestroyedEvent};
use crate::game::{obj_ok, obj_ok_damaged, World};
use crate::geom::{intersects, spec_intersects, Aabb, Vec2i};
use crate::registry::{
    lemma_count_where_at_least_one, lemma_counts_one_slot_change, slot_filled, spec_bump,
    Entity, GameObject, Kind, Slot,
};

verus! {

/// The collision box of an object: its center position with half its
/// recorded size on each side.
pub open spec fn spec_obj_box(o: GameObject) -> Aabb {
    Aabb {
        center: o.pos,
        half: Vec2i { x: (o.size.x as int / 2) as i64, y: (o.size.y as int / 2) as i64 },
    }
}

pub fn obj_box(o: &GameObject) -> (b: Aabb)
    requires
        o.size.x >= 0,
        o.size.y >= 0,
    ensures
        b == spec_obj_box(*o),
{
    Aabb {
        center: o.pos,
        half: Vec2i {
            x: ((o.size.x as u64) / 2) as i64,
            y: ((o.size.y as u64) / 2) as i64,
        },
    }
}

/// The score the destruction events of one tick award in total.
pub open spec fn spec_events_score(evs: Seq<EnemyDestroyedEvent>) -> int
    decreases evs.len(),
{
    if evs.len() == 0 {
        0
    } else {
        spec_events_score(evs.drop_last()) + spec_enemy_config(evs.last().0.enemy_type).score
    }
}

pub proof fn lemma_events_score_push(evs: Seq<EnemyDestroyedEvent>, ev: EnemyDestroyedEvent)
    ensures
        spec_events_score(evs.push(ev)) == spec_events_score(evs) + spec_enemy_config(
            ev.0.enemy_type,
        ).score,
{
    assert(evs.push(ev).drop_last() =~= evs);
    assert(evs.push(ev).last() == ev);
}

pub proof fn lemma_events_score_nonneg(evs: Seq<EnemyDestroyedEvent>)
    ensures
        spec_events_score(evs) >= 0,
    decreases evs.len(),
{
    if evs.len() > 0 {
        lemma_events_score_nonneg(evs.drop_last());
    }
}

/// How many of the tick's destruction events carry tier `t`.
pub open spec fn spec_events_of_tier(evs: Seq<EnemyDestroyedEvent>, t: EnemyType) -> int
    decreases evs.len(),
{
    if evs.len() == 0 {
        0
    } else {
        spec_events_of_tier(evs.drop_last(), t) + (if evs.last().0.enemy_type == t {
            1int
        } else {
            0int
        })
    }
}

pub proof fn lemma_events_of_tier_push(
    evs: Seq<EnemyDestroyedEvent>,
    ev: EnemyDestroyedEvent,
    t: EnemyType,
)
    ensures
        spec_events_of_tier(evs.push(ev), t) == spec_events_of_tier(evs, t) + (
        if ev.0.enemy_type == t {
            1int
        } else {
            0int
        }),
{
    assert(evs.push(ev).drop_last() =~= evs);
    assert(evs.push(ev).last() == ev);
}

/// Addition on the score that stops at the top of the range.
pub open spec fn spec_sat_score(total: int) -> u64 {
    if total > u64::MAX {
        u64::MAX
    } else if total < 0 {
        0
    } else {
        total as u64
    }
}

pub fn sat_add_u64(a: u64, b: u64) -> (r: u64)
    ensures
        r == spec_sat_score(a + b),
{
    if a > u64::MAX - b {
        u64::MAX
    } else {
        a + b
    }
}

/// A live bullet in slot `bi` overlapping a live enemy in slot `ej`.
pub open spec fn spec_bullet_enemy_overlap(s: Seq<Slot>, bi: int, ej: int) -> bool {
    &&& 0 <= bi < s.len()
    &&& 0 <= ej < s.len()
    &&& s[bi].obj matches Some(b) && b.kind is Bullet && (s[ej].obj matches Some(o) && o.kind
        is Enemy && spec_intersects(spec_obj_box(b), spec_obj_box(o)))
}

/// A bullet that overlaps at least one live enemy: it will be consumed by
/// the contact.
pub open spec fn spec_bullet_consumed(s: Seq<Slot>, bi: int) -> bool {
    exists|ej: int| spec_bullet_enemy_overlap(s, bi, ej)
}

/// The first (lowest-index) enemy slot the bullet in `bi` overlaps,
/// scanning from slot `k` on; -1 when it overlaps none.
pub open spec fn spec_first_target_from(s: Seq<Slot>, bi: int, k: int) -> int
    decreases s.len() - k,
{
    if k < 0 || k >= s.len() {
        -1
    } else if spec_bullet_enemy_overlap(s, bi, k) {
        k
    } else {
        spec_first_target_from(s, bi, k + 1)
    }
}

pub open spec fn spec_first_target(s: Seq<Slot>, bi: int) -> int {
    spec_first_target_from(s, bi, 0)
}

pub proof fn lemma_first_target_found(s: Seq<Slot>, bi: int, j: int, k: int)
    requires
        0 <= k <= j,
        spec_bullet_enemy_overlap(s, bi, j),
        forall|m: int| k <= m < j ==> !spec_bullet_enemy_overlap(s, bi, m),
    ensures
        spec_first_target_from(s, bi, k) == j,
    decreases j - k,
{
    if k < j {
        lemma_first_target_found(s, bi, j, k + 1);
    }
}

pub proof fn lemma_first_target_overlaps(s: Seq<Slot>, bi: int, k: int)
    requires
        0 <= k,
        spec_first_target_from(s, bi, k) >= 0,
    ensures
        spec_bullet_enemy_overlap(s, bi, spec_first_target_from(s, bi, k)),
    decreases s.len() - k,
{
    if k < s.len() && !spec_bullet_enemy_overlap(s, bi, k) {
        lemma_first_target_overlaps(s, bi, k + 1);
    }
}

/// The damage the first `upto` slots' bullets deal to the enemy in slot
/// `ej`: each bullet's single point of damage goes to the first enemy it
/// overlaps.
pub open spec fn spec_assigned_damage(s: Seq<Slot>, ej: int, upto: int) -> int
    decreases upto,
{
    if upto <= 0 {
        0
    } else {
        spec_assigned_damage(s, ej, upto - 1) + (if s[upto - 1].obj matches Some(b) && b.kind
            is Bullet && spec_first_target(s, upto - 1) == ej {
            1int
        } else {
            0int
        })
    }
}

/// The total damage the tick's bullets deal to the enemy in slot `ej`.
pub open spec fn spec_bullet_damage(s: Seq<Slot>, ej: int) -> int {
    spec_assigned_damage(s, ej, s.len() as int)
}

/// What bullet-enemy resolution leaves of each slot: a bullet overlapping
/// any enemy is consumed; an enemy takes exactly its assigned damage and
/// dies exactly when that reaches its health; everything else is
/// untouched.
pub open spec fn spec_resolved_slot(s: Seq<Slot>, j: int) -> Slot {
    if spec_bullet_consumed(s, j) {
        Slot { generation: spec_bump(s[j].generation), obj: None }
    } else {
        match s[j].obj {
            Some(o) => {
                if o.kind is Enemy {
                    let dmg = spec_bullet_damage(s, j);
                    if dmg >= o.health {
                        Slot { generation: spec_bump(s[j].generation), obj: None }
                    } else {
                        slot_filled(s[j], GameObject { health: (o.health - dmg) as i32, ..o })
                    }
                } else {
                    s[j]
                }
            },
            None => s[j],
        }
    }
}

/// What bullet-enemy resolution does to the world, with the destruction
/// events it emits.
pub open spec fn spec_bullet_collision_rel(
    pre: World,
    post: World,
    events: Seq<EnemyDestroyedEvent>,
) -> bool {
    &&& post.wf()
    &&& post.score.0 == spec_sat_score(pre.score.0 + spec_events_score(events))
    &&& post.stats == pre.stats
    &&& post.player == pre.player
    &&& post.state == pre.state
    &&& post.powerup_count == pre.powerup_count
    &&& post.same_player_components(pre)
    &&& post.reg.num_slots() == pre.reg.num_slots()
    // exactly one event per destroyed enemy of each tier, so the score
    // the tick awards is exactly the sum over the enemies that died
    &&& post.counts.small + spec_events_of_tier(events, EnemyType::Small) == pre.counts.small
    &&& post.counts.medium + spec_events_of_tier(events, EnemyType::Medium) == pre.counts.medium
    &&& post.counts.large + spec_events_of_tier(events, EnemyType::Large) == pre.counts.large
    // per-slot resolution: each bullet that overlaps an enemy ends
    // consumed, each enemy takes exactly the damage of the bullets
    // assigned to it and dies exactly when that reaches its health, and
    // every other slot is untouched
    &&& forall|j: int|
        0 <= j < pre.reg.num_slots() ==> #[trigger] post.reg.slots_seq()[j] == spec_resolved_slot(
            pre.reg.slots_seq(),
            j,
        )
    // resolution is complete
    &&& forall|bi: int, ej: int| !spec_bullet_enemy_overlap(post.reg.slots_seq(), bi, ej)
    // an untouched world only if nothing overlapped
    &&& ((forall|bi: int, ej: int| !spec_bullet_enemy_overlap(pre.reg.slots_seq(), bi, ej))
        ==> post.reg.slots_seq() == pre.reg.slots_seq() && post.score == pre.score)
}

/// Resolve every bullet against the enemy population.
///
/// Each bullet damages at most the first live enemy it overlaps, and is
/// despawned on first contact regardless of the outcome; damage to an enemy
/// accumulates across all bullets of the tick and the death test runs once,
/// so an enemy killed by two simultaneous hits dies once and awards its
/// score once. Each destroyed enemy despawns, lowers its tier counter,
/// raises the score by its tier's value and emits one destruction event.
/// When the function returns, no live bullet overlaps a live enemy.
pub fn check_player_bullet_enemy_collision(w: &mut World) -> (events: Vec<EnemyDestroyedEvent>)
    requires
        old(w).wf(),
    ensures
        spec_bullet_collision_rel(*old(w), *final(w), events@),
{
    let ghost orig: Seq<Slot> = w.reg.slots_seq();
    let ghost orig_score: u64 = w.score.0;
    let n = w.reg.slot_count();

    // accumulated damage per enemy slot
    let mut damage: Vec<u64> = Vec::new();
    while damage.len() < n
        invariant
            damage@.len() <= n,
            forall|j: int| 0 <= j < damage@.len() ==> damage@[j] == 0,
        decreases n - damage.len(),
    {
        damage.push(0);
    }

    // bullet assignment: each bullet damages the first enemy it overlaps
    // and is consumed by the contact
    for bi in 0..n
        invariant
            n == orig.len(),
            w.reg.num_slots() == orig.len(),
            damage@.len() == n,
            w.reg.wf(),
            w.counts_ok(),
            w.objs_ok(),
            w.player_ok(),
            w.stats.wf(),
            w.anim_stack.frames@.len() >= 1,
            w.counts == old(w).counts,
            w.powerup_count == old(w).powerup_count,
            w.score == old(w).score,
            w.stats == old(w).stats,
            w.player == old(w).player,
            w.state == old(w).state,
            w.same_player_components(*old(w)),
            orig == old(w).reg.slots_seq(),
            // only overlapping bullet slots were consumed; everything else
            // is as at entry
            forall|j: int|
                0 <= j < orig.len() ==> (#[trigger] w.reg.slots_seq()[j] == orig[j] || (
                spec_bullet_consumed(orig, j) && w.reg.slots_seq()[j] == Slot {
                    generation: spec_bump(orig[j].generation),
                    obj: None,
                })),
            // unprocessed slots are untouched
            forall|j: int| bi <= j < orig.len() ==> #[trigger] w.reg.slots_seq()[j] == orig[j],
            // every processed overlapping bullet has been consumed
            forall|b2: int|
                0 <= b2 < bi && spec_bullet_consumed(orig, b2) ==> #[trigger] w.reg.slots_seq()[b2]
                    == (Slot { generation: spec_bump(orig[b2].generation), obj: None }),
            // damage points only at live enemies, which are untouched
            forall|j: int|
                0 <= j < n && #[trigger] damage@[j] != 0 ==> (orig[j].obj matches Some(o) && o.kind
                    is Enemy && w.reg.slots_seq()[j] == orig[j]),
            // the damage vector is exactly the assignment of the processed
            // bullets
            forall|j: int|
                0 <= j < n ==> #[trigger] damage@[j] == spec_assigned_damage(orig, j, bi as int),
            // processed bullets that survive overlap no enemy
            forall|b2: int, ej: int|
                0 <= b2 < bi ==> !spec_bullet_enemy_overlap(w.reg.slots_seq(), b2, ej),
            // damage entries stay small
            forall|j: int| 0 <= j < n ==> damage@[j] <= bi,
            // if nothing ever overlapped, nothing changed
            (forall|b2: int, ej: int| !spec_bullet_enemy_overlap(orig, b2, ej)) ==> (
            w.reg.slots_seq() == orig && forall|j: int| 0 <= j < n ==> damage@[j] == 0),
    {
        let bullet = match w.reg.peek(bi) {
            Some((be, bo)) => {
                if let Kind::Bullet = bo.kind {
                    Some((be, bo))
                } else {
                    None
                }
            },
            None => None,
        };
        if let Some((be, bo)) = bullet {
            proof {
                assert(w.reg.slots_seq()[bi as int].obj == Some(bo));
                assert(obj_ok(bo));
            }
            let bbox = obj_box(&bo);
            let mut hit: Option<usize> = None;
            for j in 0..n
                invariant
                    n == orig.len(),
                    w.reg.num_slots() == orig.len(),
                    bbox == spec_obj_box(bo),
                    w.reg.slots_seq()[bi as int].obj == Some(bo),
                    bo.kind is Bullet,
                    w.objs_ok(),
                    match hit {
                        Some(h) => {
                            &&& h < n
                            &&& w.reg.slots_seq()[h as int].obj matches Some(o) && o.kind is Enemy
                                && spec_intersects(bbox, spec_obj_box(o))
                            &&& forall|j2: int|
                                0 <= j2 < h ==> !(#[trigger] w.reg.slots_seq()[j2].obj
                                    matches Some(o) && o.kind is Enemy && spec_intersects(
                                    bbox,
                                    spec_obj_box(o),
                                ))
                        },
                        None => forall|j2: int|
                            0 <= j2 < j ==> !(#[trigger] w.reg.slots_seq()[j2].obj matches Some(o)
                                && o.kind is Enemy && spec_intersects(bbox, spec_obj_box(o))),
                    },
            {
                if hit.is_none() {
                    match w.reg.peek(j) {
                        Some((ee, eo)) => {
                            let is_enemy = match eo.kind {
                                Kind::Enemy(_) => true,
                                _ => false,
                            };
                            if is_enemy {
                                proof {
                                    assert(w.reg.slots_seq()[j as int].obj == Some(eo));
                                    assert(obj_ok(eo));
                                }
                                let ebox = obj_box(&eo);
                                if intersects(&bbox, &ebox) {
                                    hit = Some(j);
                                }
                            }
                        },
                        None => {},
                    }
                }
            }
            if let Some(h) = hit {
                let ghost dmg_pre: Seq<u64> = damage@;
                let dmg = damage[h];
                damage.set(h, dmg + 1);
                let ghost pre: Seq<Slot> = w.reg.slots_seq();
                proof {
                    // the bullet's own slot is still as spawned, so it is an
                    // original bullet slot; the hit slot an original enemy
                    assert(pre[bi as int].obj == Some(bo));
                    assert(pre[bi as int] == orig[bi as int]);
                    assert(pre[h as int] == orig[h as int]);
                    lemma_counts_one_slot_change(
                        pre,
                        pre.update(
                            bi as int,
                            Slot { generation: spec_bump(pre[bi as int].generation), obj: None },
                        ),
                        bi as int,
                        Slot { generation: spec_bump(pre[bi as int].generation), obj: None },
                    );
                }
                let _ = w.reg.despawn(be);
                proof {
                    // the consumed bullet slot is vacant, so it overlaps
                    // nothing; other slots are unaffected
                    assert(forall|j2: int|
                        0 <= j2 < orig.len() && j2 != bi ==> w.reg.slots_seq()[j2]
                            == #[trigger] pre[j2]);
                    assert forall|b2: int, ej: int| 0 <= b2 < bi + 1 implies !spec_bullet_enemy_overlap(
                        w.reg.slots_seq(),
                        b2,
                        ej,
                    ) by {
                        if b2 != bi && 0 <= ej < orig.len() && ej != bi {
                            assert(!spec_bullet_enemy_overlap(pre, b2, ej));
                        }
                    }
                    // the new damage mark sits on an untouched enemy slot;
                    // the older marks are unaffected by the bullet's removal
                    assert forall|j2: int|
                        0 <= j2 < n && damage@[j2] != 0 implies (orig[j2].obj matches Some(o)
                        && o.kind is Enemy && w.reg.slots_seq()[j2] == orig[j2]) by {
                        if j2 == h as int {
                            assert(w.reg.slots_seq()[j2] == pre[j2]);
                        } else {
                            assert(damage@[j2] == dmg_pre[j2]);
                            assert(dmg_pre[j2] != 0);
                            assert(orig[j2].obj matches Some(o) && o.kind is Enemy);
                            assert(j2 != bi as int);
                            assert(w.reg.slots_seq()[j2] == pre[j2]);
                        }
                    }
                    // the hit is the first enemy this bullet overlaps, so
                    // the damage assignment gains exactly this one point
                    assert(spec_bullet_enemy_overlap(orig, bi as int, h as int));
                    assert(spec_bullet_consumed(orig, bi as int));
                    assert forall|m: int|
                        0 <= m < h implies !spec_bullet_enemy_overlap(orig, bi as int, m) by {
                        if spec_bullet_enemy_overlap(orig, bi as int, m) {
                            assert(!spec_bullet_consumed(orig, m)) by {
                                if spec_bullet_consumed(orig, m) {
                                    let ej = choose|ej: int|
                                        spec_bullet_enemy_overlap(orig, m, ej);
                                    assert(orig[m].obj matches Some(b) && b.kind is Bullet);
                                }
                            }
                            assert(pre[m] == orig[m]);
                        }
                    }
                    lemma_first_target_found(orig, bi as int, h as int, 0);
                    assert forall|j2: int|
                        0 <= j2 < n implies #[trigger] damage@[j2] == spec_assigned_damage(
                        orig,
                        j2,
                        bi + 1,
                    ) by {
                        assert(dmg_pre[j2] == spec_assigned_damage(orig, j2, bi as int));
                        if j2 == h as int {
                            assert(damage@[j2] == dmg_pre[j2] + 1);
                        } else {
                            assert(damage@[j2] == dmg_pre[j2]);
                        }
                    }
                    // had nothing overlapped at the start, this hit could
                    // not have been found
                    assert((forall|b2: int, ej: int| !spec_bullet_enemy_overlap(orig, b2, ej))
                        ==> false) by {
                        if forall|b2: int, ej: int| !spec_bullet_enemy_overlap(orig, b2, ej) {
                            assert(pre == orig);
                            assert(spec_bullet_enemy_overlap(orig, bi as int, h as int));
                        }
                    }
                }
            } else {
                proof {
                    // no enemy overlaps this bullet: it is not consumed and
                    // assigns no damage
                    assert(!spec_bullet_consumed(orig, bi as int)) by {
                        if spec_bullet_consumed(orig, bi as int) {
                            let ej = choose|ej: int|
                                spec_bullet_enemy_overlap(orig, bi as int, ej);
                            assert(w.reg.slots_seq()[ej] == orig[ej]);
                        }
                    }
                    assert forall|j2: int|
                        0 <= j2 < n implies #[trigger] damage@[j2] == spec_assigned_damage(
                        orig,
                        j2,
                        bi + 1,
                    ) by {
                        assert(damage@[j2] == spec_assigned_damage(orig, j2, bi as int));
                        if spec_first_target(orig, bi as int) == j2 {
                            lemma_first_target_overlaps(orig, bi as int, 0);
                            assert(w.reg.slots_seq()[j2] == orig[j2]);
                        }
                    }
                }
            }
        } else {
            proof {
                // no bullet sits in this slot: it assigns no damage
                assert(w.reg.slots_seq()[bi as int] == orig[bi as int]);
                assert forall|j2: int|
                    0 <= j2 < n implies #[trigger] damage@[j2] == spec_assigned_damage(
                    orig,
                    j2,
                    bi + 1,
                ) by {
                    assert(damage@[j2] == spec_assigned_damage(orig, j2, bi as int));
                }
            }
        }
    }

    // resolution: one death test per enemy after all damage accumulated
    let mut events: Vec<EnemyDestroyedEvent> = Vec::new();
    proof {
        lemma_events_score_nonneg(events@);
    }
    let ghost after_a: Seq<Slot> = w.reg.slots_seq();
    proof {
        // the bullet phase consumed exactly the overlapping bullets and
        // left every other slot alone
        assert forall|j2: int|
            0 <= j2 < n implies #[trigger] after_a[j2] == (if spec_bullet_consumed(orig, j2) {
            Slot { generation: spec_bump(orig[j2].generation), obj: None }
        } else {
            orig[j2]
        }) by {}
    }
    for j in 0..n
        invariant
            n == orig.len(),
            w.reg.num_slots() == orig.len(),
            damage@.len() == n,
            w.reg.wf(),
            w.counts_ok(),
            w.objs_ok(),
            w.player_ok(),
            w.stats.wf(),
            w.anim_stack.frames@.len() >= 1,
            w.powerup_count == old(w).powerup_count,
            w.stats == old(w).stats,
            w.player == old(w).player,
            w.state == old(w).state,
            w.same_player_components(*old(w)),
            w.counts.small + spec_events_of_tier(events@, EnemyType::Small) == old(w).counts.small,
            w.counts.medium + spec_events_of_tier(events@, EnemyType::Medium) == old(
                w).counts.medium,
            w.counts.large + spec_events_of_tier(events@, EnemyType::Large) == old(w).counts.large,
            w.score.0 == spec_sat_score(orig_score + spec_events_score(events@)),
            orig_score == old(w).score.0,
            // what the bullet phase computed and left behind
            forall|j2: int|
                0 <= j2 < n ==> #[trigger] damage@[j2] == spec_bullet_damage(orig, j2),
            forall|j2: int|
                0 <= j2 < n ==> #[trigger] after_a[j2] == (if spec_bullet_consumed(orig, j2) {
                    Slot { generation: spec_bump(orig[j2].generation), obj: None }
                } else {
                    orig[j2]
                }),
            forall|i2: int| 0 <= i2 < n ==> (#[trigger] orig[i2].obj matches Some(o) ==> obj_ok(o)),
            // enemy slots with pending damage are still as phase one left
            // them
            forall|j2: int|
                j <= j2 < n && damage@[j2] != 0 ==> #[trigger] w.reg.slots_seq()[j2] == after_a[j2],
            forall|j2: int|
                0 <= j2 < n && damage@[j2] != 0 ==> (after_a[j2].obj matches Some(o) && o.kind
                    is Enemy),
            // slots without pending damage change no further
            forall|j2: int|
                0 <= j2 < n && damage@[j2] == 0 ==> #[trigger] w.reg.slots_seq()[j2] == after_a[j2],
            // the processed prefix is fully resolved, the rest as phase one
            // left it
            forall|j2: int|
                0 <= j2 < j ==> #[trigger] w.reg.slots_seq()[j2] == spec_resolved_slot(orig, j2),
            forall|j2: int| j <= j2 < n ==> #[trigger] w.reg.slots_seq()[j2] == after_a[j2],
            // no live bullet overlaps any live enemy, and resolution keeps
            // it that way
            forall|b2: int, ej: int| !spec_bullet_enemy_overlap(w.reg.slots_seq(), b2, ej),
            // if nothing overlapped at the start, phase one left everything
            // alone and no damage is pending
            (forall|b2: int, ej: int| !spec_bullet_enemy_overlap(orig, b2, ej)) ==> (after_a == orig
                && forall|j2: int| 0 <= j2 < n ==> damage@[j2] == 0),
            (forall|j2: int| 0 <= j2 < n ==> damage@[j2] == 0) ==> (w.reg.slots_seq() == after_a
                && events@.len() == 0),
    {
        let dmg = damage[j];
        if dmg > 0 {
            match w.reg.peek(j) {
                Some((ee, eo)) => {
                    let tier = match eo.kind {
                        Kind::Enemy(t) => t,
                        _ => EnemyType::Small,
                    };
                    proof {
                        assert(w.reg.slots_seq()[j as int].obj == Some(eo));
                        assert(eo.kind is Enemy);
                        assert(obj_ok(eo));
                    }
                    let ghost pre: Seq<Slot> = w.reg.slots_seq();
                    if dmg >= (eo.health as u64) {
                        // dead: despawn, lower the tier counter, award the
                        // score once, emit the event
                        proof {
                            lemma_counts_one_slot_change(
                                pre,
                                pre.update(
                                    j as int,
                                    Slot {
                                        generation: spec_bump(pre[j as int].generation),
                                        obj: None,
                                    },
                                ),
                                j as int,
                                Slot { generation: spec_bump(pre[j as int].generation), obj: None },
                            );
                            lemma_count_where_at_least_one(
                                pre,
                                j as int,
                                crate::registry::enemy_pred(tier),
                            );
                        }
                        let _ = w.reg.despawn(ee);
                        proof {
                            assert forall|b2: int, ej: int| !spec_bullet_enemy_overlap(
                                w.reg.slots_seq(),
                                b2,
                                ej,
                            ) by {
                                if 0 <= b2 < pre.len() && 0 <= ej < pre.len() && b2 != j as int
                                    && ej != j as int {
                                    assert(!spec_bullet_enemy_overlap(pre, b2, ej));
                                }
                            }
                        }
                        w.counts.decrement(&tier);
                        let tier_score = tier.config().score;
                        let ghost score_before: u64 = w.score.0;
                        w.score.0 = sat_add_u64(w.score.0, tier_score);
                        let ev = EnemyDestroyedEvent(
                            EnemyDestroyedData { enemy_type: tier, position: eo.pos },
                        );
                        proof {
                            lemma_events_score_push(events@, ev);
                            lemma_events_score_nonneg(events@);
                            lemma_events_of_tier_push(events@, ev, EnemyType::Small);
                            lemma_events_of_tier_push(events@, ev, EnemyType::Medium);
                            lemma_events_of_tier_push(events@, ev, EnemyType::Large);
                            // the damage reached the enemy's health: the
                            // vacated slot is the resolved outcome
                            assert(pre[j as int] == orig[j as int]);
                            assert(w.reg.slots_seq()[j as int] == spec_resolved_slot(
                                orig,
                                j as int,
                            ));
                        }
                        events.push(ev);
                    } else {
                        // survived: keep the accumulated damage
                        let new_health: i32 = eo.health - (dmg as i32);
                        let new_obj = GameObject { health: new_health, ..eo };
                        proof {
                            lemma_counts_one_slot_change(
                                pre,
                                pre.update(j as int, slot_filled(pre[j as int], new_obj)),
                                j as int,
                                slot_filled(pre[j as int], new_obj),
                            );
                        }
                        w.reg.set_obj(j, new_obj);
                        proof {
                            assert(spec_obj_box(new_obj) == spec_obj_box(eo));
                            assert forall|b2: int, ej: int| !spec_bullet_enemy_overlap(
                                w.reg.slots_seq(),
                                b2,
                                ej,
                            ) by {
                                if 0 <= b2 < pre.len() && 0 <= ej < pre.len() && b2 != j as int {
                                    if ej == j as int {
                                        assert(!spec_bullet_enemy_overlap(pre, b2, ej));
                                    } else {
                                        assert(!spec_bullet_enemy_overlap(pre, b2, ej));
                                    }
                                }
                            }
                            // the health drops by exactly the assigned
                            // damage: the updated slot is the resolved
                            // outcome
                            assert(pre[j as int] == orig[j as int]);
                            assert(w.reg.slots_seq()[j as int] == spec_resolved_slot(
                                orig,
                                j as int,
                            ));
                        }
                    }
                },
                None => {
                    proof {
                        assert(false);
                    }
                },
            }
        } else {
            proof {
                // no damage was assigned: the slot is already in its
                // resolved form, vacated if it held a consumed bullet and
                // untouched otherwise
                assert(w.reg.slots_seq()[j as int] == after_a[j as int]);
                if !spec_bullet_consumed(orig, j as int) && (orig[j as int].obj matches Some(o)
                    && o.kind is Enemy) {
                    assert(spec_bullet_damage(orig, j as int) == 0);
                    assert(obj_ok(orig[j as int].obj->0));
                    assert(w.reg.slots_seq()[j as int] == spec_resolved_slot(orig, j as int));
                } else {
                    assert(w.reg.slots_seq()[j as int] == spec_resolved_slot(orig, j as int));
                }
            }
        }
    }
    events
}

/// A live enemy in slot `j` overlapping the player's box.
pub open spec fn spec_pe_hit(s: Seq<Slot>, pbox: Aabb, j: int) -> bool {
    &&& 0 <= j < s.len()
    &&& s[j].obj matches Some(o) && o.kind is Enemy && spec_intersects(spec_obj_box(o), pbox)
}

/// The player's running health after the mutual-damage exchanges with the
/// overlapping enemies among the first `upto` slots, in slot order: each
/// exchange happens only while both sides are still positive.
pub open spec fn spec_pe_health(s: Seq<Slot>, pbox: Aabb, ph0: int, upto: int) -> int
    decreases upto,
{
    if upto <= 0 {
        ph0
    } else {
        let prev = spec_pe_health(s, pbox, ph0, upto - 1);
        if spec_pe_hit(s, pbox, upto - 1) && prev > 0 && s[upto - 1].obj->0.health > 0 {
            prev - s[upto - 1].obj->0.health
        } else {
            prev
        }
    }
}

/// What the mutual-damage exchanges (before the sweep) leave of a slot:
/// an overlapped enemy loses the player's running health at its turn, when
/// both sides were positive.
pub open spec fn spec_pe_damaged_slot(s: Seq<Slot>, pbox: Aabb, ph0: int, j: int) -> Slot {
    if spec_pe_hit(s, pbox, j) {
        let before = spec_pe_health(s, pbox, ph0, j);
        let eh = s[j].obj->0.health;
        if before > 0 && eh > 0 {
            slot_filled(s[j], GameObject { health: (eh - before) as i32, ..s[j].obj->0 })
        } else {
            s[j]
        }
    } else {
        s[j]
    }
}

/// What the whole phase, sweep included, leaves of a non-player slot: the
/// exchanged slot, vacated if its enemy ended at or below zero.
pub open spec fn spec_pe_slot(s: Seq<Slot>, pbox: Aabb, ph0: int, j: int) -> Slot {
    let mid = spec_pe_damaged_slot(s, pbox, ph0, j);
    if mid.obj matches Some(o) && o.kind is Enemy && o.health <= 0 {
        Slot { generation: spec_bump(mid.generation), obj: None }
    } else {
        mid
    }
}

pub proof fn lemma_pe_health_le(s: Seq<Slot>, pbox: Aabb, ph0: int, upto: int)
    requires
        forall|k: int| spec_pe_hit(s, pbox, k) ==> s[k].obj->0.health > 0,
    ensures
        spec_pe_health(s, pbox, ph0, upto) <= ph0,
    decreases upto,
{
    if upto > 0 {
        lemma_pe_health_le(s, pbox, ph0, upto - 1);
    }
}

/// Any overlapping enemy strictly lowers the player's running health.
pub proof fn lemma_pe_health_decreases(s: Seq<Slot>, pbox: Aabb, ph0: int, upto: int)
    requires
        0 < ph0,
        forall|k: int| spec_pe_hit(s, pbox, k) ==> s[k].obj->0.health > 0,
        exists|k: int| 0 <= k < upto && spec_pe_hit(s, pbox, k),
    ensures
        spec_pe_health(s, pbox, ph0, upto) < ph0,
    decreases upto,
{
    let k = choose|k: int| 0 <= k < upto && spec_pe_hit(s, pbox, k);
    if k == upto - 1 {
        lemma_pe_health_le(s, pbox, ph0, upto - 1);
    } else {
        lemma_pe_health_decreases(s, pbox, ph0, upto - 1);
    }
}

pub proof fn lemma_pe_health_nohits(s: Seq<Slot>, pbox: Aabb, ph0: int, upto: int)
    requires
        forall|k: int| 0 <= k < upto ==> !spec_pe_hit(s, pbox, k),
    ensures
        spec_pe_health(s, pbox, ph0, upto) == ph0,
    decreases upto,
{
    if upto > 0 {
        lemma_pe_health_nohits(s, pbox, ph0, upto - 1);
    }
}

/// With exactly one overlapping enemy, the exchange is a single
/// mutual-damage subtraction.
pub proof fn lemma_pe_health_single(s: Seq<Slot>, pbox: Aabb, ph0: int, j: int, upto: int)
    requires
        0 < ph0,
        0 <= j < upto,
        spec_pe_hit(s, pbox, j),
        s[j].obj->0.health > 0,
        forall|k: int| spec_pe_hit(s, pbox, k) ==> k == j,
    ensures
        spec_pe_health(s, pbox, ph0, upto) == ph0 - s[j].obj->0.health,
    decreases upto,
{
    if upto - 1 == j {
        lemma_pe_health_nohits(s, pbox, ph0, j);
    } else {
        lemma_pe_health_single(s, pbox, ph0, j, upto - 1);
    }
}

/// What player-enemy resolution does to the world.
pub open spec fn spec_player_collision_rel(pre: World, post: World) -> bool {
    &&& post.wf()
    &&& post.score == pre.score
    &&& post.stats == pre.stats
    &&& post.powerup_count == pre.powerup_count
    &&& post.same_player_components(pre)
    &&& post.reg.num_slots() == pre.reg.num_slots()
    &&& post.counts.small <= pre.counts.small
    &&& post.counts.medium <= pre.counts.medium
    &&& post.counts.large <= pre.counts.large
    &&& (pre.player is None ==> post == pre)
    &&& (post.player is Some ==> (post.player == pre.player && post.state == pre.state))
    &&& (pre.player matches Some(p) ==> ({
        let pbox = spec_obj_box(pre.reg.obj_of(p));
        &&& ((forall|j: int| !spec_pe_hit(pre.reg.slots_seq(), pbox, j)) ==> (post.reg.slots_seq()
            == pre.reg.slots_seq() && post.player == pre.player && post.state == pre.state
            && post.counts == pre.counts))
        &&& ((exists|j: int| spec_pe_hit(pre.reg.slots_seq(), pbox, j)) ==> ((post.player is None
            && post.state == crate::game_state::GameState::GameOver) || (post.player == pre.player
            && post.reg.is_live(p) && post.reg.obj_of(p).health < pre.reg.obj_of(p).health)))
        &&& (forall|j: int|
            0 <= j < pre.reg.num_slots() && j != p.index && !spec_pe_hit(
                pre.reg.slots_seq(),
                pbox,
                j,
            ) ==> post.reg.slots_seq()[j] == #[trigger] pre.reg.slots_seq()[j])
        // a sole overlapping enemy resolves exactly by mutual damage:
        // each side loses the other's health, and whoever ends at or
        // below zero is destroyed
        &&& (forall|j: int|
            (spec_pe_hit(pre.reg.slots_seq(), pbox, j) && (forall|k: int|
                spec_pe_hit(pre.reg.slots_seq(), pbox, k) ==> k == j)) ==> ({
                let eh = pre.reg.slots_seq()[j].obj->0.health;
                let ph0 = pre.reg.obj_of(p).health;
                &&& (ph0 - eh > 0 ==> (post.player == pre.player && post.reg.is_live(p)
                    && post.reg.obj_of(p).health == ph0 - eh))
                &&& (ph0 - eh <= 0 ==> (post.player is None && post.state
                    == crate::game_state::GameState::GameOver))
                &&& (eh - ph0 <= 0 ==> post.reg.slots_seq()[j].obj is None)
                &&& (eh - ph0 > 0 ==> post.reg.slots_seq()[j] == slot_filled(
                    pre.reg.slots_seq()[j],
                    GameObject { health: (eh - ph0) as i32, ..pre.reg.slots_seq()[j].obj->0 },
                ))
            }))
        // in general: the running mutual-damage exchange in slot order
        // decides the player's final health, every other slot ends in its
        // exchanged-and-swept form, and the player lives exactly when the
        // running health stays positive
        &&& ({
            let ph0 = pre.reg.obj_of(p).health as int;
            let nn = pre.reg.num_slots() as int;
            let phf = spec_pe_health(pre.reg.slots_seq(), pbox, ph0, nn);
            &&& (forall|j: int|
                0 <= j < nn && j != p.index ==> #[trigger] post.reg.slots_seq()[j] == spec_pe_slot(
                    pre.reg.slots_seq(),
                    pbox,
                    ph0,
                    j,
                ))
            &&& (phf > 0 ==> (post.player == pre.player && post.state == pre.state
                && post.reg.slots_seq()[p.index as int] == slot_filled(
                pre.reg.slots_seq()[p.index as int],
                GameObject { health: phf as i32, ..pre.reg.obj_of(p) },
            )))
            &&& (phf <= 0 ==> (post.player is None && post.state
                == crate::game_state::GameState::GameOver && post.reg.slots_seq()[p.index as int]
                == (Slot {
                generation: spec_bump(pre.reg.slots_seq()[p.index as int].generation),
                obj: None,
            })))
        })
    }))
}

/// Resolve the player against every overlapping enemy under the
/// mutual-damage policy: each side loses the other's current health, and
/// only while both are positive, so an enemy already dead in this tick
/// deals no further damage. The end-of-phase sweep despawns every enemy
/// left at or below zero health — without awarding score, which only
/// bullet kills do — and a dead player is despawned too, ending the run.
#[verifier::rlimit(100)]
pub fn check_player_enemy_collision(w: &mut World)
    requires
        old(w).wf(),
    ensures
        spec_player_collision_rel(*old(w), *final(w)),
{
    let p = match w.player {
        Some(p) => p,
        None => {
            return ;
        },
    };
    let pobj = match w.reg.get(p) {
        Some(o) => o,
        None => {
            proof {
                assert(false);
            }
            return ;
        },
    };
    let ghost orig: Seq<Slot> = w.reg.slots_seq();
    let ghost orig_ph: i32 = pobj.health;
    let mut ph: i32 = pobj.health;
    let pbox = obj_box(&pobj);
    let n = w.reg.slot_count();

    // mutual damage, walking the enemies in slot order with the player's
    // running health
    for j in 0..n
        invariant
            n == orig.len(),
            w.reg.num_slots() == orig.len(),
            w.reg.wf(),
            w.counts_ok(),
            w.player_ok(),
            w.stats.wf(),
            w.anim_stack.frames@.len() >= 1,
            w.counts == old(w).counts,
            w.powerup_count == old(w).powerup_count,
            w.score == old(w).score,
            w.stats == old(w).stats,
            w.player == old(w).player,
            w.state == old(w).state,
            w.same_player_components(*old(w)),
            orig == old(w).reg.slots_seq(),
            w.player == Some(p),
            p.index < n,
            orig[p.index as int].obj == Some(pobj),
            pobj.kind is Player,
            w.reg.slots_seq()[p.index as int] == orig[p.index as int],
            pbox == spec_obj_box(pobj),
            orig_ph == pobj.health,
            0 < orig_ph,
            ph <= orig_ph,
            // the original objects were all well formed
            forall|i: int| 0 <= i < n ==> (#[trigger] orig[i].obj matches Some(o) ==> obj_ok(o)),
            // objects stay well formed but for enemy health mid-phase
            forall|i: int|
                0 <= i < n ==> (#[trigger] w.reg.slots_seq()[i].obj matches Some(o) ==> (
                obj_ok_damaged(o) && (o.kind is Enemy || obj_ok(o)))),
            // anything that is not an overlapped enemy is untouched
            forall|i: int|
                0 <= i < n && !spec_pe_hit(orig, pbox, i) ==> #[trigger] w.reg.slots_seq()[i]
                    == orig[i],
            // damaged enemies only among the processed overlaps
            forall|i: int|
                j <= i < n ==> #[trigger] w.reg.slots_seq()[i] == orig[i],
            // with no overlaps at all nothing changes
            (forall|i: int| !spec_pe_hit(orig, pbox, i)) ==> (w.reg.slots_seq() == orig && ph
                == orig_ph),
            // the running health and the processed prefix follow the
            // exchange fold exactly
            ph as int == spec_pe_health(orig, pbox, orig_ph as int, j as int),
            forall|i: int|
                0 <= i < j ==> #[trigger] w.reg.slots_seq()[i] == spec_pe_damaged_slot(
                    orig,
                    pbox,
                    orig_ph as int,
                    i,
                ),
    {
        let ghost pre: Seq<Slot> = w.reg.slots_seq();
        match w.reg.peek(j) {
            Some((ee, eo)) => {
                let is_enemy = match eo.kind {
                    Kind::Enemy(_) => true,
                    _ => false,
                };
                if is_enemy {
                    proof {
                        assert(w.reg.slots_seq()[j as int].obj == Some(eo));
                        assert(obj_ok_damaged(eo));
                    }
                    let ebox = obj_box(&eo);
                    if intersects(&ebox, &pbox) {
                        proof {
                            assert(spec_pe_hit(orig, pbox, j as int));
                            assert(orig[j as int].obj matches Some(oo) && oo.health > 0);
                        }
                        if ph > 0 && eo.health > 0 {
                            let new_eh: i32 = eo.health - ph;
                            let new_ph: i32 = ph - eo.health;
                            let new_obj = GameObject { health: new_eh, ..eo };
                            proof {
                                lemma_counts_one_slot_change(
                                    pre,
                                    pre.update(j as int, slot_filled(pre[j as int], new_obj)),
                                    j as int,
                                    slot_filled(pre[j as int], new_obj),
                                );
                            }
                            w.reg.set_obj(j, new_obj);
                            ph = new_ph;
                            proof {
                                assert(pre[j as int] == orig[j as int]);
                                assert(ph as int == spec_pe_health(
                                    orig,
                                    pbox,
                                    orig_ph as int,
                                    j + 1,
                                ));
                                assert(w.reg.slots_seq()[j as int] == spec_pe_damaged_slot(
                                    orig,
                                    pbox,
                                    orig_ph as int,
                                    j as int,
                                ));
                            }
                        } else {
                            proof {
                                assert(ph <= 0);
                                assert(ph as int == spec_pe_health(
                                    orig,
                                    pbox,
                                    orig_ph as int,
                                    j + 1,
                                ));
                                assert(w.reg.slots_seq()[j as int] == spec_pe_damaged_slot(
                                    orig,
                                    pbox,
                                    orig_ph as int,
                                    j as int,
                                ));
                            }
                        }
                    } else {
                        proof {
                            assert(!spec_pe_hit(orig, pbox, j as int));
                            assert(ph as int == spec_pe_health(orig, pbox, orig_ph as int, j + 1));
                        }
                    }
                } else {
                    proof {
                        assert(!spec_pe_hit(orig, pbox, j as int));
                        assert(ph as int == spec_pe_health(orig, pbox, orig_ph as int, j + 1));
                    }
                }
            },
            None => {
                proof {
                    assert(!spec_pe_hit(orig, pbox, j as int));
                    assert(ph as int == spec_pe_health(orig, pbox, orig_ph as int, j + 1));
                }
            },
        }
    }

    // the health sweep: despawn every enemy this phase left at or below
    // zero
    for k in 0..n
        invariant
            n == orig.len(),
            w.reg.num_slots() == orig.len(),
            w.reg.wf(),
            w.counts_ok(),
            w.player_ok(),
            w.stats.wf(),
            w.anim_stack.frames@.len() >= 1,
            w.counts.small <= old(w).counts.small,
            w.counts.medium <= old(w).counts.medium,
            w.counts.large <= old(w).counts.large,
            w.powerup_count == old(w).powerup_count,
            w.score == old(w).score,
            w.stats == old(w).stats,
            w.player == old(w).player,
            w.state == old(w).state,
            w.same_player_components(*old(w)),
            orig == old(w).reg.slots_seq(),
            w.player == Some(p),
            p.index < n,
            orig[p.index as int].obj == Some(pobj),
            pobj.kind is Player,
            w.reg.slots_seq()[p.index as int] == orig[p.index as int],
            pbox == spec_obj_box(pobj),
            orig_ph == pobj.health,
            0 < orig_ph,
            ph <= orig_ph,
            forall|i: int| 0 <= i < n ==> (#[trigger] orig[i].obj matches Some(o) ==> obj_ok(o)),
            forall|i: int|
                0 <= i < n ==> (#[trigger] w.reg.slots_seq()[i].obj matches Some(o) ==> (
                obj_ok_damaged(o) && (o.kind is Enemy || obj_ok(o)))),
            forall|i: int|
                0 <= i < n && !spec_pe_hit(orig, pbox, i) ==> #[trigger] w.reg.slots_seq()[i]
                    == orig[i],
            (forall|i: int| !spec_pe_hit(orig, pbox, i)) ==> (w.reg.slots_seq() == orig && ph
                == orig_ph),
            // the swept prefix holds no dead enemy
            forall|i: int|
                0 <= i < k ==> (#[trigger] w.reg.slots_seq()[i].obj matches Some(o) ==> o.health
                    > 0),
            // the running health is settled; the swept prefix is in final
            // form, the rest still as the exchanges left it
            ph as int == spec_pe_health(orig, pbox, orig_ph as int, n as int),
            forall|i: int|
                0 <= i < k ==> #[trigger] w.reg.slots_seq()[i] == spec_pe_slot(
                    orig,
                    pbox,
                    orig_ph as int,
                    i,
                ),
            forall|i: int|
                k <= i < n ==> #[trigger] w.reg.slots_seq()[i] == spec_pe_damaged_slot(
                    orig,
                    pbox,
                    orig_ph as int,
                    i,
                ),
    {
        let ghost pre: Seq<Slot> = w.reg.slots_seq();
        match w.reg.peek(k) {
            Some((ee, eo)) => {
                let tier = match eo.kind {
                    Kind::Enemy(t) => Some(t),
                    _ => None,
                };
                if let Some(t) = tier {
                    if eo.health <= 0 {
                        proof {
                            assert(w.reg.slots_seq()[k as int].obj == Some(eo));
                            assert(spec_pe_hit(orig, pbox, k as int));
                            lemma_counts_one_slot_change(
                                pre,
                                pre.update(
                                    k as int,
                                    Slot {
                                        generation: spec_bump(pre[k as int].generation),
                                        obj: None,
                                    },
                                ),
                                k as int,
                                Slot { generation: spec_bump(pre[k as int].generation), obj: None },
                            );
                            lemma_count_where_at_least_one(
                                pre,
                                k as int,
                                crate::registry::enemy_pred(t),
                            );
                        }
                        let _ = w.reg.despawn(ee);
                        w.counts.decrement(&t);
                        proof {
                            assert(pre[k as int] == spec_pe_damaged_slot(
                                orig,
                                pbox,
                                orig_ph as int,
                                k as int,
                            ));
                            assert(w.reg.slots_seq()[k as int] == spec_pe_slot(
                                orig,
                                pbox,
                                orig_ph as int,
                                k as int,
                            ));
                        }
                    } else {
                        proof {
                            assert(w.reg.slots_seq()[k as int] == spec_pe_slot(
                                orig,
                                pbox,
                                orig_ph as int,
                                k as int,
                            ));
                        }
                    }
                } else {
                    proof {
                        assert(w.reg.slots_seq()[k as int] == spec_pe_slot(
                            orig,
                            pbox,
                            orig_ph as int,
                            k as int,
                        ));
                    }
                }
            },
            None => {
                proof {
                    assert(w.reg.slots_seq()[k as int] == spec_pe_slot(
                        orig,
                        pbox,
                        orig_ph as int,
                        k as int,
                    ));
                }
            },
        }
    }

    // the player's own fate
    if ph <= 0 {
        proof {
            let ghost pre: Seq<Slot> = w.reg.slots_seq();
            lemma_counts_one_slot_change(
                pre,
                pre.update(
                    p.index as int,
                    Slot { generation: spec_bump(pre[p.index as int].generation), obj: None },
                ),
                p.index as int,
                Slot { generation: spec_bump(pre[p.index as int].generation), obj: None },
            );
        }
        let _ = w.reg.despawn(p);
        w.player = None;
        w.state = crate::game_state::GameState::GameOver;
    } else if ph < pobj.health {
        let new_obj = GameObject { health: ph, ..pobj };
        let ghost pre: Seq<Slot> = w.reg.slots_seq();
        proof {
            lemma_counts_one_slot_change(
                pre,
                pre.update(p.index as int, slot_filled(pre[p.index as int], new_obj)),
                p.index as int,
                slot_filled(pre[p.index as int], new_obj),
            );
        }
        w.reg.set_obj(p.index, new_obj);
    }
    proof {
        let nn = n as int;
        let ph0 = orig_ph as int;
        assert forall|kk: int| spec_pe_hit(orig, pbox, kk) implies orig[kk].obj->0.health > 0 by {}
        // any overlap at all has hurt the player
        if exists|jj: int| spec_pe_hit(orig, pbox, jj) {
            lemma_pe_health_decreases(orig, pbox, ph0, nn);
        }
        // a sole overlap reduces the whole exchange to one subtraction
        assert forall|jj: int|
            (spec_pe_hit(orig, pbox, jj) && (forall|kk: int|
                spec_pe_hit(orig, pbox, kk) ==> kk == jj)) implies ({
            let eh = orig[jj].obj->0.health;
            &&& (ph0 - eh > 0 ==> (w.player == old(w).player && w.reg.is_live(p) && w.reg.obj_of(
                p,
            ).health == ph0 - eh))
            &&& (ph0 - eh <= 0 ==> (w.player is None && w.state
                == crate::game_state::GameState::GameOver))
            &&& (eh - ph0 <= 0 ==> w.reg.slots_seq()[jj].obj is None)
            &&& (eh - ph0 > 0 ==> w.reg.slots_seq()[jj] == slot_filled(
                orig[jj],
                GameObject { health: (eh - ph0) as i32, ..orig[jj].obj->0 },
            ))
        }) by {
            assert(forall|kk: int| 0 <= kk < jj ==> !spec_pe_hit(orig, pbox, kk));
            lemma_pe_health_single(orig, pbox, ph0, jj, nn);
            lemma_pe_health_nohits(orig, pbox, ph0, jj);
            assert(jj != p.index);
            assert(w.reg.slots_seq()[jj] == spec_pe_slot(orig, pbox, ph0, jj));
        }
    }
}

/// A live powerup in slot `j` overlapping the player's box.
pub open spec fn spec_pickup_hit(s: Seq<Slot>, pbox: Aabb, j: int) -> bool {
    &&& 0 <= j < s.len()
    &&& s[j].obj matches Some(o) && o.kind is Powerup && spec_intersects(spec_obj_box(o), pbox)
}

/// The type of the powerup in slot `j`, when one is there.
pub open spec fn spec_powerup_type_at(s: Seq<Slot>, j: int) -> crate::config::PowerupType {
    match s[j].obj {
        Some(o) => match o.kind {
            Kind::Powerup(pt) => pt,
            _ => crate::config::PowerupType::FireRate,
        },
        None => crate::config::PowerupType::FireRate,
    }
}

/// What picking one powerup up does to the player's stats: the matching
/// multiplier is applied to the matching stat, multiplicatively, with no
/// designed upper cap (stacking two fire-rate pickups multiplies twice).
pub open spec fn spec_pickup(stats: crate::components::PlayerStats, p: crate::config::PowerupType)
    -> crate::components::PlayerStats {
    match p {
        crate::config::PowerupType::FireRate => crate::components::PlayerStats {
            fire_rate: crate::components::spec_apply_mult(stats.fire_rate, 1500),
            ..stats
        },
        crate::config::PowerupType::Speed => crate::components::PlayerStats {
            speed: crate::components::spec_apply_mult(stats.speed, 1200),
            ..stats
        },
    }
}

/// What one pickup leaves of a slot: an overlapping powerup is consumed,
/// everything else stays.
pub open spec fn spec_picked_slot(s: Seq<Slot>, pbox: Aabb, j: int) -> Slot {
    if spec_pickup_hit(s, pbox, j) {
        Slot { generation: spec_bump(s[j].generation), obj: None }
    } else {
        s[j]
    }
}

/// The player's stats after consuming the overlapping powerups of the
/// first `upto` slots, each applying its multiplier, in slot order.
pub open spec fn spec_pickup_fold(
    s: Seq<Slot>,
    pbox: Aabb,
    stats: crate::components::PlayerStats,
    upto: int,
) -> crate::components::PlayerStats
    decreases upto,
{
    if upto <= 0 {
        stats
    } else {
        let prev = spec_pickup_fold(s, pbox, stats, upto - 1);
        if spec_pickup_hit(s, pbox, upto - 1) {
            spec_pickup(prev, spec_powerup_type_at(s, upto - 1))
        } else {
            prev
        }
    }
}

/// How many powerups the player's box overlaps among the first `upto`
/// slots.
pub open spec fn spec_hits_before(s: Seq<Slot>, pbox: Aabb, upto: int) -> int
    decreases upto,
{
    if upto <= 0 {
        0
    } else {
        spec_hits_before(s, pbox, upto - 1) + (if spec_pickup_hit(s, pbox, upto - 1) {
            1int
        } else {
            0int
        })
    }
}

pub proof fn lemma_pickup_fold_nohits(
    s: Seq<Slot>,
    pbox: Aabb,
    stats: crate::components::PlayerStats,
    upto: int,
)
    requires
        forall|k: int| 0 <= k < upto ==> !spec_pickup_hit(s, pbox, k),
    ensures
        spec_pickup_fold(s, pbox, stats, upto) == stats,
    decreases upto,
{
    if upto > 0 {
        lemma_pickup_fold_nohits(s, pbox, stats, upto - 1);
    }
}

/// With exactly one overlapping powerup, the fold is that one pickup.
pub proof fn lemma_pickup_fold_single(
    s: Seq<Slot>,
    pbox: Aabb,
    stats: crate::components::PlayerStats,
    j: int,
    upto: int,
)
    requires
        0 <= j < upto,
        spec_pickup_hit(s, pbox, j),
        forall|k: int| spec_pickup_hit(s, pbox, k) ==> k == j,
    ensures
        spec_pickup_fold(s, pbox, stats, upto) == spec_pickup(stats, spec_powerup_type_at(s, j)),
        spec_hits_before(s, pbox, upto) == 1,
    decreases upto,
{
    if upto - 1 == j {
        lemma_pickup_fold_nohits(s, pbox, stats, j);
        lemma_hits_before_none(s, pbox, j);
    } else {
        lemma_pickup_fold_single(s, pbox, stats, j, upto - 1);
    }
}

pub proof fn lemma_hits_before_none(s: Seq<Slot>, pbox: Aabb, upto: int)
    requires
        forall|k: int| 0 <= k < upto ==> !spec_pickup_hit(s, pbox, k),
    ensures
        spec_hits_before(s, pbox, upto) == 0,
    decreases upto,
{
    if upto > 0 {
        lemma_hits_before_none(s, pbox, upto - 1);
    }
}

/// Fire-rate pickups stack multiplicatively with no designed cap: from the
/// base rate, one pickup reaches x1.5 and a second x2.25, in per-mille
/// fixed point.
pub proof fn lemma_fire_rate_stacking()
    ensures
        spec_pickup(
            crate::components::PlayerStats { fire_rate: 1000, speed: 1000 },
            crate::config::PowerupType::FireRate,
        ).fire_rate == 1500,
        spec_pickup(
            spec_pickup(
                crate::components::PlayerStats { fire_rate: 1000, speed: 1000 },
                crate::config::PowerupType::FireRate,
            ),
            crate::config::PowerupType::FireRate,
        ).fire_rate == 2250,
{
}

/// What pickup resolution does to the world.
pub open spec fn spec_pickup_rel(pre: World, post: World) -> bool {
    &&& post.wf()
    &&& post.score == pre.score
    &&& post.counts == pre.counts
    &&& post.state == pre.state
    &&& post.player == pre.player
    &&& post.same_player_components(pre)
    &&& post.reg.num_slots() == pre.reg.num_slots()
    &&& post.powerup_count.0 <= pre.powerup_count.0
    &&& (pre.player is None ==> post == pre)
    &&& (pre.player matches Some(p) ==> ({
        let pbox = spec_obj_box(pre.reg.obj_of(p));
        // pointwise: every overlapping powerup is consumed, all else stays
        &&& (forall|j: int|
            0 <= j < pre.reg.num_slots() ==> #[trigger] post.reg.slots_seq()[j]
                == spec_picked_slot(pre.reg.slots_seq(), pbox, j))
        // the stats end as the fold of the consumed multipliers, in slot
        // order
        &&& post.stats == spec_pickup_fold(
            pre.reg.slots_seq(),
            pbox,
            pre.stats,
            pre.reg.num_slots() as int,
        )
        // the counter drops by exactly the number of consumed powerups
        &&& post.powerup_count.0 == pre.powerup_count.0 - spec_hits_before(
            pre.reg.slots_seq(),
            pbox,
            pre.reg.num_slots() as int,
        )
        &&& (forall|j: int|
            0 <= j < pre.reg.num_slots() && !spec_pickup_hit(pre.reg.slots_seq(), pbox, j)
                ==> post.reg.slots_seq()[j] == #[trigger] pre.reg.slots_seq()[j])
        &&& ((forall|j: int| !spec_pickup_hit(pre.reg.slots_seq(), pbox, j)) ==> (
        post.reg.slots_seq() == pre.reg.slots_seq() && post.stats == pre.stats
            && post.powerup_count == pre.powerup_count))
        // a sole overlapping powerup is consumed and applies exactly its
        // multiplier
        &&& (forall|j: int|
            (spec_pickup_hit(pre.reg.slots_seq(), pbox, j) && (forall|k: int|
                spec_pickup_hit(pre.reg.slots_seq(), pbox, k) ==> k == j)) ==> (post.stats
                == spec_pickup(pre.stats, spec_powerup_type_at(pre.reg.slots_seq(), j))
                && post.reg.slots_seq()[j].obj is None && post.powerup_count.0
                == pre.powerup_count.0 - 1))
    }))
}

/// Resolve powerup pickups: every live powerup the player overlaps is
/// consumed, applies its stat multiplier, and lowers the powerup counter.
#[verifier::rlimit(100)]
pub fn handle_powerup_collisions(w: &mut World)
    requires
        old(w).wf(),
    ensures
        spec_pickup_rel(*old(w), *final(w)),
{
    let p = match w.player {
        Some(p) => p,
        None => {
            return ;
        },
    };
    let pobj = match w.reg.get(p) {
        Some(o) => o,
        None => {
            proof {
                assert(false);
            }
            return ;
        },
    };
    let ghost orig: Seq<Slot> = w.reg.slots_seq();
    let ghost orig_stats: crate::components::PlayerStats = w.stats;
    let ghost orig_pc: usize = w.powerup_count.0;
    let pbox = obj_box(&pobj);
    let n = w.reg.slot_count();

    for j in 0..n
        invariant
            n == orig.len(),
            w.reg.num_slots() == orig.len(),
            w.reg.wf(),
            w.counts_ok(),
            w.objs_ok(),
            w.player_ok(),
            w.stats.wf(),
            w.anim_stack.frames@.len() >= 1,
            w.counts == old(w).counts,
            w.score == old(w).score,
            w.player == old(w).player,
            w.state == old(w).state,
            w.same_player_components(*old(w)),
            orig == old(w).reg.slots_seq(),
            orig_stats == old(w).stats,
            orig_pc == old(w).powerup_count.0,
            w.player == Some(p),
            p.index < n,
            orig[p.index as int].obj == Some(pobj),
            pobj.kind is Player,
            pbox == spec_obj_box(pobj),
            w.powerup_count.0 <= orig_pc,
            forall|i: int|
                0 <= i < n && !spec_pickup_hit(orig, pbox, i) ==> #[trigger] w.reg.slots_seq()[i]
                    == orig[i],
            forall|i: int| j <= i < n ==> #[trigger] w.reg.slots_seq()[i] == orig[i],
            (forall|i: int| !spec_pickup_hit(orig, pbox, i)) ==> (w.reg.slots_seq() == orig
                && w.stats == orig_stats && w.powerup_count.0 == orig_pc),
            // the processed prefix is resolved pointwise, the stats are the
            // fold of its consumed multipliers, and the counter dropped by
            // exactly its consumed powerups
            forall|i: int|
                0 <= i < j ==> #[trigger] w.reg.slots_seq()[i] == spec_picked_slot(orig, pbox, i),
            w.stats == spec_pickup_fold(orig, pbox, orig_stats, j as int),
            w.powerup_count.0 as int == orig_pc - spec_hits_before(orig, pbox, j as int),
    {
        let ghost pre: Seq<Slot> = w.reg.slots_seq();
        match w.reg.peek(j) {
            Some((pe, po)) => {
                let ptype = match po.kind {
                    Kind::Powerup(pt) => Some(pt),
                    _ => None,
                };
                if let Some(pt) = ptype {
                    proof {
                        assert(w.reg.slots_seq()[j as int].obj == Some(po));
                        assert(obj_ok(po));
                    }
                    let pwbox = obj_box(&po);
                    if intersects(&pwbox, &pbox) {
                        proof {
                            assert(spec_pickup_hit(orig, pbox, j as int));
                            lemma_counts_one_slot_change(
                                pre,
                                pre.update(
                                    j as int,
                                    Slot {
                                        generation: spec_bump(pre[j as int].generation),
                                        obj: None,
                                    },
                                ),
                                j as int,
                                Slot { generation: spec_bump(pre[j as int].generation), obj: None },
                            );
                            lemma_count_where_at_least_one(
                                pre,
                                j as int,
                                crate::registry::powerup_pred(),
                            );
                        }
                        let _ = w.reg.despawn(pe);
                        w.powerup_count.0 = w.powerup_count.0 - 1;
                        let ghost stats_pre: crate::components::PlayerStats = w.stats;
                        match pt {
                            crate::config::PowerupType::FireRate => {
                                w.stats.fire_rate = crate::components::apply_mult(
                                    w.stats.fire_rate,
                                    1500,
                                );
                            },
                            crate::config::PowerupType::Speed => {
                                w.stats.speed = crate::components::apply_mult(w.stats.speed, 1200);
                            },
                        }
                        proof {
                            assert(pre[j as int] == orig[j as int]);
                            assert(spec_powerup_type_at(orig, j as int) == pt);
                            assert(w.stats == spec_pickup(stats_pre, pt));
                            assert(w.stats == spec_pickup_fold(orig, pbox, orig_stats, j + 1));
                            assert(w.reg.slots_seq()[j as int] == spec_picked_slot(
                                orig,
                                pbox,
                                j as int,
                            ));
                            assert(w.powerup_count.0 as int == orig_pc - spec_hits_before(
                                orig,
                                pbox,
                                j + 1,
                            ));
                        }
                    } else {
                        proof {
                            assert(pre[j as int] == orig[j as int]);
                            assert(!spec_pickup_hit(orig, pbox, j as int));
                            assert(w.stats == spec_pickup_fold(orig, pbox, orig_stats, j + 1));
                            assert(w.powerup_count.0 as int == orig_pc - spec_hits_before(
                                orig,
                                pbox,
                                j + 1,
                            ));
                        }
                    }
                } else {
                    proof {
                        assert(pre[j as int] == orig[j as int]);
                        assert(!spec_pickup_hit(orig, pbox, j as int));
                        assert(w.stats == spec_pickup_fold(orig, pbox, orig_stats, j + 1));
                        assert(w.powerup_count.0 as int == orig_pc - spec_hits_before(
                            orig,
                            pbox,
                            j + 1,
                        ));
                    }
                }
            },
            None => {
                proof {
                    assert(pre[j as int] == orig[j as int]);
                    assert(!spec_pickup_hit(orig, pbox, j as int));
                    assert(w.stats == spec_pickup_fold(orig, pbox, orig_stats, j + 1));
                    assert(w.powerup_count.0 as int == orig_pc - spec_hits_before(
                        orig,
                        pbox,
                        j + 1,
                    ));
                }
            },
        }
    }
    proof {
        // a sole overlapping powerup: the fold is that one pickup and the
        // counter dropped by one
        assert forall|j: int|
            (spec_pickup_hit(orig, pbox, j) && (forall|k: int|
                spec_pickup_hit(orig, pbox, k) ==> k == j)) implies (w.stats == spec_pickup(
            orig_stats,
            spec_powerup_type_at(orig, j),
        ) && w.reg.slots_seq()[j].obj is None && w.powerup_count.0 == orig_pc - 1) by {
            lemma_pickup_fold_single(orig, pbox, orig_stats, j, n as int);
        }
    }
}

} // verus!
