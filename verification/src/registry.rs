//! The entity registry: an arena of slots with a free list of reusable
//! indices and generation counters, so that a lookup with a despawned
//! identifier fails instead of silently aliasing a newer occupant.

use vstd::prelude::*;

use crate::anim::AnimationConfig;
use crate::config::{EnemyType, PowerupType};
use crate::geom::Vec2i;

verus! {

/// An entity identifier: an arena index plus the generation the slot had
/// when this identifier was handed out.
#[derive(Clone, Copy, Debug, PartialEq, Eq, Structural)]
pub struct Entity {
    pub index: usize,
    pub generation: u64,
}

/// What kind of game object a slot holds.
#[derive(Clone, Copy, Debug, PartialEq, Eq, Structural)]
pub enum Kind {
    Player,
    Enemy(EnemyType),
    Bullet,
    Powerup(PowerupType),
    Explosion,
}

/// One game object: its kind and the components every kind carries.
#[derive(Clone, Copy, Debug, PartialEq, Eq, Structural)]
pub struct GameObject {
    pub kind: Kind,
    /// Center position, milli-pixels.
    pub pos: Vec2i,
    /// Collision box full size, milli-pixels; set once at spawn.
    pub size: Vec2i,
    /// Vertical speed magnitude, pixels per second; enemies and powerups
    /// fall, bullets rise, the player is driven by input.
    pub speed: u32,
    pub health: i32,
    /// Sprite frame animation state.
    pub anim: AnimationConfig,
    /// Current sprite frame index.
    pub frame: usize,
}

/// One arena slot: its current generation and its occupant, if any.
#[derive(Clone, Copy, Debug, PartialEq, Eq, Structural)]
pub struct Slot {
    pub generation: u64,
    pub obj: Option<GameObject>,
}

/// The arena. Vacant slots are listed in `free` and reused before the arena
/// grows; a reused slot keeps the generation it was given when its previous
/// occupant was despawned, so stale identifiers keep failing.
pub struct Registry {
    slots: Vec<Slot>,
    free: Vec<usize>,
}

pub open spec fn slot_filled(s: Slot, obj: GameObject) -> Slot {
    Slot { generation: s.generation, obj: Some(obj) }
}

/// The generation a slot moves to when its occupant is despawned; it stops
/// rising at the top of the range rather than wrap back to old values.
pub open spec fn spec_bump(g: u64) -> u64 {
    if g == u64::MAX {
        g
    } else {
        (g + 1) as u64
    }
}

impl Registry {
    /// The arena contents, as the sequence of its slots.
    pub closed spec fn slots_seq(self) -> Seq<Slot> {
        self.slots@
    }

    pub open spec fn num_slots(self) -> nat {
        self.slots_seq().len()
    }

    /// An identifier is live when it points at an occupied slot of the same
    /// generation it was handed out with.
    pub open spec fn is_live(self, e: Entity) -> bool {
        &&& e.index < self.slots_seq().len()
        &&& self.slots_seq()[e.index as int].generation == e.generation
        &&& self.slots_seq()[e.index as int].obj is Some
    }

    pub open spec fn obj_of(self, e: Entity) -> GameObject {
        self.slots_seq()[e.index as int].obj->0
    }

    /// The identifier of whatever occupies slot `i`.
    pub open spec fn entity_at(self, i: int) -> Entity {
        Entity { index: i as usize, generation: self.slots_seq()[i].generation }
    }

    /// The free list holds only distinct indices of vacant slots.
    pub closed spec fn wf(self) -> bool {
        &&& forall|i: int|
            0 <= i < self.free@.len() ==> (#[trigger] self.free@[i] < self.slots@.len()
                && self.slots@[self.free@[i] as int].obj is None)
        &&& forall|i: int, j: int|
            0 <= i < j < self.free@.len() ==> #[trigger] self.free@[i] != #[trigger] self.free@[j]
    }

    pub fn new() -> (r: Registry)
        ensures
            r.wf(),
            r.num_slots() == 0,
    {
        Registry { slots: Vec::new(), free: Vec::new() }
    }

    pub fn slot_count(&self) -> (n: usize)
        ensures
            n == self.num_slots(),
    {
        self.slots.len()
    }

    /// Look an identifier up; a despawned or stale identifier yields `None`.
    pub fn get(&self, e: Entity) -> (r: Option<GameObject>)
        ensures
            match r {
                Some(o) => self.is_live(e) && o == self.obj_of(e),
                None => !self.is_live(e),
            },
    {
        if e.index < self.slots.len() {
            let slot = self.slots[e.index];
            if slot.generation == e.generation {
                slot.obj
            } else {
                None
            }
        } else {
            None
        }
    }

    /// The occupant of slot `i` together with its identifier, if the slot is
    /// occupied.
    pub fn peek(&self, i: usize) -> (r: Option<(Entity, GameObject)>)
        requires
            i < self.num_slots(),
        ensures
            match r {
                Some(p) => {
                    &&& p.0 == self.entity_at(i as int)
                    &&& self.is_live(p.0)
                    &&& p.1 == self.obj_of(p.0)
                },
                None => self.slots_seq()[i as int].obj is None,
            },
    {
        let slot = self.slots[i];
        match slot.obj {
            Some(o) => Some((Entity { index: i, generation: slot.generation }, o)),
            None => None,
        }
    }

    /// Replace the occupant of slot `i`, keeping the slot's generation, so
    /// that identifiers into it stay valid.
    pub fn set_obj(&mut self, i: usize, obj: GameObject)
        requires
            old(self).wf(),
            i < old(self).num_slots(),
            old(self).slots_seq()[i as int].obj is Some,
        ensures
            final(self).wf(),
            final(self).slots_seq() == old(self).slots_seq().update(
                i as int,
                slot_filled(old(self).slots_seq()[i as int], obj),
            ),
    {
        let generation = self.slots[i].generation;
        self.slots.set(i, Slot { generation, obj: Some(obj) });
        assert(final(self).wf()) by {
            assert(forall|k: int|
                0 <= k < self.free@.len() ==> self.slots@[#[trigger] self.free@[k] as int].obj
                    is None);
        }
    }

    /// Put a new object into the arena, reusing a vacant slot if one exists,
    /// and hand out its identifier. The identifier is fresh: it was not live
    /// before the call.
    pub fn spawn(&mut self, obj: GameObject) -> (e: Entity)
        requires
            old(self).wf(),
        ensures
            final(self).wf(),
            final(self).is_live(e),
            final(self).obj_of(e) == obj,
            !old(self).is_live(e),
            // the arena changed by exactly one slot: an update of a vacant
            // slot or a push of a new one
            (e.index < old(self).num_slots() && old(self).slots_seq()[e.index as int].obj is None
                && e.generation == old(self).slots_seq()[e.index as int].generation
                && final(self).slots_seq() == old(self).slots_seq().update(
                e.index as int,
                Slot { generation: e.generation, obj: Some(obj) },
            )) || (e.index == old(self).num_slots() && final(self).slots_seq() == old(
                self,
            ).slots_seq().push(Slot { generation: e.generation, obj: Some(obj) })),
    {
        match self.free.pop() {
            Some(i) => {
                let generation = self.slots[i].generation;
                self.slots.set(i, Slot { generation, obj: Some(obj) });
                let e = Entity { index: i, generation };
                assert(final(self).wf()) by {
                    assert(forall|k: int|
                        0 <= k < self.free@.len() ==> self.slots@[#[trigger] self.free@[k] as int].obj
                            is None);
                }
                e
            },
            None => {
                let i = self.slots.len();
                let generation: u64 = 0;
                self.slots.push(Slot { generation, obj: Some(obj) });
                let e = Entity { index: i, generation };
                assert(final(self).wf()) by {
                    assert(forall|k: int|
                        0 <= k < self.free@.len() ==> self.slots@[#[trigger] self.free@[k] as int].obj
                            is None);
                }
                e
            },
        }
    }

    /// Remove the object an identifier points at. A stale or vacant
    /// identifier is a safe no-op. On a hit, the slot's generation rises, so
    /// the removed identifier stays dead even after the slot is reused.
    pub fn despawn(&mut self, e: Entity) -> (hit: bool)
        requires
            old(self).wf(),
        ensures
            final(self).wf(),
            hit == old(self).is_live(e),
            !final(self).is_live(e),
            hit ==> final(self).slots_seq() == old(self).slots_seq().update(
                e.index as int,
                Slot {
                    generation: spec_bump(old(self).slots_seq()[e.index as int].generation),
                    obj: None,
                },
            ),
            !hit ==> final(self).slots_seq() == old(self).slots_seq(),
    {
        if e.index < self.slots.len() {
            let slot = self.slots[e.index];
            if slot.generation == e.generation && slot.obj.is_some() {
                let generation = if slot.generation == u64::MAX {
                    slot.generation
                } else {
                    slot.generation + 1
                };
                self.slots.set(e.index, Slot { generation, obj: None });
                self.free.push(e.index);
                assert(final(self).wf()) by {
                    assert(forall|k: int|
                        0 <= k < old(self).free@.len() ==> #[trigger] old(self).free@[k] != e.index
                            as int) by {
                        assert(forall|k: int|
                            0 <= k < old(self).free@.len() ==> old(self).slots@[#[trigger] old(
                                self,
                            ).free@[k] as int].obj is None);
                    }
                }
                return true;
            }
        }
        false
    }
}

/// How much one slot contributes to a count: 1 when it holds an object the
/// predicate accepts.
pub open spec fn tally(s: Slot, f: spec_fn(GameObject) -> bool) -> nat {
    if s.obj matches Some(o) && f(o) {
        1nat
    } else {
        0nat
    }
}

/// The number of slots whose occupant the predicate accepts.
pub open spec fn count_where(s: Seq<Slot>, f: spec_fn(GameObject) -> bool) -> nat
    decreases s.len(),
{
    if s.len() == 0 {
        0
    } else {
        count_where(s.drop_last(), f) + tally(s.last(), f)
    }
}

/// The predicate for a live enemy of tier `t`.
pub open spec fn enemy_pred(t: EnemyType) -> spec_fn(GameObject) -> bool {
    |o: GameObject| o.kind == Kind::Enemy(t)
}

/// The predicate for any live enemy.
pub open spec fn any_enemy_pred() -> spec_fn(GameObject) -> bool {
    |o: GameObject| o.kind is Enemy
}

pub open spec fn powerup_pred() -> spec_fn(GameObject) -> bool {
    |o: GameObject| o.kind is Powerup
}

pub open spec fn bullet_pred() -> spec_fn(GameObject) -> bool {
    |o: GameObject| o.kind is Bullet
}

pub open spec fn explosion_pred() -> spec_fn(GameObject) -> bool {
    |o: GameObject| o.kind is Explosion
}

/// Live enemies of tier `t` in the arena.
pub open spec fn count_tier(s: Seq<Slot>, t: EnemyType) -> nat {
    count_where(s, enemy_pred(t))
}

/// Live powerups in the arena.
pub open spec fn count_powerups(s: Seq<Slot>) -> nat {
    count_where(s, powerup_pred())
}

/// Live bullets in the arena.
pub open spec fn count_bullets(s: Seq<Slot>) -> nat {
    count_where(s, bullet_pred())
}

/// Live explosions in the arena.
pub open spec fn count_explosions(s: Seq<Slot>) -> nat {
    count_where(s, explosion_pred())
}

/// Replacing one slot changes a count by exactly the difference of the two
/// slots' contributions.
pub proof fn lemma_count_where_update(
    s: Seq<Slot>,
    i: int,
    x: Slot,
    f: spec_fn(GameObject) -> bool,
)
    requires
        0 <= i < s.len(),
    ensures
        count_where(s.update(i, x), f) + tally(s[i], f) == count_where(s, f) + tally(x, f),
    decreases s.len(),
{
    let su = s.update(i, x);
    if i == s.len() - 1 {
        assert(su.drop_last() =~= s.drop_last());
        assert(su.last() == x);
    } else {
        assert(su.drop_last() =~= s.drop_last().update(i, x));
        assert(su.last() == s.last());
        lemma_count_where_update(s.drop_last(), i, x, f);
    }
}

/// Appending a slot adds exactly its contribution.
pub proof fn lemma_count_where_push(s: Seq<Slot>, x: Slot, f: spec_fn(GameObject) -> bool)
    ensures
        count_where(s.push(x), f) == count_where(s, f) + tally(x, f),
{
    assert(s.push(x).drop_last() =~= s);
    assert(s.push(x).last() == x);
}

/// The slot a change replaced: the previous occupant for an in-place
/// update, or a vacant slot for an append.
pub open spec fn prior_slot(s: Seq<Slot>, i: int) -> Slot {
    if 0 <= i < s.len() {
        s[i]
    } else {
        Slot { generation: 0, obj: None }
    }
}

/// After a change of one slot — in place, or appended at the end — every
/// category count moves by the difference between the tallies of the slot
/// that was there and the slot that is there now.
pub proof fn lemma_counts_one_slot_change(s: Seq<Slot>, s2: Seq<Slot>, i: int, now: Slot)
    requires
        (0 <= i < s.len() && s2 == s.update(i, now)) || (i == s.len() && s2 == s.push(now)),
    ensures
        count_tier(s2, EnemyType::Small) + tally(prior_slot(s, i), enemy_pred(EnemyType::Small))
            == count_tier(s, EnemyType::Small) + tally(now, enemy_pred(EnemyType::Small)),
        count_tier(s2, EnemyType::Medium) + tally(prior_slot(s, i), enemy_pred(EnemyType::Medium))
            == count_tier(s, EnemyType::Medium) + tally(now, enemy_pred(EnemyType::Medium)),
        count_tier(s2, EnemyType::Large) + tally(prior_slot(s, i), enemy_pred(EnemyType::Large))
            == count_tier(s, EnemyType::Large) + tally(now, enemy_pred(EnemyType::Large)),
        count_powerups(s2) + tally(prior_slot(s, i), powerup_pred()) == count_powerups(s) + tally(
            now,
            powerup_pred(),
        ),
        count_bullets(s2) + tally(prior_slot(s, i), bullet_pred()) == count_bullets(s) + tally(
            now,
            bullet_pred(),
        ),
        count_explosions(s2) + tally(prior_slot(s, i), explosion_pred()) == count_explosions(s)
            + tally(now, explosion_pred()),
{
    if 0 <= i < s.len() {
        lemma_count_where_update(s, i, now, enemy_pred(EnemyType::Small));
        lemma_count_where_update(s, i, now, enemy_pred(EnemyType::Medium));
        lemma_count_where_update(s, i, now, enemy_pred(EnemyType::Large));
        lemma_count_where_update(s, i, now, powerup_pred());
        lemma_count_where_update(s, i, now, bullet_pred());
        lemma_count_where_update(s, i, now, explosion_pred());
    } else {
        lemma_count_where_push(s, now, enemy_pred(EnemyType::Small));
        lemma_count_where_push(s, now, enemy_pred(EnemyType::Medium));
        lemma_count_where_push(s, now, enemy_pred(EnemyType::Large));
        lemma_count_where_push(s, now, powerup_pred());
        lemma_count_where_push(s, now, bullet_pred());
        lemma_count_where_push(s, now, explosion_pred());
    }
}

/// A slot whose occupant a predicate accepts witnesses that the count is
/// positive.
pub proof fn lemma_count_where_at_least_one(s: Seq<Slot>, i: int, f: spec_fn(GameObject) -> bool)
    requires
        0 <= i < s.len(),
        tally(s[i], f) == 1,
    ensures
        count_where(s, f) >= 1,
    decreases s.len(),
{
    if i == s.len() - 1 {
        assert(s.last() == s[i]);
    } else {
        assert(s.drop_last()[i] == s[i]);
        lemma_count_where_at_least_one(s.drop_last(), i, f);
    }
}

} // verus!
