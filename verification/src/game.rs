//! The world: the entity registry together with the aggregate counters, the
//! score, the player's stats and per-player components, and the run state —
//! with the invariant that ties the aggregates to the registry contents.

use vstd::prelude::*;

use crate::anim::{AnimationStack, PlayerState, PrevPlayerState};
use crate::components::{MovementInput, PlayerStats, Shoot, STAT_BASE};
use crate::config::{
    EnemyType, MAX_DIM, MAX_ENEMIES, MAX_POWERUPS, MAX_SPEED, PLAYER_SHOOT_COOLDOWN_MS,
};
use crate::enemies::EnemyCount;
use crate::game_state::GameState;
use crate::powerups::PowerupCount;
use crate::registry::{
    count_bullets, count_powerups, count_tier, count_where, GameObject, Entity, Kind, Registry,
    Slot,
};
use crate::scoreboard::Score;

verus! {

/// The one-shot signal that a finished run should be torn down and a fresh
/// one started.
#[derive(Clone, Copy, Debug, PartialEq, Eq, Structural)]
pub struct GameRestartEvent;

/// Every quantity a live object must keep within bounds: positive health
/// (anything at or below zero is destroyed before the tick ends), a speed
/// the movement arithmetic accepts, a valid animation and a non-negative
/// collision box.
pub open spec fn obj_ok(o: GameObject) -> bool {
    &&& o.health > 0
    &&& o.speed <= MAX_SPEED
    &&& o.anim.wf()
    &&& o.size.x >= 0 && o.size.y >= 0
}

/// As `obj_ok`, but health unconstrained: the state objects pass through
/// inside a tick, between damage application and the death sweep.
pub open spec fn obj_ok_damaged(o: GameObject) -> bool {
    &&& o.speed <= MAX_SPEED
    &&& o.anim.wf()
    &&& o.size.x >= 0 && o.size.y >= 0
}

/// The whole mutable state one simulation tick works on.
pub struct World {
    pub reg: Registry,
    pub counts: EnemyCount,
    pub powerup_count: PowerupCount,
    pub score: Score,
    pub stats: PlayerStats,
    /// The live player entity, or `None` after the player died.
    pub player: Option<Entity>,
    pub state: GameState,
    pub player_state: PlayerState,
    pub prev_state: PrevPlayerState,
    pub anim_stack: AnimationStack,
    pub shoot: Shoot,
    pub input: MovementInput,
}

impl World {
    /// The aggregate counters equal the live population of the registry,
    /// per category, and respect the population caps.
    pub open spec fn counts_ok(self) -> bool {
        &&& self.counts.small == count_tier(self.reg.slots_seq(), EnemyType::Small)
        &&& self.counts.medium == count_tier(self.reg.slots_seq(), EnemyType::Medium)
        &&& self.counts.large == count_tier(self.reg.slots_seq(), EnemyType::Large)
        &&& self.counts.small + self.counts.medium + self.counts.large <= MAX_ENEMIES
        &&& self.powerup_count.0 == count_powerups(self.reg.slots_seq())
        &&& self.powerup_count.0 <= MAX_POWERUPS
    }

    /// Every live object is well formed.
    pub open spec fn objs_ok(self) -> bool {
        forall|i: int|
            0 <= i < self.reg.slots_seq().len() ==> (#[trigger] self.reg.slots_seq()[i].obj
                matches Some(o) ==> obj_ok(o))
    }

    /// The player identifier, when there is one, points at a live player
    /// object.
    pub open spec fn player_ok(self) -> bool {
        self.player matches Some(p) ==> (self.reg.is_live(p) && self.reg.obj_of(p).kind
            == Kind::Player)
    }

    pub open spec fn wf(self) -> bool {
        &&& self.reg.wf()
        &&& self.counts_ok()
        &&& self.objs_ok()
        &&& self.player_ok()
        &&& self.stats.wf()
        &&& self.anim_stack.frames@.len() >= 1
    }

    /// The fields a collision or movement phase never touches.
    pub open spec fn same_player_components(self, other: World) -> bool {
        &&& self.player_state == other.player_state
        &&& self.prev_state == other.prev_state
        &&& self.anim_stack.frames@ == other.anim_stack.frames@
        &&& self.anim_stack.cycles == other.anim_stack.cycles
        &&& self.shoot == other.shoot
        &&& self.input == other.input
    }
}

/// Start a run from scratch: a fresh registry holding only a newly spawned
/// player, zeroed counters and score, base stats, and the playing state.
/// Every enemy, bullet and powerup of the previous run is gone. Entering a
/// run is the only point that resets the counters, so re-entering play
/// without a restart never clears a running session.
pub fn restart(w: &mut World)
    ensures
        final(w).wf(),
        final(w).score == Score(0),
        final(w).counts == (EnemyCount { small: 0, medium: 0, large: 0 }),
        final(w).powerup_count == PowerupCount(0),
        final(w).stats == (PlayerStats { fire_rate: STAT_BASE, speed: STAT_BASE }),
        final(w).state == GameState::Playing,
        count_where(final(w).reg.slots_seq(), crate::registry::any_enemy_pred()) == 0,
        count_powerups(final(w).reg.slots_seq()) == 0,
        count_bullets(final(w).reg.slots_seq()) == 0,
        // nothing but the player is live
        forall|e: Entity|
            final(w).reg.is_live(e) ==> (#[trigger] final(w).reg.obj_of(e)).kind == Kind::Player,
        final(w).player matches Some(p) && final(w).reg.is_live(p) && final(w).reg.obj_of(p)
            == crate::player::spec_player_object(),
{
    let mut reg = Registry::new();
    let ghost empty: Seq<Slot> = reg.slots_seq();
    let p = crate::player::spawn_player(&mut reg);
    proof {
        assert(empty.len() == 0);
        assert(reg.slots_seq() == empty.push(
            Slot { generation: p.generation, obj: Some(crate::player::spec_player_object()) },
        ));
        crate::registry::lemma_count_where_push(
            empty,
            Slot { generation: p.generation, obj: Some(crate::player::spec_player_object()) },
            crate::registry::any_enemy_pred(),
        );
        crate::registry::lemma_count_where_push(
            empty,
            Slot { generation: p.generation, obj: Some(crate::player::spec_player_object()) },
            crate::registry::enemy_pred(EnemyType::Small),
        );
        crate::registry::lemma_count_where_push(
            empty,
            Slot { generation: p.generation, obj: Some(crate::player::spec_player_object()) },
            crate::registry::enemy_pred(EnemyType::Medium),
        );
        crate::registry::lemma_count_where_push(
            empty,
            Slot { generation: p.generation, obj: Some(crate::player::spec_player_object()) },
            crate::registry::enemy_pred(EnemyType::Large),
        );
        crate::registry::lemma_count_where_push(
            empty,
            Slot { generation: p.generation, obj: Some(crate::player::spec_player_object()) },
            crate::registry::powerup_pred(),
        );
        crate::registry::lemma_count_where_push(
            empty,
            Slot { generation: p.generation, obj: Some(crate::player::spec_player_object()) },
            crate::registry::bullet_pred(),
        );
    }
    w.reg = reg;
    w.counts = EnemyCount { small: 0, medium: 0, large: 0 };
    w.powerup_count = PowerupCount(0);
    w.score = Score(0);
    w.stats = PlayerStats::new(STAT_BASE, STAT_BASE);
    w.player = Some(p);
    w.state = GameState::Playing;
    w.player_state = PlayerState::Idle;
    w.prev_state = PrevPlayerState(PlayerState::Idle);
    crate::anim::update_animation_stack(
        PlayerState::Idle,
        PrevPlayerState(PlayerState::Idle),
        &mut w.anim_stack,
    );
    w.shoot = Shoot::new(PLAYER_SHOOT_COOLDOWN_MS);
    w.input = MovementInput { dx: 0, dy: 0 };
}

/// A fresh world, ready to play: exactly what `restart` leaves behind.
pub fn new_world() -> (w: World)
    ensures
        w.wf(),
        w.score == Score(0),
        w.counts == (EnemyCount { small: 0, medium: 0, large: 0 }),
        w.powerup_count == PowerupCount(0),
        w.stats == (PlayerStats { fire_rate: STAT_BASE, speed: STAT_BASE }),
        w.state == GameState::Playing,
        count_where(w.reg.slots_seq(), crate::registry::any_enemy_pred()) == 0,
        count_powerups(w.reg.slots_seq()) == 0,
        count_bullets(w.reg.slots_seq()) == 0,
        forall|e: Entity|
            w.reg.is_live(e) ==> (#[trigger] w.reg.obj_of(e)).kind == Kind::Player,
        w.player matches Some(p) && w.reg.is_live(p) && w.reg.obj_of(p)
            == crate::player::spec_player_object(),
{
    let mut w = World {
        reg: Registry::new(),
        counts: EnemyCount { small: 0, medium: 0, large: 0 },
        powerup_count: PowerupCount(0),
        score: Score(0),
        stats: PlayerStats::new(STAT_BASE, STAT_BASE),
        player: None,
        state: GameState::Playing,
        player_state: PlayerState::Idle,
        prev_state: PrevPlayerState(PlayerState::Idle),
        anim_stack: AnimationStack { frames: vec![(0usize, 1usize)], cycles: 0 },
        shoot: Shoot::new(PLAYER_SHOOT_COOLDOWN_MS),
        input: MovementInput { dx: 0, dy: 0 },
    };
    restart(&mut w);
    w
}

/// The world with the tick's input and fire intent written in, which is
/// how every played tick begins.
pub open spec fn spec_latched(w0: World, input: MovementInput, shooting: bool) -> World {
    World { input, shoot: Shoot { is_shooting: shooting, ..w0.shoot }, ..w0 }
}

/// The phase chain of one played tick: the latched world, then each phase
/// relation in the fixed order, through the given intermediate worlds, to
/// the post-tick world.
pub open spec fn spec_tick_phases(
    w0: World,
    ws: Seq<World>,
    post: World,
    vp: crate::geom::Viewport,
    input: MovementInput,
    shooting: bool,
    dt: u32,
    draws: crate::enemies::SpawnDraws,
    spawned: Option<Entity>,
    events: Seq<crate::enemies::EnemyDestroyedEvent>,
) -> bool {
    &&& ws.len() == 15
    &&& ws[0] == spec_latched(w0, input, shooting)
    &&& crate::enemies::spec_spawn_enemy_rel(ws[0], ws[1], vp, draws, spawned)
    &&& crate::player::spec_player_movement_rel(ws[1], ws[2], dt)
    &&& crate::player::spec_confine_rel(ws[2], ws[3], vp)
    &&& crate::movement::spec_movement_rel(ws[3], ws[4], dt)
    &&& crate::collisions::spec_bullet_collision_rel(ws[4], ws[5], events)
    &&& crate::collisions::spec_player_collision_rel(ws[5], ws[6])
    &&& crate::collisions::spec_pickup_rel(ws[6], ws[7])
    &&& crate::powerups::spec_spawn_powerups_rel(ws[7], ws[8], events)
    &&& crate::explosion::spec_destroy_events_rel(ws[8], ws[9], events)
    &&& crate::player::spec_player_state_rel(ws[9], ws[10])
    &&& crate::player::spec_player_anim_rel(ws[10], ws[11], dt)
    &&& crate::explosion::spec_animations_rel(ws[11], ws[12], dt)
    &&& crate::player::spec_spawn_bullets_rel(ws[12], ws[13], dt)
    &&& crate::movement::spec_offscreen_rel(ws[13], ws[14], vp)
    &&& crate::player::spec_health_check_rel(ws[14], post)
}

/// A played tick is exactly the composition of the phases in their fixed
/// order: for some spawn draws, some spawn outcome and the tick's
/// destruction events, intermediate worlds witness every phase relation
/// from the latched start to the final world.
pub open spec fn spec_tick_rel(
    w0: World,
    post: World,
    vp: crate::geom::Viewport,
    input: MovementInput,
    shooting: bool,
    dt: u32,
) -> bool {
    exists|
        ws: Seq<World>,
        draws: crate::enemies::SpawnDraws,
        spawned: Option<Entity>,
        events: Seq<crate::enemies::EnemyDestroyedEvent>,
    |
        spec_tick_phases(w0, ws, post, vp, input, shooting, dt, draws, spawned, events)
}

/// One simulation tick, advanced only while playing: a paused or ended run
/// freezes exactly as it stands, and a degenerate viewport (zero or
/// negative dimensions) freezes the tick too instead of crashing. Within
/// the tick the phases run in a fixed order — spawner, movement,
/// bullet-enemy resolution before enemy-player resolution (so a lethal
/// kill cannot also kill the player in the same tick), pickups, then the
/// event consumers and the player state machine — and the tick ends with
/// the off-screen sweep and the game-over check, so nothing dead or fallen
/// survives into the next tick.
#[verifier::rlimit(100)]
pub fn tick(w: &mut World, vp: &crate::geom::Viewport, input: MovementInput, shooting: bool, dt: u32)
    requires
        old(w).wf(),
        vp.width <= MAX_DIM,
        vp.height <= MAX_DIM,
        input.wf(),
        dt <= crate::config::MAX_DT_MS,
    ensures
        final(w).wf(),
        old(w).state != GameState::Playing ==> *final(w) == *old(w),
        vp.width <= 0 || vp.height <= 0 ==> *final(w) == *old(w),
        final(w).score.0 >= old(w).score.0,
        final(w).counts.spec_total() <= MAX_ENEMIES,
        final(w).powerup_count.0 <= MAX_POWERUPS,
        // a played tick latches the tick's input, ends still playing or
        // with the run over, and is exactly the phase composition
        old(w).state == GameState::Playing && vp.width > 0 && vp.height > 0 ==> (final(w).input
            == input && final(w).shoot.is_shooting == shooting && (final(w).state
            == GameState::Playing || final(w).state == GameState::GameOver) && spec_tick_rel(
            *old(w),
            *final(w),
            *vp,
            input,
            shooting,
            dt,
        )),
{
    match w.state {
        GameState::Playing => {},
        _ => {
            return ;
        },
    }
    if vp.width <= 0 || vp.height <= 0 {
        return ;
    }
    w.input = input;
    w.shoot.is_shooting = shooting;
    let ghost g1: World = *w;
    let spawned = crate::enemies::spawn_enemies(w, vp);
    let ghost g2: World = *w;
    crate::player::apply_player_movement(w, dt);
    let ghost g3: World = *w;
    crate::player::confine_player_movement(w, vp);
    let ghost g4: World = *w;
    crate::movement::apply_movement(w, dt);
    let ghost g5: World = *w;
    let events = crate::collisions::check_player_bullet_enemy_collision(w);
    let ghost g6: World = *w;
    proof {
        crate::collisions::lemma_events_score_nonneg(events@);
    }
    crate::collisions::check_player_enemy_collision(w);
    let ghost g7: World = *w;
    crate::collisions::handle_powerup_collisions(w);
    let ghost g8: World = *w;
    crate::powerups::spawn_powerups(w, &events);
    let ghost g9: World = *w;
    crate::explosion::handle_destroy_event(w, &events);
    let ghost g10: World = *w;
    crate::player::update_player_state(w);
    let ghost g11: World = *w;
    crate::player::update_player_animation(w, dt);
    let ghost g12: World = *w;
    crate::explosion::update_animations(w, dt);
    let ghost g13: World = *w;
    crate::player::spawn_bullets(w, dt);
    let ghost g14: World = *w;
    crate::movement::remove_offscreen(w, vp);
    let ghost g15: World = *w;
    crate::player::check_player_health(w);
    proof {
        let draws = choose|d: crate::enemies::SpawnDraws|
            crate::enemies::spec_spawn_enemy_rel(g1, g2, *vp, d, spawned);
        let ws: Seq<World> = seq![
            g1,
            g2,
            g3,
            g4,
            g5,
            g6,
            g7,
            g8,
            g9,
            g10,
            g11,
            g12,
            g13,
            g14,
            g15,
        ];
        assert(g1 == spec_latched(*old(w), input, shooting));
        assert(spec_tick_phases(
            *old(w),
            ws,
            *w,
            *vp,
            input,
            shooting,
            dt,
            draws,
            spawned,
            events@,
        ));
        assert(spec_tick_rel(*old(w), *w, *vp, input, shooting, dt));
    }
}

/// The population cap is an invariant of every well-formed world, not just
/// a property of one spawn attempt: the live enemy total never exceeds the
/// cap, and the live powerup total never exceeds its own.
pub proof fn lemma_population_caps(w: World)
    requires
        w.wf(),
    ensures
        w.counts.spec_total() <= MAX_ENEMIES,
        w.powerup_count.0 <= MAX_POWERUPS,
{
}

/// The aggregate counters round-trip with the registry: in every
/// well-formed world, each tier's counter equals the number of live
/// enemies of that tier among the slots, and the powerup counter equals
/// the number of live powerups.
pub proof fn lemma_counts_match_registry(w: World)
    requires
        w.wf(),
    ensures
        w.counts.small == count_tier(w.reg.slots_seq(), EnemyType::Small),
        w.counts.medium == count_tier(w.reg.slots_seq(), EnemyType::Medium),
        w.counts.large == count_tier(w.reg.slots_seq(), EnemyType::Large),
        w.powerup_count.0 == count_powerups(w.reg.slots_seq()),
{
}

/// A control key the host reports, already released.
#[derive(Clone, Copy, Debug, PartialEq, Eq, Structural)]
pub enum ControlKey {
    /// Quit the program.
    Quit,
    /// Toggle between playing and paused.
    Escape,
    /// Restart after a game over.
    Restart,
}

/// What a control key asks the host to do.
#[derive(Clone, Copy, Debug, PartialEq, Eq, Structural)]
pub struct ControlEffect {
    pub next: GameState,
    pub restart: bool,
    pub quit: bool,
}

pub open spec fn spec_handle_exit(state: GameState, key: ControlKey) -> ControlEffect {
    match key {
        ControlKey::Quit => ControlEffect { next: state, restart: false, quit: true },
        ControlKey::Escape => match state {
            GameState::Playing => ControlEffect {
                next: GameState::Paused,
                restart: false,
                quit: false,
            },
            GameState::Paused => ControlEffect {
                next: GameState::Playing,
                restart: false,
                quit: false,
            },
            GameState::GameOver => ControlEffect { next: state, restart: false, quit: false },
        },
        ControlKey::Restart => match state {
            GameState::GameOver => ControlEffect {
                next: GameState::Playing,
                restart: true,
                quit: false,
            },
            _ => ControlEffect { next: state, restart: false, quit: false },
        },
    }
}

/// The control-key transitions: quit always quits; escape toggles pause
/// while in a run; restart is honored only from the game-over screen and
/// raises the restart signal.
pub fn handle_exit(state: GameState, key: ControlKey) -> (r: ControlEffect)
    ensures
        r == spec_handle_exit(state, key),
{
    match key {
        ControlKey::Quit => ControlEffect { next: state, restart: false, quit: true },
        ControlKey::Escape => match state {
            GameState::Playing => ControlEffect {
                next: GameState::Paused,
                restart: false,
                quit: false,
            },
            GameState::Paused => ControlEffect {
                next: GameState::Playing,
                restart: false,
                quit: false,
            },
            GameState::GameOver => ControlEffect { next: state, restart: false, quit: false },
        },
        ControlKey::Restart => match state {
            GameState::GameOver => ControlEffect {
                next: GameState::Playing,
                restart: true,
                quit: false,
            },
            _ => ControlEffect { next: state, restart: false, quit: false },
        },
    }
}

} // verus!
