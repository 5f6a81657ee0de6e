use space_shooter::anim::AnimationConfig;
use space_shooter::components::MovementInput;
use space_shooter::config::EnemyType;
use space_shooter::explosion::{handle_destroy_event, update_animations};
use space_shooter::enemies::{EnemyDestroyedData, EnemyDestroyedEvent};
use space_shooter::game::{handle_exit, new_world, restart, tick, ControlKey};
use space_shooter::game_state::GameState;
use space_shooter::geom::{Vec2i, Viewport};
use space_shooter::movement::{apply_movement, remove_offscreen};
use space_shooter::player::{check_player_health, spawn_bullets};
use space_shooter::registry::{GameObject, Kind};

fn vp() -> Viewport {
    Viewport { width: 640000, height: 360000 }
}

fn enemy_at(tier: EnemyType, x: i64, y: i64) -> GameObject {
    let cfg = tier.config();
    GameObject {
        kind: Kind::Enemy(tier),
        pos: Vec2i { x, y },
        size: Vec2i { x: cfg.width, y: cfg.height },
        speed: cfg.speed,
        health: cfg.health,
        anim: AnimationConfig::new(0, 1, 12),
        frame: 0,
    }
}

/// Recount the live population straight from the registry, per tier.
fn recount(w: &space_shooter::game::World) -> (usize, usize, usize, usize) {
    let mut small = 0;
    let mut medium = 0;
    let mut large = 0;
    let mut powerups = 0;
    for i in 0..w.reg.slot_count() {
        if let Some((_, o)) = w.reg.peek(i) {
            match o.kind {
                Kind::Enemy(EnemyType::Small) => small += 1,
                Kind::Enemy(EnemyType::Medium) => medium += 1,
                Kind::Enemy(EnemyType::Large) => large += 1,
                Kind::Powerup(_) => powerups += 1,
                _ => {}
            }
        }
    }
    (small, medium, large, powerups)
}

fn assert_counts_match(w: &space_shooter::game::World) {
    let (s, m, l, p) = recount(w);
    assert_eq!(w.counts.small, s);
    assert_eq!(w.counts.medium, m);
    assert_eq!(w.counts.large, l);
    assert_eq!(w.powerup_count.0, p);
}

#[test]
fn counters_match_registry_across_many_ticks() {
    let mut w = new_world();
    assert_counts_match(&w);
    for i in 0..2000 {
        let input = MovementInput { dx: (i % 3) as i32 - 1, dy: 0 };
        tick(&mut w, &vp(), input, i % 2 == 0, 16);
        assert_counts_match(&w);
    }
}

#[test]
fn restart_clears_the_run() {
    let mut w = new_world();
    // make a mess: enemies, a powerup, score, buffs
    for _ in 0..500 {
        tick(&mut w, &vp(), MovementInput { dx: 0, dy: 0 }, true, 16);
    }
    w.score.0 += 100;
    restart(&mut w);
    assert_eq!(w.score.0, 0);
    assert_eq!(w.counts.small, 0);
    assert_eq!(w.counts.medium, 0);
    assert_eq!(w.counts.large, 0);
    assert_eq!(w.powerup_count.0, 0);
    assert_eq!(w.stats.fire_rate, 1000);
    assert_eq!(w.stats.speed, 1000);
    assert!(matches!(w.state, GameState::Playing));
    // nothing but the player is live
    for i in 0..w.reg.slot_count() {
        if let Some((_, o)) = w.reg.peek(i) {
            assert!(matches!(o.kind, Kind::Player));
        }
    }
}

#[test]
fn paused_and_game_over_freeze_the_tick() {
    let mut w = new_world();
    w.state = GameState::Paused;
    let score_before = w.score.0;
    let slots_before = w.reg.slot_count();
    for _ in 0..100 {
        tick(&mut w, &vp(), MovementInput { dx: 1, dy: 1 }, true, 16);
    }
    assert_eq!(w.score.0, score_before);
    assert_eq!(w.reg.slot_count(), slots_before);
    assert!(matches!(w.state, GameState::Paused));
}

#[test]
fn degenerate_viewport_freezes_the_tick() {
    let mut w = new_world();
    let zero = Viewport { width: 0, height: 360000 };
    let score_before = w.score.0;
    let slots_before = w.reg.slot_count();
    for _ in 0..50 {
        tick(&mut w, &zero, MovementInput { dx: 1, dy: 0 }, true, 16);
    }
    assert_eq!(w.score.0, score_before);
    assert_eq!(w.reg.slot_count(), slots_before);
}

#[test]
fn enemies_fall_and_bullets_rise() {
    let mut w = new_world();
    let e = w.reg.spawn(enemy_at(EnemyType::Small, 0, 100000));
    w.counts.increment(&EnemyType::Small);
    apply_movement(&mut w, 100);
    // 100 px/s for 100 ms is 10 px straight down
    assert_eq!(w.reg.get(e).unwrap().pos.y, 90000);
    assert_eq!(w.reg.get(e).unwrap().pos.x, 0);
}

#[test]
fn fallen_enemies_are_removed_and_counted_out() {
    let mut w = new_world();
    let gone = w.reg.spawn(enemy_at(EnemyType::Small, 0, -180001));
    w.counts.increment(&EnemyType::Small);
    let kept = w.reg.spawn(enemy_at(EnemyType::Small, 0, -180000));
    w.counts.increment(&EnemyType::Small);
    remove_offscreen(&mut w, &vp());
    assert!(w.reg.get(gone).is_none());
    assert!(w.reg.get(kept).is_some());
    assert_eq!(w.counts.small, 1);
}

#[test]
fn shooting_spawns_a_rising_bullet_on_cooldown() {
    let mut w = new_world();
    w.shoot.is_shooting = true;
    // run the cooldown out: 400 ms at base fire rate
    spawn_bullets(&mut w, 400);
    let mut bullets = 0;
    for i in 0..w.reg.slot_count() {
        if let Some((_, o)) = w.reg.peek(i) {
            if matches!(o.kind, Kind::Bullet) {
                bullets += 1;
                assert_eq!(o.pos.x, 0);
                assert_eq!(o.speed, 500);
            }
        }
    }
    assert_eq!(bullets, 1);
    // the cooldown restarted: an immediate next tick fires nothing
    spawn_bullets(&mut w, 1);
    let mut bullets2 = 0;
    for i in 0..w.reg.slot_count() {
        if let Some((_, o)) = w.reg.peek(i) {
            if matches!(o.kind, Kind::Bullet) {
                bullets2 += 1;
            }
        }
    }
    assert_eq!(bullets2, 1);
}

#[test]
fn explosions_play_once_and_disappear() {
    let mut w = new_world();
    let ev = EnemyDestroyedEvent(EnemyDestroyedData {
        enemy_type: EnemyType::Large,
        position: Vec2i { x: 5000, y: 5000 },
    });
    handle_destroy_event(&mut w, &vec![ev]);
    let mut explosion_slot = None;
    for i in 0..w.reg.slot_count() {
        if let Some((e, o)) = w.reg.peek(i) {
            if matches!(o.kind, Kind::Explosion) {
                assert_eq!(o.pos.x, 5000);
                explosion_slot = Some(e);
            }
        }
    }
    let e = explosion_slot.unwrap();
    // five frames at 12 fps: gone within a second of animation
    for _ in 0..12 {
        update_animations(&mut w, 84);
    }
    assert!(w.reg.get(e).is_none());
}

#[test]
fn losing_the_player_ends_the_run() {
    let mut w = new_world();
    let p = w.player.unwrap();
    w.reg.despawn(p);
    w.player = None;
    check_player_health(&mut w);
    assert!(matches!(w.state, GameState::GameOver));
}

#[test]
fn control_keys_drive_the_run_state() {
    let r = handle_exit(GameState::Playing, ControlKey::Escape);
    assert!(matches!(r.next, GameState::Paused));
    assert!(!r.restart && !r.quit);
    let r = handle_exit(GameState::Paused, ControlKey::Escape);
    assert!(matches!(r.next, GameState::Playing));
    let r = handle_exit(GameState::GameOver, ControlKey::Escape);
    assert!(matches!(r.next, GameState::GameOver));
    let r = handle_exit(GameState::GameOver, ControlKey::Restart);
    assert!(matches!(r.next, GameState::Playing));
    assert!(r.restart);
    let r = handle_exit(GameState::Playing, ControlKey::Restart);
    assert!(!r.restart);
    let r = handle_exit(GameState::Playing, ControlKey::Quit);
    assert!(r.quit);
}
