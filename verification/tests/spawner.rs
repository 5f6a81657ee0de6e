use space_shooter::config::{EnemyType, MAX_ENEMIES};
use space_shooter::enemies::{calculate_enemy_x_position, spawn_enemies, spawn_enemy_from_draws, SpawnDraws};
use space_shooter::game::new_world;
use space_shooter::geom::Viewport;
use space_shooter::registry::Kind;

// a 640 x 360 pixel window, in milli-pixels
fn vp() -> Viewport {
    Viewport { width: 640000, height: 360000 }
}

fn sure_draws() -> SpawnDraws {
    // chance 0 clears the spawn-chance threshold; roll 5 is a Large draw
    SpawnDraws { chance: 0, tier_roll: 5, column: 0 }
}

#[test]
fn population_never_exceeds_the_cap() {
    let mut w = new_world();
    for _ in 0..100 {
        spawn_enemy_from_draws(&mut w, &vp(), sure_draws());
        assert!(w.counts.small + w.counts.medium + w.counts.large <= MAX_ENEMIES);
    }
    assert_eq!(w.counts.large, MAX_ENEMIES);
    // at the cap the attempt is a no-op, not an error
    let r = spawn_enemy_from_draws(&mut w, &vp(), sure_draws());
    assert!(r.is_none());
    assert_eq!(w.counts.large, MAX_ENEMIES);
}

#[test]
fn failed_chance_roll_spawns_nothing() {
    let mut w = new_world();
    let r = spawn_enemy_from_draws(
        &mut w,
        &vp(),
        SpawnDraws { chance: 2, tier_roll: 5, column: 0 },
    );
    assert!(r.is_none());
    assert_eq!(w.counts.small + w.counts.medium + w.counts.large, 0);
}

#[test]
fn spawned_enemy_matches_the_drawn_tier() {
    let mut w = new_world();
    let e = spawn_enemy_from_draws(
        &mut w,
        &vp(),
        SpawnDraws { chance: 1, tier_roll: 849, column: 2 },
    )
    .unwrap();
    let o = w.reg.get(e).unwrap();
    assert!(matches!(o.kind, Kind::Enemy(EnemyType::Small)));
    assert_eq!(o.health, 2);
    assert_eq!(o.speed, 100);
    // spawn row: just above the top edge, offset by half the sprite width
    assert_eq!(o.pos.y, 180000 + 17000);
}

#[test]
fn degenerate_viewport_spawns_nothing() {
    let mut w = new_world();
    // a 10-pixel-wide window fits no spawn column of any tier
    let tiny = Viewport { width: 10000, height: 360000 };
    let r = spawn_enemy_from_draws(&mut w, &tiny, sure_draws());
    assert!(r.is_none());
}

#[test]
fn column_layout_is_centered() {
    // Large enemies are 64 px wide with a 4 px gutter: nine columns fit in
    // 640 px, the content block is 608 px, so the margin is 16 px and
    // column 0 centers at -272 px from the screen center
    let x0 = calculate_enemy_x_position(&vp(), 0, 64000);
    assert_eq!(x0, -272000);
    // each further column moves one sprite plus one gutter to the right
    let x1 = calculate_enemy_x_position(&vp(), 1, 64000);
    assert_eq!(x1, -272000 + 68000);
    let x8 = calculate_enemy_x_position(&vp(), 8, 64000);
    assert_eq!(x8, -272000 + 8 * 68000);
}

#[test]
fn random_spawner_respects_the_cap_and_does_spawn() {
    let mut w = new_world();
    for _ in 0..50000 {
        spawn_enemies(&mut w, &vp());
        let total = w.counts.small + w.counts.medium + w.counts.large;
        assert!(total <= MAX_ENEMIES);
    }
    // the 2% per-tick chance makes zero spawns in fifty thousand attempts
    // implausible; this would also catch a draw that ignored its range
    let total = w.counts.small + w.counts.medium + w.counts.large;
    assert!(total > 0);
}
