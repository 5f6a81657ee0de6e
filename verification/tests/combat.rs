use space_shooter::anim::AnimationConfig;
use space_shooter::collisions::{
    check_player_bullet_enemy_collision, check_player_enemy_collision,
};
use space_shooter::components::{mutual_damage, Health};
use space_shooter::config::EnemyType;
use space_shooter::game::new_world;
use space_shooter::game_state::GameState;
use space_shooter::geom::Vec2i;
use space_shooter::registry::{GameObject, Kind};

fn enemy_at(tier: EnemyType, x: i64, y: i64) -> GameObject {
    let cfg = tier.config();
    GameObject {
        kind: Kind::Enemy(tier),
        pos: Vec2i { x, y },
        size: Vec2i { x: cfg.width, y: cfg.height },
        speed: cfg.speed,
        health: cfg.health,
        anim: AnimationConfig::new(0, 1, 12),
        frame: 0,
    }
}

fn bullet_at(x: i64, y: i64) -> GameObject {
    GameObject {
        kind: Kind::Bullet,
        pos: Vec2i { x, y },
        size: Vec2i { x: 16000, y: 16000 },
        speed: 500,
        health: 1,
        anim: AnimationConfig::new(2, 3, 12),
        frame: 2,
    }
}

#[test]
fn two_simultaneous_hits_kill_once_and_score_once() {
    let mut w = new_world();
    // a Small enemy (health 2) far from the player, with two bullets on it
    let e = w.reg.spawn(enemy_at(EnemyType::Small, 0, 200000));
    w.counts.increment(&EnemyType::Small);
    w.reg.spawn(bullet_at(-1000, 200000));
    w.reg.spawn(bullet_at(1000, 200000));
    let events = check_player_bullet_enemy_collision(&mut w);
    // dead exactly once: one event, the tier score awarded once, not twice
    assert_eq!(events.len(), 1);
    assert!(matches!(events[0].0.enemy_type, EnemyType::Small));
    assert_eq!(w.score.0, 2);
    assert!(w.reg.get(e).is_none());
    assert_eq!(w.counts.small, 0);
}

#[test]
fn a_bullet_is_single_use() {
    let mut w = new_world();
    // one bullet overlapping a Medium enemy (health 8): the enemy survives
    // with one point of damage and the bullet is consumed
    let e = w.reg.spawn(enemy_at(EnemyType::Medium, 0, 200000));
    w.counts.increment(&EnemyType::Medium);
    let b = w.reg.spawn(bullet_at(0, 200000));
    let events = check_player_bullet_enemy_collision(&mut w);
    assert_eq!(events.len(), 0);
    assert_eq!(w.score.0, 0);
    assert_eq!(w.reg.get(e).unwrap().health, 7);
    assert!(w.reg.get(b).is_none());
}

#[test]
fn no_bullets_no_enemies_is_a_no_op() {
    let mut w = new_world();
    let events = check_player_bullet_enemy_collision(&mut w);
    assert_eq!(events.len(), 0);
    assert_eq!(w.score.0, 0);
}

#[test]
fn mutual_damage_subtracts_both_ways() {
    // player 10 against enemy 2: player 8, enemy -8
    let (p, e) = mutual_damage(Health(10), Health(2));
    assert_eq!(p.0, 8);
    assert_eq!(e.0, -8);
}

#[test]
fn mutual_damage_skips_a_dead_side() {
    // an already-dead enemy deals and takes no further damage
    let (p, e) = mutual_damage(Health(8), Health(-8));
    assert_eq!(p.0, 8);
    assert_eq!(e.0, -8);
    let (p2, e2) = mutual_damage(Health(0), Health(5));
    assert_eq!(p2.0, 0);
    assert_eq!(e2.0, 5);
}

#[test]
fn player_enemy_collision_resolves_mutually() {
    let mut w = new_world();
    // a Small enemy (health 2) right on top of the player (health 10)
    let e = w.reg.spawn(enemy_at(EnemyType::Small, 0, 0));
    w.counts.increment(&EnemyType::Small);
    check_player_enemy_collision(&mut w);
    let p = w.player.unwrap();
    // player 10 - 2 = 8; enemy 2 - 10 = -8, dead, swept away
    assert_eq!(w.reg.get(p).unwrap().health, 8);
    assert!(w.reg.get(e).is_none());
    assert_eq!(w.counts.small, 0);
    assert!(matches!(w.state, GameState::Playing));
    // running the phase again finds no enemy: no further damage
    check_player_enemy_collision(&mut w);
    assert_eq!(w.reg.get(p).unwrap().health, 8);
}

#[test]
fn two_overlapping_enemies_exchange_in_slot_order() {
    let mut w = new_world();
    // two Small enemies (health 2 each) on the player (health 10): the
    // first exchange leaves the player at 8, the second at 6; both enemies
    // die and are swept
    let a = w.reg.spawn(enemy_at(EnemyType::Small, -1000, 0));
    w.counts.increment(&EnemyType::Small);
    let b = w.reg.spawn(enemy_at(EnemyType::Small, 1000, 0));
    w.counts.increment(&EnemyType::Small);
    check_player_enemy_collision(&mut w);
    let p = w.player.unwrap();
    assert_eq!(w.reg.get(p).unwrap().health, 6);
    assert!(w.reg.get(a).is_none());
    assert!(w.reg.get(b).is_none());
    assert_eq!(w.counts.small, 0);
    assert!(matches!(w.state, GameState::Playing));
}

#[test]
fn a_lethal_enemy_ends_the_run() {
    let mut w = new_world();
    // a Large enemy (health 20) overwhelms the player (health 10)
    w.reg.spawn(enemy_at(EnemyType::Large, 0, 0));
    w.counts.increment(&EnemyType::Large);
    check_player_enemy_collision(&mut w);
    assert!(w.player.is_none());
    assert!(matches!(w.state, GameState::GameOver));
}

#[test]
fn collision_deaths_award_no_score() {
    let mut w = new_world();
    w.reg.spawn(enemy_at(EnemyType::Small, 0, 0));
    w.counts.increment(&EnemyType::Small);
    check_player_enemy_collision(&mut w);
    assert_eq!(w.score.0, 0);
}
