use space_shooter::anim::AnimationConfig;
use space_shooter::collisions::handle_powerup_collisions;
use space_shooter::config::{EnemyType, PowerupType, MAX_POWERUPS};
use space_shooter::enemies::{EnemyDestroyedData, EnemyDestroyedEvent};
use space_shooter::game::new_world;
use space_shooter::geom::Vec2i;
use space_shooter::powerups::spawn_powerups;
use space_shooter::registry::{GameObject, Kind};

fn powerup_at(pt: PowerupType, x: i64, y: i64) -> GameObject {
    let (first, last) = match pt {
        PowerupType::FireRate => (0, 1),
        PowerupType::Speed => (2, 3),
    };
    GameObject {
        kind: Kind::Powerup(pt),
        pos: Vec2i { x, y },
        size: Vec2i { x: 32000, y: 32000 },
        speed: 50,
        health: 1,
        anim: AnimationConfig::new(first, last, 12),
        frame: first,
    }
}

fn kill_event(tier: EnemyType) -> EnemyDestroyedEvent {
    EnemyDestroyedEvent(EnemyDestroyedData { enemy_type: tier, position: Vec2i { x: 0, y: 100000 } })
}

#[test]
fn fire_rate_pickup_multiplies_by_1_5() {
    let mut w = new_world();
    w.reg.spawn(powerup_at(PowerupType::FireRate, 0, 0));
    w.powerup_count.0 += 1;
    handle_powerup_collisions(&mut w);
    assert_eq!(w.stats.fire_rate, 1500);
    assert_eq!(w.powerup_count.0, 0);
}

#[test]
fn two_fire_rate_pickups_stack_to_2_25() {
    let mut w = new_world();
    w.reg.spawn(powerup_at(PowerupType::FireRate, 0, 0));
    w.powerup_count.0 += 1;
    handle_powerup_collisions(&mut w);
    w.reg.spawn(powerup_at(PowerupType::FireRate, 0, 0));
    w.powerup_count.0 += 1;
    handle_powerup_collisions(&mut w);
    // multiplicative stacking, no cap: 1.0 * 1.5 * 1.5 = 2.25
    assert_eq!(w.stats.fire_rate, 2250);
}

#[test]
fn two_simultaneous_pickups_both_apply_in_slot_order() {
    let mut w = new_world();
    // one of each kind overlapping the player in the same tick
    w.reg.spawn(powerup_at(PowerupType::FireRate, -1000, 0));
    w.powerup_count.0 += 1;
    w.reg.spawn(powerup_at(PowerupType::Speed, 1000, 0));
    w.powerup_count.0 += 1;
    handle_powerup_collisions(&mut w);
    assert_eq!(w.stats.fire_rate, 1500);
    assert_eq!(w.stats.speed, 1200);
    assert_eq!(w.powerup_count.0, 0);
}

#[test]
fn speed_pickup_multiplies_by_1_2() {
    let mut w = new_world();
    w.reg.spawn(powerup_at(PowerupType::Speed, 0, 0));
    w.powerup_count.0 += 1;
    handle_powerup_collisions(&mut w);
    assert_eq!(w.stats.speed, 1200);
    assert_eq!(w.stats.fire_rate, 1000);
}

#[test]
fn distant_powerup_is_not_picked_up() {
    let mut w = new_world();
    let far = w.reg.spawn(powerup_at(PowerupType::Speed, 300000, 300000));
    w.powerup_count.0 += 1;
    handle_powerup_collisions(&mut w);
    assert_eq!(w.stats.speed, 1000);
    assert!(w.reg.get(far).is_some());
    assert_eq!(w.powerup_count.0, 1);
}

#[test]
fn medium_kill_drops_speed_and_large_drops_fire_rate() {
    let mut w = new_world();
    spawn_powerups(&mut w, &vec![kill_event(EnemyType::Medium), kill_event(EnemyType::Large)]);
    assert_eq!(w.powerup_count.0, 2);
    let mut speed_drops = 0;
    let mut fire_drops = 0;
    for i in 0..w.reg.slot_count() {
        if let Some((_, o)) = w.reg.peek(i) {
            match o.kind {
                Kind::Powerup(PowerupType::Speed) => speed_drops += 1,
                Kind::Powerup(PowerupType::FireRate) => fire_drops += 1,
                _ => {}
            }
        }
    }
    assert_eq!(speed_drops, 1);
    assert_eq!(fire_drops, 1);
}

#[test]
fn small_kills_drop_nothing() {
    let mut w = new_world();
    spawn_powerups(&mut w, &vec![kill_event(EnemyType::Small), kill_event(EnemyType::Small)]);
    assert_eq!(w.powerup_count.0, 0);
}

#[test]
fn powerup_population_is_capped() {
    let mut w = new_world();
    let events = vec![
        kill_event(EnemyType::Large),
        kill_event(EnemyType::Large),
        kill_event(EnemyType::Large),
        kill_event(EnemyType::Large),
        kill_event(EnemyType::Large),
    ];
    spawn_powerups(&mut w, &events);
    assert_eq!(w.powerup_count.0, MAX_POWERUPS);
}
