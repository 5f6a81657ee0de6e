use space_shooter::config::{
    powerup_for_tier, powerup_multiplier, select_tier, EnemyType, PowerupType,
};

#[test]
fn tier_table_matches_the_design() {
    let small = EnemyType::Small.config();
    assert_eq!(small.speed, 100);
    assert_eq!(small.health, 2);
    assert_eq!(small.spawn_weight, 800);
    assert_eq!(small.score, 2);
    let medium = EnemyType::Medium.config();
    assert_eq!(medium.speed, 50);
    assert_eq!(medium.health, 8);
    assert_eq!(medium.spawn_weight, 40);
    assert_eq!(medium.score, 12);
    let large = EnemyType::Large.config();
    assert_eq!(large.speed, 25);
    assert_eq!(large.health, 20);
    assert_eq!(large.spawn_weight, 10);
    assert_eq!(large.score, 40);
}

#[test]
fn roll_above_every_weight_falls_back_to_small() {
    // total weight is 8.5; a roll of 8.5 (850 centi-units) matches nothing
    // in the Large, Medium, Small scan and falls through to Small
    assert_eq!(select_tier(850), EnemyType::Small);
}

#[test]
fn tiny_roll_hits_large_first() {
    // 0.05 scaled to centi-units: the scan order puts Large first and
    // 0.05 is within its weight of 0.1, so it matches immediately
    assert_eq!(select_tier(5), EnemyType::Large);
}

#[test]
fn scan_walks_large_then_medium_then_small() {
    // the linear scan in the fixed order Large (0.1), Medium (0.4),
    // Small (8.0): the first candidate whose own weight covers the roll
    // wins, which is not a proportional inverse-CDF walk
    assert_eq!(select_tier(0), EnemyType::Large);
    assert_eq!(select_tier(10), EnemyType::Large);
    assert_eq!(select_tier(11), EnemyType::Medium);
    assert_eq!(select_tier(40), EnemyType::Medium);
    assert_eq!(select_tier(41), EnemyType::Small);
    assert_eq!(select_tier(800), EnemyType::Small);
    assert_eq!(select_tier(849), EnemyType::Small);
}

#[test]
fn powerup_drops_follow_the_tier() {
    assert_eq!(powerup_for_tier(EnemyType::Small), None);
    assert_eq!(powerup_for_tier(EnemyType::Medium), Some(PowerupType::Speed));
    assert_eq!(powerup_for_tier(EnemyType::Large), Some(PowerupType::FireRate));
}

#[test]
fn multiplier_table() {
    assert_eq!(powerup_multiplier(PowerupType::FireRate), 1500);
    assert_eq!(powerup_multiplier(PowerupType::Speed), 1200);
}
