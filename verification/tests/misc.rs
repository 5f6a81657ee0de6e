use space_shooter::components::{apply_mult, PlayerStats};
use space_shooter::scoreboard::{reset_score, Score};
use space_shooter::settings::Settings;
use space_shooter::theme::Palette;
use space_shooter::throttler::Throttler;

#[test]
fn stats_start_at_base_and_reset_there() {
    let mut stats = PlayerStats::default();
    assert_eq!(stats.fire_rate, 1000);
    assert_eq!(stats.speed, 1000);
    stats.fire_rate = 2250;
    stats.speed = 1440;
    stats.reset();
    assert_eq!(stats.fire_rate, 1000);
    assert_eq!(stats.speed, 1000);
}

#[test]
fn per_mille_multiplication_rounds_down() {
    assert_eq!(apply_mult(1000, 1500), 1500);
    assert_eq!(apply_mult(1500, 1500), 2250);
    assert_eq!(apply_mult(1000, 1200), 1200);
    assert_eq!(apply_mult(1200, 1200), 1440);
    assert_eq!(apply_mult(1111, 1500), 1666);
}

#[test]
fn score_resets_to_zero() {
    let mut score = Score(417);
    reset_score(&mut score);
    assert_eq!(score.0, 0);
}

#[test]
fn volumes_start_at_half_and_clamp() {
    let mut s = Settings::new();
    assert_eq!(s.music_volume, 500);
    assert_eq!(s.effect_volume, 500);
    s.set_music_volume(1500);
    assert_eq!(s.music_volume, 1000);
    s.set_effect_volume(250);
    assert_eq!(s.effect_volume, 250);
    assert_eq!(s.music_volume, 1000);
}

#[test]
fn throttler_fires_once_per_interval() {
    let mut t = Throttler::new(200);
    assert!(!t.run_action());
    t.update(150);
    assert!(!t.run_action());
    t.update(60);
    // 210 ms accumulated: the action fires and the accumulation restarts
    assert!(t.run_action());
    assert!(!t.run_action());
    t.update(200);
    assert!(t.run_action());
}

#[test]
fn palette_colors() {
    let c = Palette::text_primary();
    assert_eq!((c.r, c.g, c.b), (900, 900, 900));
    let c = Palette::text_game_over();
    assert_eq!((c.r, c.g, c.b), (1000, 0, 0));
    let c = Palette::text_paused();
    assert_eq!((c.r, c.g, c.b), (600, 600, 600));
}
