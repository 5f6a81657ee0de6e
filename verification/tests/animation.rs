use space_shooter::anim::{
    update_animation, update_animation_stack, update_one_shot_animation, update_player_state,
    AnimationConfig, AnimationStack, PlayerState, PrevPlayerState,
};
use space_shooter::components::Shoot;

#[test]
fn timer_from_fps_is_the_frame_length() {
    assert_eq!(AnimationConfig::timer_from_fps(12), 83);
    assert_eq!(AnimationConfig::timer_from_fps(1), 1000);
    assert_eq!(AnimationConfig::timer_from_fps(250), 4);
}

#[test]
fn looping_animation_wraps_from_last_to_first() {
    let mut c = AnimationConfig::new(2, 3, 12);
    let mut frame = 2usize;
    // not enough time: nothing advances
    assert!(!update_animation(&mut c, &mut frame, 10));
    assert_eq!(frame, 2);
    assert_eq!(c.frame_timer_ms, 73);
    // the rest of the frame time: advance to the last frame
    assert!(update_animation(&mut c, &mut frame, 73));
    assert_eq!(frame, 3);
    // and wrap back to the first
    assert!(update_animation(&mut c, &mut frame, 100));
    assert_eq!(frame, 2);
}

#[test]
fn one_shot_animation_reports_the_end() {
    let mut c = AnimationConfig::new(0, 1, 12);
    let mut frame = 0usize;
    assert!(!update_one_shot_animation(&mut c, &mut frame, 100));
    assert_eq!(frame, 1);
    // finishing on the last frame reports the animation as over
    assert!(update_one_shot_animation(&mut c, &mut frame, 100));
}

#[test]
fn state_machine_follows_input_sign() {
    let mut state = PlayerState::Idle;
    let mut prev = PrevPlayerState(PlayerState::Idle);
    assert!(update_player_state(-1, &mut state, &mut prev));
    assert!(matches!(state, PlayerState::MovingLeft));
    assert!(matches!(prev.0, PlayerState::Idle));
    // the same input again is a suppressed self-transition
    assert!(!update_player_state(-1, &mut state, &mut prev));
    assert!(matches!(prev.0, PlayerState::Idle));
    assert!(update_player_state(1, &mut state, &mut prev));
    assert!(matches!(state, PlayerState::MovingRight));
    assert!(matches!(prev.0, PlayerState::MovingLeft));
    assert!(update_player_state(0, &mut state, &mut prev));
    assert!(matches!(state, PlayerState::Idle));
    assert!(matches!(prev.0, PlayerState::MovingRight));
}

#[test]
fn moving_left_builds_a_two_entry_stack() {
    let mut stack = AnimationStack { frames: vec![(0, 1)], cycles: 1 };
    update_animation_stack(
        PlayerState::MovingLeft,
        PrevPlayerState(PlayerState::Idle),
        &mut stack,
    );
    // steady range first, the transition range on top (it plays first)
    assert_eq!(stack.frames, vec![(4, 5), (2, 3)]);
    assert_eq!(stack.cycles, 0);
}

#[test]
fn returning_to_idle_replays_the_matching_transition() {
    let mut stack = AnimationStack { frames: vec![(4, 5), (2, 3)], cycles: 0 };
    update_animation_stack(
        PlayerState::Idle,
        PrevPlayerState(PlayerState::MovingLeft),
        &mut stack,
    );
    assert_eq!(stack.frames, vec![(0, 1), (2, 3)]);
    update_animation_stack(
        PlayerState::Idle,
        PrevPlayerState(PlayerState::MovingRight),
        &mut stack,
    );
    assert_eq!(stack.frames, vec![(0, 1), (6, 7)]);
    update_animation_stack(PlayerState::Idle, PrevPlayerState(PlayerState::Idle), &mut stack);
    assert_eq!(stack.frames, vec![(0, 1)]);
}

#[test]
fn shoot_cooldown_divides_by_the_fire_rate() {
    let shoot = Shoot::new(400);
    assert!(!shoot.is_shooting);
    assert_eq!(shoot.timer_ms, 400);
    // base rate leaves the cooldown alone
    assert_eq!(shoot.get_adjusted_cooldown(1000), 400);
    // a 1.5x fire rate shortens it: 400 * 1000 / 1500
    assert_eq!(shoot.get_adjusted_cooldown(1500), 266);
    // 2.25x after two pickups
    assert_eq!(shoot.get_adjusted_cooldown(2250), 177);
}
