use space_shooter::anim::PlayerState;
use space_shooter::components::MovementInput;
use space_shooter::game::new_world;
use space_shooter::geom::Viewport;
use space_shooter::player::{
    apply_player_movement, confine_player_movement, update_player_animation, update_player_state,
};

fn vp() -> Viewport {
    Viewport { width: 640000, height: 360000 }
}

#[test]
fn moving_left_layers_a_transition_then_sheds_it() {
    let mut w = new_world();
    w.input = MovementInput { dx: -1, dy: 0 };
    update_player_state(&mut w);
    assert!(matches!(w.player_state, PlayerState::MovingLeft));
    // exactly two frame ranges: the steady loop under the transition
    assert_eq!(w.anim_stack.frames.len(), 2);
    // the two-frame transition range needs four frame ticks for two full
    // play-through cycles; until then the transition stays on the stack
    for _ in 0..3 {
        update_player_animation(&mut w, 84);
    }
    assert_eq!(w.anim_stack.frames.len(), 2);
    // the fourth tick completes the second full cycle: only the steady
    // loop remains
    update_player_animation(&mut w, 84);
    assert_eq!(w.anim_stack.frames.len(), 1);
    assert_eq!(w.anim_stack.frames[0], (4, 5));
    // the steady loop never pops below one entry
    for _ in 0..20 {
        update_player_animation(&mut w, 84);
    }
    assert_eq!(w.anim_stack.frames.len(), 1);
}

#[test]
fn player_frame_follows_the_top_range() {
    let mut w = new_world();
    w.input = MovementInput { dx: 1, dy: 0 };
    update_player_state(&mut w);
    // the transition range (6, 7) plays first
    update_player_animation(&mut w, 84);
    let p = w.player.unwrap();
    let o = w.reg.get(p).unwrap();
    assert!(o.frame == 6 || o.frame == 7);
    assert_eq!(o.anim.first_sprite_index, 6);
    assert_eq!(o.anim.last_sprite_index, 7);
}

#[test]
fn input_moves_the_player() {
    let mut w = new_world();
    w.input = MovementInput { dx: 1, dy: 0 };
    // 200 px/s at base stats for 100 ms: 20 px to the right
    apply_player_movement(&mut w, 100);
    let p = w.player.unwrap();
    assert_eq!(w.reg.get(p).unwrap().pos.x, 20000);
    w.input = MovementInput { dx: 0, dy: -1 };
    apply_player_movement(&mut w, 100);
    assert_eq!(w.reg.get(p).unwrap().pos.y, -20000);
    assert_eq!(w.reg.get(p).unwrap().pos.x, 20000);
}

#[test]
fn diagonal_motion_is_normalized() {
    let mut w = new_world();
    w.input = MovementInput { dx: 1, dy: 1 };
    apply_player_movement(&mut w, 100);
    let p = w.player.unwrap();
    // 20 px scaled by 707/1000 on each axis
    assert_eq!(w.reg.get(p).unwrap().pos.x, 14100);
    assert_eq!(w.reg.get(p).unwrap().pos.y, 14100);
}

#[test]
fn speed_stat_scales_motion() {
    let mut w = new_world();
    w.stats.speed = 1200;
    w.input = MovementInput { dx: 1, dy: 0 };
    apply_player_movement(&mut w, 100);
    let p = w.player.unwrap();
    // 200 px/s times 1.2 for 100 ms: 24 px
    assert_eq!(w.reg.get(p).unwrap().pos.x, 24000);
}

#[test]
fn confinement_clamps_to_the_viewport_interior() {
    let mut w = new_world();
    let p = w.player.unwrap();
    let mut o = w.reg.get(p).unwrap();
    o.pos.x = 1000000;
    o.pos.y = -1000000;
    w.reg.set_obj(p.index, o);
    confine_player_movement(&mut w, &vp());
    let o = w.reg.get(p).unwrap();
    // half the viewport minus half the player's bounds (28.8 x 43.2 px)
    assert_eq!(o.pos.x, 320000 - 14400);
    assert_eq!(o.pos.y, -(180000 - 21600));
}

#[test]
fn confinement_leaves_an_oversized_player_alone() {
    let mut w = new_world();
    let p = w.player.unwrap();
    let mut o = w.reg.get(p).unwrap();
    o.pos.x = 50000;
    w.reg.set_obj(p.index, o);
    // a window narrower than the player cannot confine it
    let tiny = Viewport { width: 20000, height: 360000 };
    confine_player_movement(&mut w, &tiny);
    assert_eq!(w.reg.get(p).unwrap().pos.x, 50000);
}
