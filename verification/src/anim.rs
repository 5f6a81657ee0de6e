//! Sprite animation: frame-range configs with a countdown frame timer, the
//! player movement state machine, and the layered animation stack that plays
//! a one-shot transition range before falling back to the steady loop.
//!
//! Timers count milliseconds down to zero; a timer "finishes" on the tick
//! that takes it to zero.

use vstd::prelude::*;

verus! {

/// A frame-range animation: sprite indices `first..=last` at a fixed frame
/// rate, with the remaining display time of the current frame.
#[derive(Clone, Copy, Debug, PartialEq, Eq, Structural)]
pub struct AnimationConfig {
    pub first_sprite_index: usize,
    pub last_sprite_index: usize,
    /// Frames per second; always positive.
    pub fps: u8,
    /// Milliseconds until the current frame has been shown long enough.
    pub frame_timer_ms: u32,
}

/// The display time of one frame at `fps` frames per second, milliseconds.
pub open spec fn spec_timer_from_fps(fps: u8) -> u32
    recommends
        fps > 0,
{
    (1000 as u32 / fps as u32) as u32
}

/// A countdown by `dt`, stopping at zero.
pub open spec fn spec_count_down(t: u32, dt: u32) -> u32 {
    if dt >= t {
        0
    } else {
        (t - dt) as u32
    }
}

/// Whether a countdown from `t` by `dt` finishes on this very tick.
pub open spec fn spec_just_finished(t: u32, dt: u32) -> bool {
    t > 0 && dt >= t
}

impl AnimationConfig {
    pub open spec fn wf(self) -> bool {
        self.fps > 0
    }

    pub fn new(first: usize, last: usize, fps: u8) -> (c: AnimationConfig)
        requires
            fps > 0,
        ensures
            c == (AnimationConfig {
                first_sprite_index: first,
                last_sprite_index: last,
                fps,
                frame_timer_ms: spec_timer_from_fps(fps),
            }),
            c.wf(),
    {
        AnimationConfig {
            first_sprite_index: first,
            last_sprite_index: last,
            fps,
            frame_timer_ms: Self::timer_from_fps(fps),
        }
    }

    pub fn timer_from_fps(fps: u8) -> (t: u32)
        requires
            fps > 0,
        ensures
            t == spec_timer_from_fps(fps),
    {
        1000u32 / (fps as u32)
    }
}

/// What one animation tick does to a config and the current frame index,
/// in loop mode: when the frame timer finishes, the index advances and wraps
/// from `last` back to `first`, and the timer refills.
pub open spec fn spec_anim_ticked(c: AnimationConfig, frame: usize, dt: u32) -> (
    AnimationConfig,
    usize,
) {
    if spec_just_finished(c.frame_timer_ms, dt) {
        (
            AnimationConfig { frame_timer_ms: spec_timer_from_fps(c.fps), ..c },
            if frame >= c.last_sprite_index {
                c.first_sprite_index
            } else {
                (frame + 1) as usize
            },
        )
    } else {
        (AnimationConfig { frame_timer_ms: spec_count_down(c.frame_timer_ms, dt), ..c }, frame)
    }
}

/// Advance a looping animation by `dt` milliseconds.
pub fn update_animation(c: &mut AnimationConfig, frame: &mut usize, dt: u32) -> (finished: bool)
    requires
        old(c).wf(),
    ensures
        final(c).wf(),
        finished == spec_just_finished(old(c).frame_timer_ms, dt),
        (*final(c), *final(frame)) == spec_anim_ticked(*old(c), *old(frame), dt),
{
    let finished = c.frame_timer_ms > 0 && dt >= c.frame_timer_ms;
    if finished {
        if *frame >= c.last_sprite_index {
            *frame = c.first_sprite_index;
        } else {
            *frame = *frame + 1;
        }
        c.frame_timer_ms = AnimationConfig::timer_from_fps(c.fps);
    } else {
        c.frame_timer_ms = if dt >= c.frame_timer_ms {
            0
        } else {
            c.frame_timer_ms - dt
        };
    }
    finished
}

/// Advance a one-shot animation by `dt` milliseconds. When the timer
/// finishes on the last frame the animation is over and the caller despawns
/// the object; otherwise the frame advances as in loop mode.
pub fn update_one_shot_animation(c: &mut AnimationConfig, frame: &mut usize, dt: u32) -> (over:
    bool)
    requires
        old(c).wf(),
    ensures
        final(c).wf(),
        over == (spec_just_finished(old(c).frame_timer_ms, dt) && old(frame)
            >= old(c).last_sprite_index),
        !over ==> (*final(c), *final(frame)) == spec_anim_ticked(*old(c), *old(frame), dt),
{
    let finished = c.frame_timer_ms > 0 && dt >= c.frame_timer_ms;
    if finished {
        if *frame >= c.last_sprite_index {
            return true;
        }
        *frame = *frame + 1;
        c.frame_timer_ms = AnimationConfig::timer_from_fps(c.fps);
    } else {
        c.frame_timer_ms = if dt >= c.frame_timer_ms {
            0
        } else {
            c.frame_timer_ms - dt
        };
    }
    false
}

/// The player's horizontal movement state.
#[derive(Clone, Copy, Debug, PartialEq, Eq, Structural)]
pub enum PlayerState {
    Idle,
    MovingLeft,
    MovingRight,
}

/// The state the player was in before the most recent actual transition.
#[derive(Clone, Copy, Debug, PartialEq, Eq, Structural)]
pub struct PrevPlayerState(pub PlayerState);

/// The state the horizontal input sign asks for.
pub open spec fn spec_state_for_input(dx: i32) -> PlayerState {
    if dx < 0 {
        PlayerState::MovingLeft
    } else if dx > 0 {
        PlayerState::MovingRight
    } else {
        PlayerState::Idle
    }
}

/// Drive the state machine by one tick of horizontal input. A transition
/// happens only when the requested state differs from the current one; the
/// current state is then remembered as the previous state.
pub fn update_player_state(dx: i32, state: &mut PlayerState, prev: &mut PrevPlayerState) -> (
    changed: bool)
    ensures
        changed == (spec_state_for_input(dx) != *old(state)),
        *final(state) == spec_state_for_input(dx),
        changed ==> *final(prev) == PrevPlayerState(*old(state)),
        !changed ==> *final(prev) == *old(prev),
{
    let target = if dx < 0 {
        PlayerState::MovingLeft
    } else if dx > 0 {
        PlayerState::MovingRight
    } else {
        PlayerState::Idle
    };
    if target != *state {
        *prev = PrevPlayerState(*state);
        *state = target;
        true
    } else {
        false
    }
}

/// The ordered list of frame ranges the player cycles through, the playing
/// entry last, plus the count of completed play-through cycles of that
/// entry.
pub struct AnimationStack {
    pub frames: Vec<(usize, usize)>,
    pub cycles: u8,
}

/// Steady-state frame range of a player state.
pub open spec fn spec_steady_frames(s: PlayerState) -> (usize, usize) {
    match s {
        PlayerState::Idle => (0usize, 1usize),
        PlayerState::MovingLeft => (4usize, 5usize),
        PlayerState::MovingRight => (8usize, 9usize),
    }
}

/// Transition frame range keyed off the state being left.
pub open spec fn spec_transition_frames(prev: PlayerState) -> (usize, usize) {
    match prev {
        PlayerState::Idle => (0usize, 1usize),
        PlayerState::MovingLeft => (2usize, 3usize),
        PlayerState::MovingRight => (6usize, 7usize),
    }
}

/// The frame ranges set on an actual state transition: the target steady
/// range first, then the transition range of the state being left, which
/// plays first. Entering Idle from Idle has no transition to show.
pub open spec fn spec_stack_frames(state: PlayerState, prev: PlayerState) -> Seq<(usize, usize)> {
    match state {
        PlayerState::Idle => {
            if prev == PlayerState::Idle {
                seq![(0usize, 1usize)]
            } else {
                seq![(0usize, 1usize), spec_transition_frames(prev)]
            }
        },
        PlayerState::MovingLeft => seq![(4usize, 5usize), (2usize, 3usize)],
        PlayerState::MovingRight => seq![(8usize, 9usize), (6usize, 7usize)],
    }
}

/// Rebuild the animation stack after a state transition and restart the
/// cycle counter.
pub fn update_animation_stack(
    state: PlayerState,
    prev: PrevPlayerState,
    stack: &mut AnimationStack,
)
    ensures
        final(stack).frames@ == spec_stack_frames(state, prev.0),
        final(stack).cycles == 0,
        final(stack).frames@.len() >= 1,
{
    let frames: Vec<(usize, usize)> = match state {
        PlayerState::Idle => {
            match prev.0 {
                PlayerState::Idle => vec![(0usize, 1usize)],
                PlayerState::MovingLeft => vec![(0usize, 1usize), (2usize, 3usize)],
                PlayerState::MovingRight => vec![(0usize, 1usize), (6usize, 7usize)],
            }
        },
        PlayerState::MovingLeft => vec![(4usize, 5usize), (2usize, 3usize)],
        PlayerState::MovingRight => vec![(8usize, 9usize), (6usize, 7usize)],
    };
    stack.frames = frames;
    stack.cycles = 0;
    assert(stack.frames@ =~= spec_stack_frames(state, prev.0));
}

/// What one tick does to the player's layered animation: the new config,
/// frame index, stack contents and cycle counter.
///
/// The last entry of the stack plays. When the displayed range is not the
/// top entry (the stack was just rebuilt), the config is retargeted and the
/// frame restarts at the range's first index. A play-through cycle
/// completes each time the frame wraps from the range's last index back to
/// its first; after exactly two such full cycles the top entry is popped,
/// unless it is the last remaining one, which loops forever.
pub open spec fn spec_player_anim_step(
    c: AnimationConfig,
    frame: usize,
    frames: Seq<(usize, usize)>,
    cycles: u8,
    dt: u32,
) -> (AnimationConfig, usize, Seq<(usize, usize)>, u8)
    recommends
        frames.len() >= 1,
{
    let top = frames.last();
    let retarget = c.first_sprite_index != top.0 || c.last_sprite_index != top.1;
    let t0 = if retarget {
        spec_timer_from_fps(c.fps)
    } else {
        c.frame_timer_ms
    };
    let f0 = if retarget {
        top.0
    } else {
        frame
    };
    let mid = AnimationConfig {
        first_sprite_index: top.0,
        last_sprite_index: top.1,
        fps: c.fps,
        frame_timer_ms: t0,
    };
    let ticked = spec_anim_ticked(mid, f0, dt);
    let wrapped = spec_just_finished(t0, dt) && f0 >= top.1;
    if wrapped {
        if cycles >= 1 {
            (
                ticked.0,
                ticked.1,
                if frames.len() > 1 {
                    frames.drop_last()
                } else {
                    frames
                },
                0u8,
            )
        } else {
            (ticked.0, ticked.1, frames, (cycles + 1) as u8)
        }
    } else {
        (ticked.0, ticked.1, frames, cycles)
    }
}

/// Advance the player's layered animation by `dt` milliseconds.
pub fn update_player_animation(
    c: &mut AnimationConfig,
    frame: &mut usize,
    stack: &mut AnimationStack,
    dt: u32,
)
    requires
        old(c).wf(),
        old(stack).frames@.len() >= 1,
    ensures
        final(c).wf(),
        final(stack).frames@.len() >= 1,
        (*final(c), *final(frame), final(stack).frames@, final(stack).cycles)
            == spec_player_anim_step(
            *old(c),
            *old(frame),
            old(stack).frames@,
            old(stack).cycles,
            dt,
        ),
{
    let top_index = stack.frames.len() - 1;
    let top = stack.frames[top_index];

    // Retarget on a stack change: restart the timer and jump to the range's
    // first frame.
    if c.first_sprite_index != top.0 || c.last_sprite_index != top.1 {
        c.frame_timer_ms = AnimationConfig::timer_from_fps(c.fps);
        *frame = top.0;
        c.first_sprite_index = top.0;
        c.last_sprite_index = top.1;
    }

    let finished = c.frame_timer_ms > 0 && dt >= c.frame_timer_ms;
    if finished {
        let wrapped = *frame >= c.last_sprite_index;
        if wrapped {
            *frame = c.first_sprite_index;
        } else {
            *frame = *frame + 1;
        }
        c.frame_timer_ms = AnimationConfig::timer_from_fps(c.fps);
        // a wrap from the last frame back to the first completes one full
        // play-through cycle; the second completed cycle pops the entry
        if wrapped {
            if stack.cycles >= 1 {
                stack.cycles = 0;
                if stack.frames.len() > 1 {
                    let _ = stack.frames.pop();
                }
            } else {
                stack.cycles = stack.cycles + 1;
            }
        }
    } else {
        c.frame_timer_ms = if dt >= c.frame_timer_ms {
            0
        } else {
            c.frame_timer_ms - dt
        };
    }
}

} // verus!
