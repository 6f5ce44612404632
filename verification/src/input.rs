//! The control state of one frame, and how devices fill it.

use vstd::prelude::*;
use crate::fixed::ONE;
use crate::vector::Vec2;

verus! {

/// The least deflection of a trigger or of the left stick that counts.
pub const STEERING_DEADZONE: i64 = 10_000;

/// The least deflection of the right stick that counts.
pub const CAMERA_DEADZONE: i64 = 100_000;

/// The control state of one frame.
#[derive(Clone, Copy, Debug, PartialEq, Eq, Structural)]
pub struct PlayerInput {
    /// The steering stick: `x` and `y` in `-ONE ..= ONE`.
    pub axis: Vec2,
    /// The throttle, in `0 ..= ONE`.
    pub accel: i64,
    /// The brake, in `0 ..= ONE`.
    pub brake: i64,
    /// The rudder, in `-ONE ..= ONE`.
    pub yaw: i64,
    /// The stick that looks around: `x` and `y` in `-ONE ..= ONE`.
    pub camera_axis: Vec2,
}

impl PlayerInput {
    /// Every reading lies in its range.
    pub open spec fn wf(&self) -> bool {
        &&& self.axis@.within(ONE as int)
        &&& 0 <= self.accel <= ONE
        &&& 0 <= self.brake <= ONE
        &&& -ONE <= self.yaw <= ONE
        &&& self.camera_axis@.within(ONE as int)
    }

    /// The state in which nothing is touched.
    pub open spec fn idle() -> PlayerInput {
        PlayerInput {
            axis: Vec2 { x: 0, y: 0 },
            accel: 0,
            brake: 0,
            yaw: 0,
            camera_axis: Vec2 { x: 0, y: 0 },
        }
    }

    /// Whether every reading lies in its range.
    pub fn is_valid(&self) -> (r: bool)
        ensures
            r == self.wf(),
    {
        -ONE <= self.axis.x && self.axis.x <= ONE && -ONE <= self.axis.y && self.axis.y <= ONE && 0
            <= self.accel && self.accel <= ONE && 0 <= self.brake && self.brake <= ONE && -ONE
            <= self.yaw && self.yaw <= ONE && -ONE <= self.camera_axis.x && self.camera_axis.x
            <= ONE && -ONE <= self.camera_axis.y && self.camera_axis.y <= ONE
    }
}

impl Default for PlayerInput {
    /// The state in which nothing is touched.
    fn default() -> (r: PlayerInput)
        ensures
            r == PlayerInput::idle(),
            r.wf(),
    {
        PlayerInput {
            axis: Vec2 { x: 0, y: 0 },
            accel: 0,
            brake: 0,
            yaw: 0,
            camera_axis: Vec2 { x: 0, y: 0 },
        }
    }
}

/// What one gamepad reads in one frame.
#[derive(Clone, Copy, Debug, PartialEq, Eq, Structural)]
pub struct GamepadState {
    /// The lower right trigger, in `0 ..= ONE`: the throttle.
    pub right_trigger2: i64,
    /// The lower left trigger, in `0 ..= ONE`: the brake.
    pub left_trigger2: i64,
    /// The upper left trigger, in `0 ..= ONE`: rudder one way.
    pub left_trigger: i64,
    /// The upper right trigger, in `0 ..= ONE`: rudder the other way.
    pub right_trigger: i64,
    /// The left stick, each axis in `-ONE ..= ONE`.
    pub left_stick: Vec2,
    /// The right stick, each axis in `-ONE ..= ONE`.
    pub right_stick: Vec2,
}

impl GamepadState {
    /// Every reading lies in its range.
    pub open spec fn wf(&self) -> bool {
        &&& 0 <= self.right_trigger2 <= ONE
        &&& 0 <= self.left_trigger2 <= ONE
        &&& 0 <= self.left_trigger <= ONE
        &&& 0 <= self.right_trigger <= ONE
        &&& self.left_stick@.within(ONE as int)
        &&& self.right_stick@.within(ONE as int)
    }

    /// Whether every reading lies in its range.
    pub fn is_valid(&self) -> (r: bool)
        ensures
            r == self.wf(),
    {
        0 <= self.right_trigger2 && self.right_trigger2 <= ONE && 0 <= self.left_trigger2
            && self.left_trigger2 <= ONE && 0 <= self.left_trigger && self.left_trigger <= ONE && 0
            <= self.right_trigger && self.right_trigger <= ONE && -ONE <= self.left_stick.x
            && self.left_stick.x <= ONE && -ONE <= self.left_stick.y && self.left_stick.y <= ONE
            && -ONE <= self.right_stick.x && self.right_stick.x <= ONE && -ONE
            <= self.right_stick.y && self.right_stick.y <= ONE
    }
}

/// The keys that steer the craft where no gamepad is connected.
#[derive(Clone, Copy, Debug, PartialEq, Eq, Structural)]
pub struct KeyboardState {
    pub left: bool,
    pub right: bool,
    pub up: bool,
    pub down: bool,
    pub space: bool,
    pub left_shift: bool,
}

/// A trigger's reading, or nothing where it rests within the dead zone.
pub open spec fn past_deadzone(value: i64, deadzone: i64) -> i64 {
    if value > deadzone || value < -deadzone {
        value
    } else {
        0
    }
}

/// A stick's reading, or the centre where both axes rest within the dead zone.
pub open spec fn stick_past_deadzone(stick: Vec2, deadzone: i64) -> Vec2 {
    if stick.x > deadzone || stick.x < -deadzone || stick.y > deadzone || stick.y < -deadzone {
        stick
    } else {
        Vec2 { x: 0, y: 0 }
    }
}

/// The control state that one gamepad gives.
pub open spec fn gamepad_snapshot(pad: GamepadState) -> PlayerInput {
    PlayerInput {
        axis: stick_past_deadzone(pad.left_stick, STEERING_DEADZONE),
        accel: past_deadzone(pad.right_trigger2, STEERING_DEADZONE),
        brake: past_deadzone(pad.left_trigger2, STEERING_DEADZONE),
        yaw: (pad.left_trigger - pad.right_trigger) as i64,
        camera_axis: stick_past_deadzone(pad.right_stick, CAMERA_DEADZONE),
    }
}

/// The control state after the keys were read: the keys decide the steering
/// stick, the throttle and the brake, and leave the rest as it was.
pub open spec fn keyboard_snapshot(before: PlayerInput, keys: KeyboardState) -> PlayerInput {
    PlayerInput {
        axis: Vec2 {
            x: ((if keys.right {
                ONE as int
            } else {
                0
            }) - (if keys.left {
                ONE as int
            } else {
                0
            })) as i64,
            y: ((if keys.up {
                ONE as int
            } else {
                0
            }) - (if keys.down {
                ONE as int
            } else {
                0
            })) as i64,
        },
        accel: if keys.space {
            ONE
        } else {
            0
        },
        brake: if keys.left_shift {
            ONE
        } else {
            0
        },
        yaw: before.yaw,
        camera_axis: before.camera_axis,
    }
}

fn read_trigger(value: i64, deadzone: i64) -> (r: i64)
    requires
        0 <= deadzone,
    ensures
        r == past_deadzone(value, deadzone),
{
    if value > deadzone || value < -deadzone {
        value
    } else {
        0
    }
}

fn read_stick(stick: Vec2, deadzone: i64) -> (r: Vec2)
    requires
        0 <= deadzone,
    ensures
        r == stick_past_deadzone(stick, deadzone),
{
    if stick.x > deadzone || stick.x < -deadzone || stick.y > deadzone || stick.y < -deadzone {
        stick
    } else {
        Vec2 { x: 0, y: 0 }
    }
}

/// Fills the control state from the connected gamepads. Each gamepad
/// overwrites what the one before it gave, so the last one decides; with no
/// gamepad the state stays as it was.
pub fn gamepad_system(gamepads: &Vec<GamepadState>, player_input: &mut PlayerInput)
    requires
        forall|i: int| 0 <= i < gamepads.len() ==> (#[trigger] gamepads[i]).wf(),
    ensures
        gamepads.len() == 0 ==> *final(player_input) == *old(player_input),
        gamepads.len() > 0 ==> *final(player_input) == gamepad_snapshot(
            gamepads[gamepads.len() - 1],
        ),
        gamepads.len() > 0 || old(player_input).wf() ==> final(player_input).wf(),
{
    let mut i: usize = 0;
    while i < gamepads.len()
        invariant
            0 <= i <= gamepads.len(),
            forall|k: int| 0 <= k < gamepads.len() ==> (#[trigger] gamepads[k]).wf(),
            i == 0 ==> *player_input == *old(player_input),
            i > 0 ==> *player_input == gamepad_snapshot(gamepads[i - 1]),
            i > 0 ==> player_input.wf(),
        decreases gamepads.len() - i,
    {
        let pad = &gamepads[i];
        assert(pad.wf());
        player_input.accel = read_trigger(pad.right_trigger2, STEERING_DEADZONE);
        player_input.brake = read_trigger(pad.left_trigger2, STEERING_DEADZONE);
        player_input.axis = read_stick(pad.left_stick, STEERING_DEADZONE);
        player_input.camera_axis = read_stick(pad.right_stick, CAMERA_DEADZONE);
        player_input.yaw = pad.left_trigger - pad.right_trigger;
        i = i + 1;
    }
}

/// Fills the control state from the keyboard, where no gamepad is connected;
/// with a gamepad connected the keys are not read.
pub fn player_input(player_input: &mut PlayerInput, keyboard_input: &KeyboardState, gamepads: usize)
    ensures
        gamepads == 0 ==> *final(player_input) == keyboard_snapshot(
            *old(player_input),
            *keyboard_input,
        ),
        gamepads != 0 ==> *final(player_input) == *old(player_input),
        old(player_input).wf() ==> final(player_input).wf(),
{
    if gamepads == 0 {
        let mut axis = Vec2 { x: 0, y: 0 };
        if keyboard_input.left {
            axis.x = axis.x - ONE;
        }
        if keyboard_input.right {
            axis.x = axis.x + ONE;
        }
        if keyboard_input.up {
            axis.y = axis.y + ONE;
        }
        if keyboard_input.down {
            axis.y = axis.y - ONE;
        }
        player_input.axis = axis;
        if keyboard_input.space {
            player_input.accel = ONE;
        } else {
            player_input.accel = 0;
        }
        if keyboard_input.left_shift {
            player_input.brake = ONE;
        } else {
            player_input.brake = 0;
        }
    }
}

} // verus!
