//! Drones: targets that fly a scripted path.
//!
//! A drone flies by the kinematic model with its controls held: no stick, the
//! rudder half way over, and a constant speed. Its path is a level circle.

use vstd::prelude::*;
use crate::player::{carried, carry, turn_angle, turn_deltas_of, Turn, TurnDeltas, YAW_SPEED};
use crate::rotation::{Pose, Quat, Transform, Q4};

verus! {

/// The speed of a drone.
pub const DRONE_SPEED: i64 = 90_000_000;

/// Where a drone holds its rudder.
pub const DRONE_RUDDER: i64 = 500_000;

/// A target that flies a scripted path.
#[derive(Clone, Copy, Debug, PartialEq, Eq, Structural)]
pub struct Drone {
    pub transform: Transform,
}

/// The angles by which a drone turns in one frame.
pub open spec fn drone_turn_of(dt: int) -> Turn {
    Turn { yaw: turn_angle(DRONE_RUDDER as int, YAW_SPEED as int, dt), pitch: 0, roll: 0 }
}

/// A drone after one frame: turned by `turn` in its own frame and carried
/// along its new nose at the speed of a drone.
pub open spec fn patrolled(pose: Pose, turn: Q4, dt: int) -> Pose {
    carried(pose, pose.rotation.compose(turn), DRONE_SPEED as int, dt)
}

/// The angles by which every drone turns in this frame.
pub fn drone_turn(dt: u32) -> (r: TurnDeltas)
    ensures
        r@ == drone_turn_of(dt as int),
{
    let deltas = turn_deltas_of(0, 0, DRONE_RUDDER, dt);
    TurnDeltas { yaw: deltas.yaw, pitch: 0, roll: 0 }
}

/// One frame of every drone: each is turned by `turn` in its own frame and
/// carried along its new nose. A step that would leave the world is not made.
///
/// `turn` is the rotation that the angles of `drone_turn` stand for.
pub fn drone_movement(drones: &mut Vec<Drone>, turn: &Quat, dt: u32)
    requires
        forall|i: int| 0 <= i < old(drones).len() ==> (#[trigger] old(drones)[i]).transform.wf(),
        turn@.is_rotation(),
    ensures
        final(drones).len() == old(drones).len(),
        forall|i: int|
            0 <= i < old(drones).len() ==> (#[trigger] final(drones)[i]).transform@ == patrolled(
                old(drones)[i].transform@,
                turn@,
                dt as int,
            ),
        forall|i: int|
            0 <= i < final(drones).len() ==> (#[trigger] final(drones)[i]).transform.wf(),
{
    let mut i: usize = 0;
    while i < drones.len()
        invariant
            0 <= i <= drones.len(),
            drones.len() == old(drones).len(),
            turn@.is_rotation(),
            forall|k: int|
                0 <= k < i ==> (#[trigger] drones[k]).transform@ == patrolled(
                    old(drones)[k].transform@,
                    turn@,
                    dt as int,
                ),
            forall|k: int| i <= k < drones.len() ==> (#[trigger] drones[k]) == old(drones)[k],
            forall|k: int| 0 <= k < drones.len() ==> (#[trigger] drones[k]).transform.wf(),
        decreases drones.len() - i,
    {
        let drone = drones[i];
        let rotation = drone.transform.rotation.compose(turn);
        let transform = carry(&drone.transform, rotation, DRONE_SPEED, dt);
        drones.set(i, Drone { transform });
        i = i + 1;
    }
}

} // verus!
