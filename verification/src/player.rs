//! The flight controller.
//!
//! Two flight models turn the control state of a frame into motion. The
//! kinematic model moves the craft itself: it turns the craft, changes its
//! speed and carries it along its nose. The dynamic model leaves the motion to
//! a rigid-body integrator and computes the force, the torque and the damping
//! that the integrator is to apply.

use vstd::prelude::*;
use crate::fixed::{
    clamp, clamp_i128, lemma_isqrt_exists, lemma_mul_within, lemma_trunc_div_exact,
    lemma_trunc_div_within, trunc_div, ONE, ONE_SQ,
};
use crate::input::PlayerInput;
use crate::rotation::{
    lemma_rotate_within, lemma_rotation_within, Pose, Quat, Transform, Q4, WORLD_LIMIT,
};
use crate::unit_length::{
    lemma_square_of_dividend, lemma_turned_axis_is_unit, TURNED_AXIS_MAX, TURNED_AXIS_MIN,
};
use crate::vector::{
    lemma_length_within, lemma_normalized_within, lemma_scaled_within, mul_wide, Vec3, COORD_LIMIT,
    V2, V3,
};

verus! {

/// The rate of roll at full deflection, in radians per second.
pub const ROLL_SPEED: i64 = 20_000_000;

/// The rate of pitch at full deflection, in radians per second.
pub const PITCH_SPEED: i64 = 8_000_000;

/// The rate of yaw at full deflection, in radians per second.
pub const YAW_SPEED: i64 = 2_500_000;

/// The least speed of the craft.
pub const MIN_SPEED: i64 = 0;

/// The greatest speed of the craft.
pub const MAX_SPEED: i64 = 750_000_000;

/// The gain in speed per second at full throttle.
pub const ACCEL: i64 = 100_000_000;

/// The strength of the brake.
pub const BRAKE: i64 = 750_000;

/// The lift constant of the wings, which push along the body's second axis.
pub const LIFT_UP: i64 = 10_000_000;

/// The lift constant of the fin, which pushes along the body's third axis.
pub const LIFT_SIDE: i64 = 15_000_000;

/// The damping of the air on a craft that does not brake.
pub const BASE_DAMPING: i64 = 100_000;

/// The largest component of a velocity that the dynamic model accepts.
pub const VELOCITY_LIMIT: i64 = 100_000_000_000;

/// The greatest mass that the dynamic model accepts.
pub const MASS_LIMIT: i64 = 1_000_000_000_000;

/// The greatest lift constant that the dynamic model accepts.
pub const LIFT_LIMIT: i64 = 1_000_000_000;

/// The largest component of the lift that the dynamic model gives.
pub const LIFT_FORCE_LIMIT: i64 = 200_000_000_000_000_000;

/// The player's craft, with unbounded coordinates.
pub struct Craft {
    pub pose: Pose,
    pub speed: int,
    pub missiles_fired: nat,
    pub target: Option<usize>,
}

/// The player's craft.
#[derive(Clone, Copy, Debug, PartialEq, Eq, Structural)]
pub struct Player {
    /// Where the craft is and how it is turned.
    pub transform: Transform,
    /// The speed along the nose, in `MIN_SPEED ..= MAX_SPEED`.
    pub velocity: i64,
    /// How many missiles the craft has fired.
    pub missiles_fired: u32,
    /// The target that the craft has locked on, as a place in the list of targets.
    pub target: Option<usize>,
}

impl View for Player {
    type V = Craft;

    open spec fn view(&self) -> Craft {
        Craft {
            pose: self.transform@,
            speed: self.velocity as int,
            missiles_fired: self.missiles_fired as nat,
            target: self.target,
        }
    }
}

impl Player {
    /// The craft lies in the world, is turned by an orientation of unit length
    /// and flies at a speed in `MIN_SPEED ..= MAX_SPEED`.
    pub open spec fn wf(&self) -> bool {
        &&& self.transform.wf()
        &&& MIN_SPEED <= self.velocity <= MAX_SPEED
    }

    /// Whether the craft lies in the world, is turned by an orientation of unit
    /// length and flies at a speed in `MIN_SPEED ..= MAX_SPEED`.
    pub fn is_valid(&self) -> (r: bool)
        ensures
            r == self.wf(),
    {
        self.transform.is_valid() && MIN_SPEED <= self.velocity && self.velocity <= MAX_SPEED
    }
}

impl Default for Player {
    /// The craft at rest at the origin, with no missile fired and no target.
    fn default() -> (r: Player)
        ensures
            r.wf(),
            r.transform.translation@ == V3::zero(),
            r.transform.rotation@ == Q4::identity(),
            r.velocity == MIN_SPEED,
            r.missiles_fired == 0,
            r.target.is_none(),
    {
        Player {
            transform: Transform::from_translation(Vec3::zero()),
            velocity: MIN_SPEED,
            missiles_fired: 0,
            target: None,
        }
    }
}

/// The angles by which a craft turns in one frame, in millionths of a radian.
pub struct Turn {
    pub yaw: int,
    pub pitch: int,
    pub roll: int,
}

/// The angles by which a craft turns in one frame, in millionths of a radian.
#[derive(Clone, Copy, Debug, PartialEq, Eq, Structural)]
pub struct TurnDeltas {
    pub yaw: i64,
    pub pitch: i64,
    pub roll: i64,
}

impl View for TurnDeltas {
    type V = Turn;

    open spec fn view(&self) -> Turn {
        Turn { yaw: self.yaw as int, pitch: self.pitch as int, roll: self.roll as int }
    }
}

/// The angle turned in `dt` millionths of a second at the deflection `axis`
/// of a control whose full deflection turns at `rate`.
pub open spec fn turn_angle(axis: int, rate: int, dt: int) -> int {
    trunc_div(axis * dt * rate, ONE_SQ as int)
}

/// The angles by which the stick and the rudder turn a craft in one frame:
/// the stick's first axis pitches it, the second rolls it the other way, the
/// rudder yaws it.
pub open spec fn turn_of(axis: V2, yaw: int, dt: int) -> Turn {
    Turn {
        yaw: turn_angle(yaw, YAW_SPEED as int, dt),
        pitch: turn_angle(axis.x, PITCH_SPEED as int, dt),
        roll: turn_angle(-axis.y, ROLL_SPEED as int, dt),
    }
}

/// The craft does not turn.
pub open spec fn no_turn(t: Turn) -> bool {
    t.yaw == 0 && t.pitch == 0 && t.roll == 0
}

/// The speed after one frame of throttle and brake.
pub open spec fn throttled(speed: int, accel: int, brake: int, dt: int) -> int {
    clamp(
        speed + trunc_div((accel * ACCEL - brake * BRAKE) * dt, ONE_SQ as int),
        MIN_SPEED as int,
        MAX_SPEED as int,
    )
}

/// The nose of a craft: the body's first axis, turned as the craft is turned.
pub open spec fn nose(rotation: Q4) -> V3 {
    rotation.rotate(V3::unit_x())
}

/// The place reached from `from` by the step `by`: the sum of the two, or
/// `from` itself where the sum lies outside the world.
pub open spec fn moved_within_world(from: V3, by: V3) -> V3 {
    if from.plus(by).within(WORLD_LIMIT as int) {
        from.plus(by)
    } else {
        from
    }
}

/// A pose turned to `rotation` and carried along the new nose for `dt`
/// millionths of a second at `speed`.
pub open spec fn carried(pose: Pose, rotation: Q4, speed: int, dt: int) -> Pose {
    Pose {
        translation: moved_within_world(pose.translation, nose(rotation).travel(speed, dt)),
        rotation,
    }
}

/// The orientation of a craft after one frame: turned by `turn` in its own
/// frame, or left as it was where the controls ask for no turn.
pub open spec fn turned(rotation: Q4, deltas: Turn, turn: Q4) -> Q4 {
    if no_turn(deltas) {
        rotation
    } else {
        rotation.compose(turn)
    }
}

/// The craft after one frame of the kinematic model. `turn` is the rotation
/// that the angles `turn_of(input.axis, input.yaw, dt)` stand for.
pub open spec fn flown(c: Craft, input: PlayerInput, turn: Q4, dt: int) -> Craft {
    let speed = throttled(c.speed, input.accel as int, input.brake as int, dt);
    let rotation = turned(c.pose.rotation, turn_of(input.axis@, input.yaw as int, dt), turn);
    Craft { pose: carried(c.pose, rotation, speed, dt), speed, ..c }
}

/// One frame of flight: what the player did and how long the frame lasted.
pub struct Frame {
    pub input: PlayerInput,
    pub turn: Q4,
    pub dt: int,
}

/// The craft after a sequence of frames of the kinematic model.
pub open spec fn flown_through(c: Craft, frames: Seq<Frame>) -> Craft
    decreases frames.len(),
{
    if frames.len() == 0 {
        c
    } else {
        let f = frames.last();
        flown(flown_through(c, frames.drop_last()), f.input, f.turn, f.dt)
    }
}

/// The craft after `n` frames of `dt` millionths of a second each in which no
/// control is touched.
pub open spec fn coasted(c: Craft, dt: int, n: nat) -> Craft
    decreases n,
{
    if n == 0 {
        c
    } else {
        flown(coasted(c, dt, (n - 1) as nat), PlayerInput::idle(), Q4::identity(), dt)
    }
}

/// Whatever the player does and however long the frames last, the speed of
/// the craft stays in `MIN_SPEED ..= MAX_SPEED`.
pub proof fn lemma_speed_stays_clamped(c: Craft, frames: Seq<Frame>)
    requires
        MIN_SPEED <= c.speed <= MAX_SPEED,
    ensures
        MIN_SPEED <= flown_through(c, frames).speed <= MAX_SPEED,
    decreases frames.len(),
{
    if frames.len() > 0 {
        lemma_speed_stays_clamped(c, frames.drop_last());
    }
}

/// Controls that are not touched ask for no turn and leave the speed alone.
pub proof fn lemma_idle_controls(speed: int, dt: int)
    requires
        MIN_SPEED <= speed <= MAX_SPEED,
    ensures
        no_turn(turn_of(PlayerInput::idle().axis@, PlayerInput::idle().yaw as int, dt)),
        throttled(speed, PlayerInput::idle().accel as int, PlayerInput::idle().brake as int, dt)
            == speed,
{
    assert(0 * dt * YAW_SPEED == 0 && 0 * dt * PITCH_SPEED == 0 && (-0) * dt * ROLL_SPEED == 0)
        by (nonlinear_arith);
    assert((0 * ACCEL - 0 * BRAKE) * dt == 0) by (nonlinear_arith);
}

/// Where no control is touched, the turn that is handed in plays no part.
pub proof fn lemma_idle_turn_ignored(c: Craft, turn: Q4, dt: int)
    ensures
        flown(c, PlayerInput::idle(), turn, dt) == flown(
            c,
            PlayerInput::idle(),
            Q4::identity(),
            dt,
        ),
{
    assert(0 * dt * YAW_SPEED == 0 && 0 * dt * PITCH_SPEED == 0 && (-0) * dt * ROLL_SPEED == 0)
        by (nonlinear_arith);
}

/// With no control touched for `n` frames, the craft keeps its orientation and
/// its speed and advances along a straight line by the same step each frame,
/// as long as the line stays in the world.
pub proof fn lemma_coasting_is_straight(c: Craft, dt: int, n: nat)
    requires
        MIN_SPEED <= c.speed <= MAX_SPEED,
        forall|k: nat|
            1 <= k <= n ==> c.pose.translation.plus(
                #[trigger] nose(c.pose.rotation).travel(c.speed, dt).times(k as int),
            ).within(WORLD_LIMIT as int),
    ensures
        coasted(c, dt, n).pose.rotation == c.pose.rotation,
        coasted(c, dt, n).speed == c.speed,
        coasted(c, dt, n).pose.translation == c.pose.translation.plus(
            nose(c.pose.rotation).travel(c.speed, dt).times(n as int),
        ),
    decreases n,
{
    let step = nose(c.pose.rotation).travel(c.speed, dt);
    if n == 0 {
        assert(step.times(0) == V3::zero()) by (nonlinear_arith)
            requires
                step.times(0) == (V3 { x: step.x * 0, y: step.y * 0, z: step.z * 0 }),
        ;
        assert(c.pose.translation.plus(V3::zero()) == c.pose.translation);
    } else {
        let m = (n - 1) as nat;
        assert forall|k: nat| 1 <= k <= m implies c.pose.translation.plus(
            #[trigger] step.times(k as int),
        ).within(WORLD_LIMIT as int) by {
            assert(k <= n);
        }
        lemma_coasting_is_straight(c, dt, m);
        lemma_idle_controls(c.speed, dt);
        let before = coasted(c, dt, m);
        assert(step.times(m as int).plus(step) == step.times(n as int)) by (nonlinear_arith)
            requires
                n == m + 1,
                step.times(m as int) == (V3 { x: step.x * m, y: step.y * m, z: step.z * m }),
                step.times(n as int) == (V3 { x: step.x * n, y: step.y * n, z: step.z * n }),
                step.times(m as int).plus(step) == (V3 {
                    x: step.x * m + step.x,
                    y: step.y * m + step.y,
                    z: step.z * m + step.z,
                }),
        ;
        assert(before.pose.translation.plus(step) == c.pose.translation.plus(
            step.times(n as int),
        ));
        assert(c.pose.translation.plus(step.times(n as int)).within(WORLD_LIMIT as int));
    }
}

/// The angles by which the stick and the rudder turn the craft in this frame.
pub fn turn_deltas(input: &PlayerInput, dt: u32) -> (r: TurnDeltas)
    requires
        input.wf(),
    ensures
        r@ == turn_of(input.axis@, input.yaw as int, dt as int),
{
    turn_deltas_of(input.axis.x, input.axis.y, input.yaw, dt)
}

/// The angles by which a stick at `(axis_x, axis_y)` and a rudder at `yaw`
/// turn a craft in one frame.
pub fn turn_deltas_of(axis_x: i64, axis_y: i64, yaw: i64, dt: u32) -> (r: TurnDeltas)
    requires
        -ONE <= axis_x <= ONE,
        -ONE <= axis_y <= ONE,
        -ONE <= yaw <= ONE,
    ensures
        r@ == turn_of(V2 { x: axis_x as int, y: axis_y as int }, yaw as int, dt as int),
{
    TurnDeltas {
        yaw: angle_turned(yaw, YAW_SPEED, dt),
        pitch: angle_turned(axis_x, PITCH_SPEED, dt),
        roll: angle_turned(-axis_y, ROLL_SPEED, dt),
    }
}

fn angle_turned(axis: i64, rate: i64, dt: u32) -> (r: i64)
    requires
        -ONE <= axis <= ONE,
        0 <= rate <= ROLL_SPEED,
    ensures
        r == turn_angle(axis as int, rate as int, dt as int),
{
    proof {
        lemma_mul_within(axis as int, dt as int, ONE as int, 0x1_0000_0000);
        lemma_mul_within(axis * dt, rate as int, ONE * 0x1_0000_0000, ROLL_SPEED as int);
        lemma_trunc_div_within(axis * dt * rate, ONE_SQ as int, 85_899_345_920);
    }
    let turned: i128 = (axis as i128) * (dt as i128) * (rate as i128) / ONE_SQ;
    turned as i64
}

/// The speed after one frame of throttle and brake.
pub fn throttle(speed: i64, accel: i64, brake: i64, dt: u32) -> (r: i64)
    requires
        MIN_SPEED <= speed <= MAX_SPEED,
        0 <= accel <= ONE,
        0 <= brake <= ONE,
    ensures
        r == throttled(speed as int, accel as int, brake as int, dt as int),
        MIN_SPEED <= r <= MAX_SPEED,
{
    proof {
        lemma_mul_within(accel as int, ACCEL as int, ONE as int, ACCEL as int);
        lemma_mul_within(brake as int, BRAKE as int, ONE as int, BRAKE as int);
        lemma_mul_within(
            accel * ACCEL - brake * BRAKE,
            dt as int,
            ONE * ACCEL + ONE * BRAKE,
            0x1_0000_0000,
        );
    }
    let push: i128 = mul_wide(accel, ACCEL) - mul_wide(brake, BRAKE);
    let gained: i128 = push * (dt as i128) / ONE_SQ;
    proof {
        lemma_trunc_div_within(
            (accel * ACCEL - brake * BRAKE) * dt,
            ONE_SQ as int,
            (ONE * ACCEL + ONE * BRAKE) * 0x1_0000_0000,
        );
    }
    clamp_i128(speed as i128 + gained, MIN_SPEED, MAX_SPEED)
}

/// The nose of a craft: the body's first axis, turned as the craft is turned.
pub fn nose_of(rotation: &Quat) -> (r: Vec3)
    requires
        rotation@.is_rotation(),
    ensures
        r@ == nose(rotation@),
        r@.within(ONE + 2),
        TURNED_AXIS_MIN <= r@.len_sq() <= TURNED_AXIS_MAX,
{
    let forward = Vec3 { x: ONE, y: 0, z: 0 };
    proof {
        assert(forward@.len_sq() == ONE_SQ) by (nonlinear_arith)
            requires
                forward@.len_sq() == forward@.x * forward@.x + forward@.y * forward@.y + forward@.z
                    * forward@.z,
                forward@.x == ONE,
                forward@.y == 0,
                forward@.z == 0,
        ;
        lemma_turned_axis_is_unit(rotation@, forward@);
    }
    rotation.rotate(&forward)
}

/// Carries a transform that has been turned to `rotation` along the new nose
/// for one frame at `speed`. A step that would leave the world is not made.
pub fn carry(transform: &Transform, rotation: Quat, speed: i64, dt: u32) -> (r: Transform)
    requires
        transform.wf(),
        rotation@.is_rotation(),
        MIN_SPEED <= speed <= MAX_SPEED,
    ensures
        r@ == carried(transform@, rotation@, speed as int, dt as int),
        r.wf(),
{
    let forward = nose_of(&rotation);
    let step = forward.travel(speed, dt);
    proof {
        let k = speed * dt;
        lemma_mul_within(speed as int, dt as int, MAX_SPEED as int, 0x1_0000_0000);
        let bound = MAX_SPEED * 0x1_0000_0000;
        lemma_mul_within(forward.x as int, k, 13 * ONE, bound);
        lemma_mul_within(forward.y as int, k, 13 * ONE, bound);
        lemma_mul_within(forward.z as int, k, 13 * ONE, bound);
        lemma_trunc_div_within(forward.x * k, ONE_SQ as int, 41_875_931_136_000);
        lemma_trunc_div_within(forward.y * k, ONE_SQ as int, 41_875_931_136_000);
        lemma_trunc_div_within(forward.z * k, ONE_SQ as int, 41_875_931_136_000);
    }
    let moved = transform.translation.plus(&step);
    if moved.is_within(WORLD_LIMIT) {
        Transform { translation: moved, rotation }
    } else {
        Transform { translation: transform.translation, rotation }
    }
}

/// One frame of the kinematic model: turns the craft by `turn` in its own
/// frame, unless the controls ask for no turn; changes its speed by throttle
/// and brake, within `MIN_SPEED ..= MAX_SPEED`; and carries it along its new
/// nose at the new speed. A step that would leave the world is not made.
///
/// `turn` is the rotation that the angles of `turn_deltas` stand for: about
/// the second axis by the yaw, then the first by the pitch, then the third by
/// the roll.
pub fn kinematic_movement(player: &mut Player, input: &PlayerInput, turn: &Quat, dt: u32)
    requires
        old(player).wf(),
        input.wf(),
        turn@.is_rotation(),
    ensures
        final(player)@ == flown(old(player)@, *input, turn@, dt as int),
        final(player).wf(),
{
    let deltas = turn_deltas(input, dt);
    let rotation = if deltas.yaw == 0 && deltas.pitch == 0 && deltas.roll == 0 {
        player.transform.rotation
    } else {
        player.transform.rotation.compose(turn)
    };
    let speed = throttle(player.velocity, input.accel, input.brake, dt);
    player.transform = carry(&player.transform, rotation, speed, dt);
    player.velocity = speed;
}

/// The speed that stands for a velocity: its length, brought into
/// `MIN_SPEED ..= MAX_SPEED`.
pub open spec fn speed_of(velocity: V3) -> int {
    clamp(velocity.length(), MIN_SPEED as int, MAX_SPEED as int)
}

/// The velocity that a rigid-body integrator is to go on with, where it has
/// reached `velocity`: no faster than the greatest speed.
pub fn limit_velocity(velocity: &Vec3) -> (r: Vec3)
    requires
        velocity@.within(VELOCITY_LIMIT as int),
    ensures
        r@ == limited(velocity@),
        r@.length() <= MAX_SPEED,
        r@.within(VELOCITY_LIMIT as int),
{
    let len: i64 = velocity.length();
    proof {
        lemma_limited_is_slow(velocity@);
        lemma_length_within(velocity@, VELOCITY_LIMIT as int);
    }
    if len > MAX_SPEED {
        proof {
            lemma_mul_within(
                velocity.x as int,
                MAX_SPEED as int,
                VELOCITY_LIMIT as int,
                MAX_SPEED as int,
            );
            lemma_mul_within(
                velocity.y as int,
                MAX_SPEED as int,
                VELOCITY_LIMIT as int,
                MAX_SPEED as int,
            );
            lemma_mul_within(
                velocity.z as int,
                MAX_SPEED as int,
                VELOCITY_LIMIT as int,
                MAX_SPEED as int,
            );
            assert(VELOCITY_LIMIT * MAX_SPEED <= VELOCITY_LIMIT * (len + 1)) by (nonlinear_arith)
                requires
                    len + 1 >= MAX_SPEED,
            ;
            lemma_trunc_div_within(velocity.x * MAX_SPEED, len + 1, VELOCITY_LIMIT as int);
            lemma_trunc_div_within(velocity.y * MAX_SPEED, len + 1, VELOCITY_LIMIT as int);
            lemma_trunc_div_within(velocity.z * MAX_SPEED, len + 1, VELOCITY_LIMIT as int);
        }
        let d: i128 = len as i128 + 1;
        Vec3 {
            x: (mul_wide(velocity.x, MAX_SPEED) / d) as i64,
            y: (mul_wide(velocity.y, MAX_SPEED) / d) as i64,
            z: (mul_wide(velocity.z, MAX_SPEED) / d) as i64,
        }
    } else {
        *velocity
    }
}

/// The speed of a craft that a rigid-body integrator moves at `velocity`.
pub fn craft_speed(velocity: &Vec3) -> (r: i64)
    requires
        velocity@.within(COORD_LIMIT as int),
    ensures
        r == speed_of(velocity@),
        MIN_SPEED <= r <= MAX_SPEED,
{
    let len: i64 = velocity.length();
    clamp_i128(len as i128, MIN_SPEED, MAX_SPEED)
}

/// A velocity that is no faster than the greatest speed: the velocity
/// itself where it is slow enough, else the velocity shortened, along its
/// own direction, to just under the greatest speed.
pub open spec fn limited(velocity: V3) -> V3 {
    if velocity.length() > MAX_SPEED {
        velocity.times(MAX_SPEED as int).over(velocity.length() + 1)
    } else {
        velocity
    }
}

/// A limited velocity is no faster than the greatest speed, and a velocity
/// that was no faster is not changed.
pub proof fn lemma_limited_is_slow(velocity: V3)
    ensures
        limited(velocity).length() <= MAX_SPEED,
        speed_of(limited(velocity)) == limited(velocity).length(),
        velocity.length() <= MAX_SPEED ==> limited(velocity) == velocity,
{
    let max = MAX_SPEED as int;
    let n = velocity.len_sq();
    crate::vector::lemma_component_le_length(velocity);
    lemma_isqrt_exists(n);
    let len = velocity.length();
    let q = limited(velocity);
    if len > max {
        let d = len + 1;
        let dd = d * d;
        lemma_square_of_dividend(velocity.x * max, d, 0);
        lemma_square_of_dividend(velocity.y * max, d, 0);
        lemma_square_of_dividend(velocity.z * max, d, 0);
        let s = q.len_sq();
        let mm = max * max;
        assert((velocity.x * max) * (velocity.x * max) == (velocity.x * velocity.x) * mm && (
        velocity.y * max) * (velocity.y * max) == (velocity.y * velocity.y) * mm && (velocity.z
            * max) * (velocity.z * max) == (velocity.z * velocity.z) * mm) by (nonlinear_arith)
            requires
                mm == max * max,
        ;
        assert(s * dd == (q.x * q.x) * dd + (q.y * q.y) * dd + (q.z * q.z) * dd)
            by (nonlinear_arith)
            requires
                s == q.x * q.x + q.y * q.y + q.z * q.z,
        ;
        assert(n * mm == (velocity.x * velocity.x) * mm + (velocity.y * velocity.y) * mm + (
        velocity.z * velocity.z) * mm) by (nonlinear_arith)
            requires
                n == velocity.x * velocity.x + velocity.y * velocity.y + velocity.z * velocity.z,
        ;
        assert(s * dd <= n * mm);
        assert(n * mm < dd * mm) by (nonlinear_arith)
            requires
                n < dd,
                mm > 0,
        ;
        assert(mm > 0) by (nonlinear_arith)
            requires
                mm == max * max,
                max > 0,
        ;
        assert(s < mm) by (nonlinear_arith)
            requires
                s * dd < dd * mm,
                dd > 0,
        ;
        assert(s >= 0) by (nonlinear_arith)
            requires
                s == q.x * q.x + q.y * q.y + q.z * q.z,
        ;
        lemma_isqrt_exists(s);
        let r = q.length();
        if r > max {
            assert(r * r >= (max + 1) * (max + 1)) by (nonlinear_arith)
                requires
                    r >= max + 1,
                    max > 0,
            ;
        }
    }
}

/// How steeply the air meets a surface: minus the part of the direction of
/// flight that lies along the surface's normal, and nothing for a craft at rest.
pub open spec fn angle_of_attack(velocity: V3, rotation: Q4, surface_normal: V3) -> int {
    if velocity.len_sq() == 0 {
        0
    } else {
        -trunc_div(velocity.normalized().dot(rotation.rotate(surface_normal)), ONE as int)
    }
}

/// The strength of the lift of a surface: speed times lift constant times angle of attack.
pub open spec fn lift_strength(velocity: V3, rotation: Q4, surface_normal: V3, constant: int)
    -> int {
    trunc_div(
        velocity.length() * constant * angle_of_attack(velocity, rotation, surface_normal),
        ONE_SQ as int,
    )
}

/// The lift of a surface, along its normal as the craft is turned.
pub open spec fn lift(velocity: V3, rotation: Q4, surface_normal: V3, constant: int) -> V3 {
    rotation.rotate(
        surface_normal.scaled(lift_strength(velocity, rotation, surface_normal, constant)),
    )
}

/// The lift of a surface with the normal `surface_normal` in the body's frame
/// on a craft that moves at `vel` and is turned by `rotation`.
pub fn calculate_lift(vel: &Vec3, rotation: &Quat, surface_normal: &Vec3, constant: i64) -> (r:
    Vec3)
    requires
        vel@.within(VELOCITY_LIMIT as int),
        rotation@.is_rotation(),
        surface_normal@.within(ONE as int),
        -LIFT_LIMIT <= constant <= LIFT_LIMIT,
    ensures
        r@ == lift(vel@, rotation@, surface_normal@, constant as int),
        r@.within(LIFT_FORCE_LIMIT as int),
{
    let speed: i64 = vel.length();
    proof {
        lemma_rotation_within(rotation@);
        lemma_length_within(vel@, VELOCITY_LIMIT as int);
        lemma_rotate_within(rotation@, surface_normal@, ONE as int);
        lemma_normalized_within(vel@);
    }
    let angle_of_attack: i64 = if speed == 0 && vel.x == 0 && vel.y == 0 && vel.z == 0 {
        proof {
            assert(vel@.len_sq() == 0) by (nonlinear_arith)
                requires
                    vel@.len_sq() == vel@.x * vel@.x + vel@.y * vel@.y + vel@.z * vel@.z,
                    vel@.x == 0,
                    vel@.y == 0,
                    vel@.z == 0,
            ;
        }
        0
    } else {
        let facing = rotation.rotate(surface_normal);
        let heading = vel.normalize_or_zero();
        proof {
            if vel@.len_sq() == 0 {
                assert(vel@.x == 0 && vel@.y == 0 && vel@.z == 0) by (nonlinear_arith)
                    requires
                        vel@.x * vel@.x + vel@.y * vel@.y + vel@.z * vel@.z == 0,
                ;
                crate::fixed::lemma_isqrt_is(0, 0);
            }
            lemma_mul_within(heading.x as int, facing.x as int, ONE as int, 13 * ONE);
            lemma_mul_within(heading.y as int, facing.y as int, ONE as int, 13 * ONE);
            lemma_mul_within(heading.z as int, facing.z as int, ONE as int, 13 * ONE);
            lemma_trunc_div_within(heading@.dot(facing@), ONE as int, 39 * ONE);
        }
        let along: i128 = heading.dot(&facing) / (ONE as i128);
        (-along) as i64
    };
    proof {
        lemma_mul_within(speed as int, constant as int, 2 * VELOCITY_LIMIT, LIFT_LIMIT as int);
        lemma_mul_within(
            speed * constant,
            angle_of_attack as int,
            2 * VELOCITY_LIMIT * LIFT_LIMIT,
            39 * ONE,
        );
        lemma_trunc_div_within(
            speed * constant * angle_of_attack,
            ONE_SQ as int,
            7_800_000_000_000_000,
        );
    }
    let strength: i128 = mul_wide(speed, constant) * (angle_of_attack as i128) / ONE_SQ;
    proof {
        lemma_scaled_within(
            surface_normal@,
            strength as int,
            ONE as int,
            7_800_000_000_000_000,
        );
        lemma_trunc_div_exact(7_800_000_000_000_000, ONE as int);
        assert(ONE * 7_800_000_000_000_000 == 7_800_000_000_000_000 * ONE);
        lemma_rotate_within(
            rotation@,
            surface_normal@.scaled(strength as int),
            7_800_000_000_000_001,
        );
    }
    let push = surface_normal.scaled(strength as i64);
    rotation.rotate(&push)
}

/// What the dynamic model hands to the rigid-body integrator, with unbounded components.
pub struct Forces {
    pub force: V3,
    pub torque: V3,
    pub linear_damping: int,
}

/// What the dynamic model hands to the rigid-body integrator for one frame.
#[derive(Clone, Copy, Debug, PartialEq, Eq, Structural)]
pub struct FlightForces {
    /// The force on the craft, in the frame of the world.
    pub force: Vec3,
    /// The torque on the craft, in the frame of the world.
    pub torque: Vec3,
    /// The damping of the craft's motion: the air's and the brake's.
    pub linear_damping: i64,
}

impl View for FlightForces {
    type V = Forces;

    open spec fn view(&self) -> Forces {
        Forces {
            force: self.force@,
            torque: self.torque@,
            linear_damping: self.linear_damping as int,
        }
    }
}

/// The thrust of the engine: along the nose, as strong as throttle times the
/// engine's acceleration times the craft's mass.
pub open spec fn thrust(accel: int, rotation: Q4, mass: int) -> V3 {
    rotation.rotate(V3 { x: trunc_div(accel * ACCEL * mass, ONE_SQ as int), y: 0, z: 0 })
}

/// The torque of the controls: the stick's first axis rolls about the body's
/// first axis, the rudder yaws about the second, and the stick's second axis
/// pitches the other way about the third.
pub open spec fn control_torque(axis: V2, yaw: int, rotation: Q4) -> V3 {
    rotation.rotate(
        V3 {
            x: trunc_div(axis.x * ROLL_SPEED, ONE as int),
            y: trunc_div(yaw * YAW_SPEED, ONE as int),
            z: trunc_div(-axis.y * PITCH_SPEED, ONE as int),
        },
    )
}

/// The force, the torque and the damping of one frame of the dynamic model.
pub open spec fn flight_forces(input: PlayerInput, velocity: V3, rotation: Q4, mass: int)
    -> Forces {
    Forces {
        force: thrust(input.accel as int, rotation, mass).plus(
            lift(velocity, rotation, V3::unit_y(), LIFT_UP as int),
        ).plus(lift(velocity, rotation, V3::unit_z(), LIFT_SIDE as int)),
        torque: control_torque(input.axis@, input.yaw as int, rotation),
        linear_damping: trunc_div(input.brake * BRAKE, ONE as int) + BASE_DAMPING,
    }
}

/// One frame of the dynamic model: the force, the torque and the damping for
/// a craft of the mass `mass` that moves at `velocity` and is turned by
/// `rotation`. The force is the engine's thrust and the lift of wings and fin;
/// a craft at rest has no lift.
pub fn player_movement(player_input: &PlayerInput, velocity: &Vec3, rotation: &Quat, mass: i64)
    -> (r: FlightForces)
    requires
        player_input.wf(),
        velocity@.within(VELOCITY_LIMIT as int),
        rotation@.is_rotation(),
        0 <= mass <= MASS_LIMIT,
    ensures
        r@ == flight_forces(*player_input, velocity@, rotation@, mass as int),
{
    let up = Vec3 { x: 0, y: ONE, z: 0 };
    let side = Vec3 { x: 0, y: 0, z: ONE };
    let lift_up = calculate_lift(velocity, rotation, &up, LIFT_UP);
    let lift_side = calculate_lift(velocity, rotation, &side, LIFT_SIDE);
    proof {
        lemma_rotation_within(rotation@);
        lemma_mul_within(player_input.accel as int, ACCEL as int, ONE as int, ACCEL as int);
        lemma_mul_within(
            player_input.accel * ACCEL,
            mass as int,
            ONE * ACCEL,
            MASS_LIMIT as int,
        );
        lemma_trunc_div_within(
            player_input.accel * ACCEL * mass,
            ONE_SQ as int,
            100_000_000_000_000,
        );
    }
    let push: i128 = mul_wide(player_input.accel, ACCEL) * (mass as i128) / ONE_SQ;
    let thrust_raw = Vec3 { x: push as i64, y: 0, z: 0 };
    proof {
        lemma_rotate_within(rotation@, thrust_raw@, 100_000_000_000_000);
    }
    let thrust = rotation.rotate(&thrust_raw);
    proof {
        lemma_mul_within(
            player_input.axis.x as int,
            ROLL_SPEED as int,
            ONE as int,
            ROLL_SPEED as int,
        );
        lemma_mul_within(player_input.yaw as int, YAW_SPEED as int, ONE as int, YAW_SPEED as int);
        lemma_mul_within(
            -player_input.axis.y as int,
            PITCH_SPEED as int,
            ONE as int,
            PITCH_SPEED as int,
        );
        lemma_trunc_div_within(player_input.axis.x * ROLL_SPEED, ONE as int, ROLL_SPEED as int);
        lemma_trunc_div_within(player_input.yaw * YAW_SPEED, ONE as int, YAW_SPEED as int);
        lemma_trunc_div_within(-player_input.axis.y * PITCH_SPEED, ONE as int, PITCH_SPEED as int);
    }
    let ypr_vec = Vec3 {
        x: (mul_wide(player_input.axis.x, ROLL_SPEED) / (ONE as i128)) as i64,
        y: (mul_wide(player_input.yaw, YAW_SPEED) / (ONE as i128)) as i64,
        z: (mul_wide(-player_input.axis.y, PITCH_SPEED) / (ONE as i128)) as i64,
    };
    let torque = rotation.rotate(&ypr_vec);
    proof {
        lemma_mul_within(player_input.brake as int, BRAKE as int, ONE as int, BRAKE as int);
        lemma_trunc_div_within(player_input.brake * BRAKE, ONE as int, BRAKE as int);
    }
    let braking: i128 = mul_wide(player_input.brake, BRAKE) / (ONE as i128);
    let force = thrust.plus(&lift_up).plus(&lift_side);
    FlightForces { force, torque, linear_damping: braking as i64 + BASE_DAMPING }
}

} // verus!
