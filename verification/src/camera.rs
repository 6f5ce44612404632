//! The chase camera.
//!
//! The camera follows the craft from behind and above. Each frame it moves a
//! part of the way from where it is toward where it would ideally be, so it
//! lags the craft smoothly, and it opens its field of view as the craft gains
//! speed.

use vstd::prelude::*;
use crate::fixed::{
    clamp, clamp_i128, lemma_mul_within, lemma_trunc_div_exact, lemma_trunc_div_monotone,
    lemma_trunc_div_within, trunc_div, ONE,
};
use crate::input::PlayerInput;
use crate::player::{MAX_SPEED, MIN_SPEED};
use crate::rotation::{
    lemma_compose_identity, lemma_lerp_ends, lemma_rotate_within, lemma_rotation_within, Pose,
    Quat, Transform, Q4,
};
use crate::unit_length::{is_direction, lemma_normalized_is_direction};
use crate::vector::{lemma_normalized_within, lemma_scaled_within, mul_wide, Vec2, Vec3, V2, V3};

verus! {

/// Half a turn, in millionths of a radian.
pub const PI: i64 = 3_141_593;

/// Two over pi.
pub const FRAC_2_PI: i64 = 636_620;

/// The field of view of a camera behind a craft at its least speed: a third of pi.
pub const BASE_FOV: i64 = 1_047_198;

/// How far the field of view opens up to the greatest speed: an eighth of pi.
pub const FOV_SPREAD: i64 = 392_699;

/// How far behind the craft the camera wants to be.
pub const CAMERA_BACK: i64 = 15_000_000;

/// How far above the craft the camera wants to be.
pub const CAMERA_UP: i64 = 2_500_000;

/// How far above the craft the point lies that the camera looks at.
pub const CAMERA_LOOK_ABOVE: i64 = 1_500_000;

/// The rate, per second, at which the camera closes in on its place at the least speed.
pub const CAMERA_TRANSLATION_RATE: i64 = 24_000_000;

/// How much faster the camera closes in on its place at the greatest speed.
pub const CAMERA_RATE_SPREAD: i64 = 12_000_000;

/// The rate, per second, at which the camera closes in on its orientation.
pub const CAMERA_ROTATION_RATE: i64 = 24_000_000;

/// How far from the origin a camera can be, along any axis.
pub const CAMERA_LIMIT: i64 = 1_000_001_000_000_000;

/// The camera, with unbounded coordinates.
pub struct CameraRig {
    pub pose: Pose,
    pub fov: int,
}

/// The one camera that follows the craft.
#[derive(Clone, Copy, Debug, PartialEq, Eq, Structural)]
pub struct MainCamera {
    /// Where the camera is and how it is turned.
    pub transform: Transform,
    /// Its field of view, in millionths of a radian.
    pub fov: i64,
}

impl View for MainCamera {
    type V = CameraRig;

    open spec fn view(&self) -> CameraRig {
        CameraRig { pose: self.transform@, fov: self.fov as int }
    }
}

impl MainCamera {
    /// The camera lies within its limit and is turned by an orientation of unit length.
    pub open spec fn wf(&self) -> bool {
        &&& self.transform.translation@.within(CAMERA_LIMIT as int)
        &&& self.transform.rotation@.is_rotation()
    }

    /// Whether the camera lies within its limit and is turned by an orientation of unit length.
    pub fn is_valid(&self) -> (r: bool)
        ensures
            r == self.wf(),
    {
        self.transform.translation.is_within(CAMERA_LIMIT) && self.transform.rotation.is_rotation()
    }
}

impl Default for MainCamera {
    /// The camera at the origin, turned nowhere, with the field of view of the least speed.
    fn default() -> (r: MainCamera)
        ensures
            r.wf(),
            r.transform.translation@ == V3::zero(),
            r.transform.rotation@ == Q4::identity(),
            r.fov == BASE_FOV,
    {
        MainCamera { transform: Transform::from_translation(Vec3::zero()), fov: BASE_FOV }
    }
}

/// Where the camera would ideally be, and what it would look at.
pub struct Goal {
    pub translation: V3,
    pub look_at: V3,
    pub up: V3,
}

/// Where the camera would ideally be, the point it would look at, and the
/// direction that it would hold upward.
#[derive(Clone, Copy, Debug, PartialEq, Eq, Structural)]
pub struct CameraGoal {
    pub translation: Vec3,
    pub look_at: Vec3,
    pub up: Vec3,
}

impl View for CameraGoal {
    type V = Goal;

    open spec fn view(&self) -> Goal {
        Goal { translation: self.translation@, look_at: self.look_at@, up: self.up@ }
    }
}

/// How far the speed lies between the least and the greatest speed: nothing
/// at the least and below, one at the greatest and above.
pub open spec fn speed_ratio_of(speed: int) -> int {
    trunc_div(
        (clamp(speed, MIN_SPEED as int, MAX_SPEED as int) - MIN_SPEED) * ONE,
        MAX_SPEED - MIN_SPEED,
    )
}

/// The field of view at a speed ratio.
pub open spec fn fov_of(ratio: int) -> int {
    BASE_FOV + trunc_div(ratio * FOV_SPREAD, ONE as int)
}

/// The angles by which the camera looks around the craft: half a turn about
/// the body's first axis at full deflection of the stick's first axis, the
/// other way, and two over pi about the third at full deflection of the second.
pub open spec fn look_angles_of(axis: V2) -> V2 {
    V2 { x: trunc_div(-axis.x * PI, ONE as int), y: trunc_div(axis.y * FRAC_2_PI, ONE as int) }
}

/// Where the camera stands relative to the craft, in the craft's frame.
pub open spec fn camera_offset() -> V3 {
    V3 { x: -CAMERA_BACK, y: CAMERA_UP as int, z: 0 }
}

/// The direction that is upward for the craft.
pub open spec fn craft_up(rotation: Q4) -> V3 {
    rotation.rotate(V3::unit_y()).normalized()
}

/// Where the camera would ideally be for a craft at `player`: at its offset
/// in the craft's frame, turned by `look`; looking at a point above the
/// craft; with the craft's upward direction as its own. The look rotation is
/// applied in the craft's frame: first `look`, then the craft's orientation.
pub open spec fn goal_of(player: Pose, look: Q4) -> Goal {
    Goal {
        translation: player.translation.plus(
            player.rotation.compose(look).rotate(camera_offset()),
        ),
        look_at: player.translation.plus(
            craft_up(player.rotation).scaled(CAMERA_LOOK_ABOVE as int),
        ),
        up: craft_up(player.rotation),
    }
}

/// The rate at which the camera closes in on its place: faster at higher speed.
pub open spec fn translation_rate_of(ratio: int) -> int {
    CAMERA_TRANSLATION_RATE + trunc_div(ratio * CAMERA_RATE_SPREAD, ONE as int)
}

/// The fraction of the way that the camera makes in one frame at a rate: the
/// rate times the length of the frame, and no more than all of the way.
pub open spec fn smoothing(rate: int, dt: int) -> int {
    clamp(trunc_div(rate * dt, ONE as int), 0, ONE as int)
}

/// The camera after one frame in which it follows a craft at `speed` toward
/// the pose `ideal`.
pub open spec fn followed(camera: CameraRig, ideal: Pose, speed: int, dt: int) -> CameraRig {
    let ratio = speed_ratio_of(speed);
    CameraRig {
        pose: Pose {
            translation: camera.pose.translation.lerp(
                ideal.translation,
                smoothing(translation_rate_of(ratio), dt),
            ),
            rotation: camera.pose.rotation.lerp(
                ideal.rotation,
                smoothing(CAMERA_ROTATION_RATE as int, dt),
            ),
        },
        fov: fov_of(ratio),
    }
}

/// The speed ratio lies between nothing and one, and does not fall as the speed rises.
pub proof fn lemma_speed_ratio_monotone(slower: int, faster: int)
    requires
        slower <= faster,
    ensures
        0 <= speed_ratio_of(slower) <= speed_ratio_of(faster) <= ONE,
{
    let span = MAX_SPEED - MIN_SPEED;
    let a = (clamp(slower, MIN_SPEED as int, MAX_SPEED as int) - MIN_SPEED) * ONE;
    let b = (clamp(faster, MIN_SPEED as int, MAX_SPEED as int) - MIN_SPEED) * ONE;
    lemma_trunc_div_monotone(a, b, span);
    lemma_trunc_div_monotone(0, a, span);
    lemma_trunc_div_within(b, span, ONE as int);
}

/// The field of view does not narrow as the speed ratio rises.
pub proof fn lemma_fov_monotone(lower: int, higher: int)
    requires
        lower <= higher,
    ensures
        fov_of(lower) <= fov_of(higher),
{
    lemma_trunc_div_monotone(lower * FOV_SPREAD, higher * FOV_SPREAD, ONE as int);
}

/// Over the speed ratios from nothing to one the field of view runs from its
/// base to its base and spread.
pub proof fn lemma_fov_range(ratio: int)
    requires
        0 <= ratio <= ONE,
    ensures
        BASE_FOV <= fov_of(ratio) <= BASE_FOV + FOV_SPREAD,
        fov_of(0) == BASE_FOV,
        fov_of(ONE as int) == BASE_FOV + FOV_SPREAD,
{
    lemma_fov_monotone(0, ratio);
    lemma_fov_monotone(ratio, ONE as int);
    lemma_trunc_div_exact(FOV_SPREAD as int, ONE as int);
}

/// The camera closes in on its place no slower as the speed ratio rises.
pub proof fn lemma_translation_rate_monotone(lower: int, higher: int)
    requires
        lower <= higher,
    ensures
        translation_rate_of(lower) <= translation_rate_of(higher),
{
    lemma_trunc_div_monotone(lower * CAMERA_RATE_SPREAD, higher * CAMERA_RATE_SPREAD, ONE as int);
}

/// With the look stick at rest in the identity, the camera wants to stand at
/// its offset as the craft alone turns it.
pub proof fn lemma_goal_without_look(player: Pose)
    requires
        player.rotation.is_rotation(),
    ensures
        goal_of(player, Q4::identity()).translation == player.translation.plus(
            player.rotation.rotate(camera_offset()),
        ),
{
    lemma_compose_identity(player.rotation);
}

/// In a frame of no length the camera stays where it is and as it is turned.
pub proof fn lemma_camera_rests_without_time(camera: CameraRig, ideal: Pose, speed: int)
    requires
        camera.pose.rotation.is_rotation(),
        ideal.rotation.is_rotation(),
    ensures
        followed(camera, ideal, speed, 0).pose == camera.pose,
{
    let rate = translation_rate_of(speed_ratio_of(speed));
    assert(rate * 0 == 0 && CAMERA_ROTATION_RATE * 0 == 0) by (nonlinear_arith);
    let from = camera.pose.translation;
    let gap = ideal.translation.minus(from);
    assert(gap.times(0) == V3::zero()) by (nonlinear_arith)
        requires
            gap.times(0) == (V3 { x: gap.x * 0, y: gap.y * 0, z: gap.z * 0 }),
    ;
    assert(from.lerp(ideal.translation, 0) == from);
    lemma_lerp_ends(camera.pose.rotation, ideal.rotation);
}

/// In a frame long enough for its rates the camera arrives at its place.
pub proof fn lemma_camera_arrives(camera: CameraRig, ideal: Pose, speed: int, dt: int)
    requires
        smoothing(translation_rate_of(speed_ratio_of(speed)), dt) == ONE,
    ensures
        followed(camera, ideal, speed, dt).pose.translation == ideal.translation,
{
    let from = camera.pose.translation;
    let gap = ideal.translation.minus(from);
    lemma_trunc_div_exact(gap.x, ONE as int);
    lemma_trunc_div_exact(gap.y, ONE as int);
    lemma_trunc_div_exact(gap.z, ONE as int);
}

/// A blend of two numbers by a fraction between nothing and one lies between them.
pub proof fn lemma_blend_between(from: int, to: int, t: int)
    requires
        0 <= t <= ONE,
    ensures
        from <= to ==> from <= from + trunc_div((to - from) * t, ONE as int) <= to,
        to <= from ==> to <= from + trunc_div((to - from) * t, ONE as int) <= from,
{
    let d = to - from;
    if d >= 0 {
        assert(0 <= d * t <= d * ONE) by (nonlinear_arith)
            requires
                d >= 0,
                0 <= t <= ONE,
        ;
        lemma_trunc_div_within(d * t, ONE as int, d);
    } else {
        assert(d * ONE <= d * t <= 0) by (nonlinear_arith)
            requires
                d < 0,
                0 <= t <= ONE,
        ;
        assert(-((-d) * ONE) == d * ONE) by (nonlinear_arith);
        lemma_trunc_div_within(d * t, ONE as int, -d);
    }
}

/// How far the speed lies between the least and the greatest speed.
pub fn speed_ratio(speed: i64) -> (r: i64)
    ensures
        r == speed_ratio_of(speed as int),
        0 <= r <= ONE,
{
    proof {
        lemma_speed_ratio_monotone(speed as int, speed as int);
    }
    let clamped: i64 = clamp_i128(speed as i128, MIN_SPEED, MAX_SPEED);
    let ratio: i128 = mul_wide(clamped - MIN_SPEED, ONE) / ((MAX_SPEED - MIN_SPEED) as i128);
    ratio as i64
}

/// The field of view at a speed ratio.
pub fn field_of_view(ratio: i64) -> (r: i64)
    requires
        0 <= ratio <= ONE,
    ensures
        r == fov_of(ratio as int),
        BASE_FOV <= r <= BASE_FOV + FOV_SPREAD,
{
    proof {
        lemma_fov_range(ratio as int);
    }
    let opened: i128 = mul_wide(ratio, FOV_SPREAD) / (ONE as i128);
    BASE_FOV + opened as i64
}

/// The angles by which the camera looks around the craft in this frame:
/// `x` about the body's first axis, `y` about the third.
pub fn camera_look_angles(input: &PlayerInput) -> (r: Vec2)
    requires
        input.wf(),
    ensures
        r@ == look_angles_of(input.camera_axis@),
{
    proof {
        lemma_mul_within(-input.camera_axis.x as int, PI as int, ONE as int, PI as int);
        lemma_mul_within(
            input.camera_axis.y as int,
            FRAC_2_PI as int,
            ONE as int,
            FRAC_2_PI as int,
        );
        lemma_trunc_div_within(-input.camera_axis.x * PI, ONE as int, PI as int);
        lemma_trunc_div_within(input.camera_axis.y * FRAC_2_PI, ONE as int, FRAC_2_PI as int);
    }
    let x: i128 = mul_wide(-input.camera_axis.x, PI) / (ONE as i128);
    let y: i128 = mul_wide(input.camera_axis.y, FRAC_2_PI) / (ONE as i128);
    Vec2 { x: x as i64, y: y as i64 }
}

/// Where the camera would ideally be for a craft at `player`, or nothing
/// where there is no craft. `look` is the rotation that the angles of
/// `camera_look_angles` stand for: about the body's first axis by `x`, then
/// about the third by `y`.
pub fn camera_goal(player: Option<&Transform>, look: &Quat) -> (r: Option<CameraGoal>)
    requires
        player matches Some(p) ==> p.wf(),
        look@.is_rotation(),
    ensures
        match player {
            Some(p) => r matches Some(g) && g@ == goal_of(p@, look@) && g.translation@.within(
                CAMERA_LIMIT as int,
            ) && is_direction(g.up@),
            None => r.is_none(),
        },
{
    match player {
        None => None,
        Some(p) => {
            let offset = Vec3 { x: -CAMERA_BACK, y: CAMERA_UP, z: 0 };
            let up_axis = Vec3 { x: 0, y: ONE, z: 0 };
            let frame = p.rotation.compose(look);
            proof {
                lemma_rotation_within(frame@);
                lemma_rotation_within(p.rotation@);
                lemma_rotate_within(frame@, offset@, CAMERA_BACK as int);
                lemma_rotate_within(p.rotation@, up_axis@, ONE as int);
                lemma_normalized_within(p.rotation@.rotate(up_axis@));
                lemma_normalized_is_direction(p.rotation@.rotate(up_axis@));
                lemma_scaled_within(
                    craft_up(p.rotation@),
                    CAMERA_LOOK_ABOVE as int,
                    ONE as int,
                    CAMERA_LOOK_ABOVE as int,
                );
            }
            let up = p.rotation.rotate(&up_axis).normalize_or_zero();
            Some(
                CameraGoal {
                    translation: p.translation.plus(&frame.rotate(&offset)),
                    look_at: p.translation.plus(&up.scaled(CAMERA_LOOK_ABOVE)),
                    up,
                },
            )
        },
    }
}

/// The fraction of the way that the camera makes in one frame at a rate.
fn smoothing_of(rate: i64, dt: u32) -> (r: i64)
    requires
        0 <= rate <= CAMERA_TRANSLATION_RATE + CAMERA_RATE_SPREAD,
    ensures
        r == smoothing(rate as int, dt as int),
        0 <= r <= ONE,
{
    proof {
        lemma_mul_within(
            rate as int,
            dt as int,
            CAMERA_TRANSLATION_RATE + CAMERA_RATE_SPREAD,
            0x1_0000_0000,
        );
    }
    let part: i128 = (rate as i128) * (dt as i128) / (ONE as i128);
    clamp_i128(part, 0, ONE)
}

/// One component of a blend of two places.
fn blend(from: i64, to: i64, t: i64) -> (r: i64)
    requires
        -CAMERA_LIMIT <= from <= CAMERA_LIMIT,
        -CAMERA_LIMIT <= to <= CAMERA_LIMIT,
        0 <= t <= ONE,
    ensures
        r == from + trunc_div((to - from) * t, ONE as int),
        -CAMERA_LIMIT <= r <= CAMERA_LIMIT,
{
    proof {
        lemma_blend_between(from as int, to as int, t as int);
    }
    let step: i128 = mul_wide(to - from, t) / (ONE as i128);
    (from as i128 + step) as i64
}

/// One frame of the camera. Where there is a craft, the camera moves toward
/// `ideal` by the fraction that its rates and the length of the frame give,
/// faster for a faster craft, and sets its field of view by the craft's
/// speed. Where there is none, it stays as it is.
///
/// `ideal` holds the place that `camera_goal` gives and the orientation of a
/// camera that looks from there at the goal's point with the goal's upward
/// direction.
pub fn camera_follow_player(camera: &mut MainCamera, ideal: Option<&Transform>, speed: i64, dt: u32)
    requires
        old(camera).wf(),
        ideal matches Some(t) ==> t.translation@.within(CAMERA_LIMIT as int)
            && t.rotation@.is_rotation(),
    ensures
        match ideal {
            Some(t) => final(camera)@ == followed(old(camera)@, t@, speed as int, dt as int),
            None => *final(camera) == *old(camera),
        },
        final(camera).wf(),
        ideal.is_some() ==> BASE_FOV <= final(camera).fov <= BASE_FOV + FOV_SPREAD,
{
    match ideal {
        None => {},
        Some(t) => {
            let ratio: i64 = speed_ratio(speed);
            proof {
                lemma_mul_within(
                    ratio as int,
                    CAMERA_RATE_SPREAD as int,
                    ONE as int,
                    CAMERA_RATE_SPREAD as int,
                );
                lemma_trunc_div_within(
                    ratio * CAMERA_RATE_SPREAD,
                    ONE as int,
                    CAMERA_RATE_SPREAD as int,
                );
                lemma_trunc_div_monotone(0, ratio * CAMERA_RATE_SPREAD, ONE as int);
                assert(ratio * CAMERA_RATE_SPREAD >= 0) by (nonlinear_arith)
                    requires
                        ratio >= 0,
                ;
            }
            let quicker: i128 = mul_wide(ratio, CAMERA_RATE_SPREAD) / (ONE as i128);
            let rate: i64 = CAMERA_TRANSLATION_RATE + quicker as i64;
            let part: i64 = smoothing_of(rate, dt);
            let turn_part: i64 = smoothing_of(CAMERA_ROTATION_RATE, dt);
            let from = camera.transform.translation;
            camera.transform.translation = Vec3 {
                x: blend(from.x, t.translation.x, part),
                y: blend(from.y, t.translation.y, part),
                z: blend(from.z, t.translation.z, part),
            };
            camera.transform.rotation = camera.transform.rotation.lerp(&t.rotation, turn_part);
            camera.fov = field_of_view(ratio);
        },
    }
}

} // verus!
