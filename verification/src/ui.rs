//! The tactical displays: the reticles on the screen and the dots on the radar.
//!
//! Each display keeps a pool of markers. Every frame the list of things to
//! mark is computed anew, in the order of the targets; the pool is cut down
//! from its tail or filled up at its tail until it is as long as the list; and
//! the markers take the places of the list, the first the first. A marker is
//! known by its place in the pool alone.

use vstd::prelude::*;
use crate::fixed::{
    clamp, clamp_i128, lemma_isqrt_is, lemma_mul_within, lemma_trunc_div_exact,
    lemma_trunc_div_within, trunc_div, ONE,
};
use crate::missile::{target_places, Target};
use crate::player::{nose, nose_of, Player};
use crate::rotation::{lemma_identity_rotates_nothing, Pose, Transform, Q4, WORLD_LIMIT};
use crate::unit_length::{
    is_direction, lemma_normalized_is_direction, lemma_square_of_dividend, DIRECTION_NORM_MIN,
};
use crate::vector::{lemma_length_positive, mul_wide, Vec2, Vec3, V2, V3};

verus! {

/// How far the radar sees along each of its axes.
pub const RADAR_RANGE: i64 = 1_000_000_000;

/// The middle of the radar, in percent of its width.
pub const RADAR_CENTER: i64 = 50_000_000;

/// Half the width of the radar, in percent of its width.
pub const RADAR_HALF_SPAN: i64 = 50_000_000;

/// The factor between the engine's speed and the speed that is displayed.
pub const DISPLAY_SPEED_FACTOR: i64 = 25;

/// The factor between the engine's height and the height that is displayed.
pub const DISPLAY_HEIGHT_FACTOR: i64 = 5;

/// A reticle on the screen, by its place in pixels from the left and the bottom.
#[derive(Clone, Copy, Debug, PartialEq, Eq, Structural)]
pub struct UiTarget {
    pub left: i64,
    pub bottom: i64,
}

/// A dot on the radar, by its place in percent from the left and the bottom.
#[derive(Clone, Copy, Debug, PartialEq, Eq, Structural)]
pub struct RadarDot {
    pub left: i64,
    pub bottom: i64,
}

impl View for RadarDot {
    type V = V2;

    open spec fn view(&self) -> V2 {
        V2 { x: self.left as int, y: self.bottom as int }
    }
}

/// The two pools of markers.
#[derive(Debug)]
pub struct UiTargets {
    /// The reticles on the screen.
    pub targets: Vec<UiTarget>,
    /// The dots on the radar.
    pub radar_dots: Vec<RadarDot>,
}

impl Default for UiTargets {
    /// Two empty pools.
    fn default() -> (r: UiTargets)
        ensures
            r.targets@.len() == 0,
            r.radar_dots@.len() == 0,
    {
        UiTargets { targets: Vec::new(), radar_dots: Vec::new() }
    }
}

/// What a frame did to a pool: how many markers it took from the tail, and
/// how many it added at the tail.
#[derive(Clone, Copy, Debug, PartialEq, Eq, Structural)]
pub struct PoolChange {
    pub removed: usize,
    pub created: usize,
}

/// What it takes to bring a pool of `before` markers to `wanted` markers.
pub open spec fn pool_change(before: int, wanted: int) -> PoolChange {
    PoolChange {
        removed: (if before > wanted {
            before - wanted
        } else {
            0
        }) as usize,
        created: (if wanted > before {
            wanted - before
        } else {
            0
        }) as usize,
    }
}

/// The point lies on a screen of the given width and height, its edges included.
pub open spec fn on_screen(point: Vec2, width: i64, height: i64) -> bool {
    0 <= point.x <= width && 0 <= point.y <= height
}

/// The reticles of a frame: one for each target that the camera projects to
/// a point on the screen, in the order of the targets.
pub open spec fn screen_marks(projected: Seq<Option<Vec2>>, width: i64, height: i64) -> Seq<
    UiTarget,
>
    decreases projected.len(),
{
    if projected.len() == 0 {
        Seq::empty()
    } else {
        let rest = screen_marks(projected.drop_last(), width, height);
        match projected.last() {
            Some(point) => if on_screen(point, width, height) {
                rest.push(UiTarget { left: point.x, bottom: point.y })
            } else {
                rest
            },
            None => rest,
        }
    }
}

/// The direction in which the craft flies over the ground: its nose without
/// its height, at unit length; and the third axis of the world for a craft
/// whose nose points straight up or down.
pub open spec fn radar_frame(rotation: Q4) -> V3 {
    let level = (V3 { x: nose(rotation).x, y: 0, z: nose(rotation).z }).normalized();
    if level.x == 0 && level.z == 0 {
        V3::unit_z()
    } else {
        level
    }
}

/// Where a place lies on the radar of a craft: the way from the craft to the
/// place over the ground, turned about the vertical so that the direction of
/// flight comes to lie on the radar's second axis.
pub open spec fn radar_offset(player: Pose, place: V3) -> V2 {
    let frame = radar_frame(player.rotation);
    let dx = place.x - player.translation.x;
    let dz = place.z - player.translation.z;
    V2 {
        x: trunc_div(dx * frame.z - dz * frame.x, ONE as int),
        y: trunc_div(dx * frame.x + dz * frame.z, ONE as int),
    }
}

/// The radar sees what lies within its range along both of its axes, the
/// range itself included.
pub open spec fn in_radar_range(offset: V2) -> bool {
    offset.within(RADAR_RANGE as int)
}

/// The place of a dot, in percent of the radar's width, for something that
/// the radar sees at `offset`.
pub open spec fn radar_dot_of(offset: V2) -> V2 {
    V2 {
        x: RADAR_CENTER + trunc_div(offset.x * RADAR_HALF_SPAN, RADAR_RANGE as int),
        y: RADAR_CENTER + trunc_div(offset.y * RADAR_HALF_SPAN, RADAR_RANGE as int),
    }
}

/// The dots of a frame: one for each target that the radar sees, in the order
/// of the targets.
pub open spec fn radar_marks(player: Pose, places: Seq<V3>) -> Seq<V2>
    decreases places.len(),
{
    if places.len() == 0 {
        Seq::empty()
    } else {
        let rest = radar_marks(player, places.drop_last());
        let offset = radar_offset(player, places.last());
        if in_radar_range(offset) {
            rest.push(radar_dot_of(offset))
        } else {
            rest
        }
    }
}

/// The places of the dots of a pool.
pub open spec fn dot_places(dots: Seq<RadarDot>) -> Seq<V2> {
    dots.map_values(|d: RadarDot| d@)
}

/// There are no more reticles than targets.
pub proof fn lemma_screen_marks_len(projected: Seq<Option<Vec2>>, width: i64, height: i64)
    ensures
        screen_marks(projected, width, height).len() <= projected.len(),
    decreases projected.len(),
{
    if projected.len() > 0 {
        lemma_screen_marks_len(projected.drop_last(), width, height);
    }
}

/// The direction of flight over the ground is a direction of unit length.
pub proof fn lemma_radar_frame_is_unit(rotation: Q4)
    ensures
        is_direction(radar_frame(rotation)),
        radar_frame(rotation).len_sq() >= DIRECTION_NORM_MIN,
        radar_frame(rotation).y == 0,
{
    let level = V3 { x: nose(rotation).x, y: 0, z: nose(rotation).z };
    lemma_normalized_is_direction(level);
    let unit = level.normalized();
    assert(ONE * ONE == 1_000_000_000_000int) by (nonlinear_arith);
    assert(V3::unit_z().len_sq() == ONE * ONE) by (nonlinear_arith)
        requires
            V3::unit_z().len_sq() == 0 * 0 + 0 * 0 + ONE * ONE,
    ;
    if level.len_sq() != 0 {
        lemma_length_positive(level);
        let len = level.length();
        assert(0 * ONE == 0) by (nonlinear_arith);
        assert(0int / len == 0) by (nonlinear_arith)
            requires
                len >= 1,
        ;
    }
    if unit.x == 0 && unit.z == 0 {
    } else {
        assert(unit.len_sq() != 0) by (nonlinear_arith)
            requires
                unit.len_sq() == unit.x * unit.x + unit.y * unit.y + unit.z * unit.z,
                unit.x != 0 || unit.z != 0,
        ;
    }
}

/// The square of the distance over the ground from the craft to a place.
pub open spec fn ground_distance_sq(player: Pose, place: V3) -> int {
    let dx = place.x - player.translation.x;
    let dz = place.z - player.translation.z;
    dx * dx + dz * dz
}

/// The radar turns the way to a place and does not stretch it: before
/// rounding, the square of the offset is the square of the distance over the
/// ground times the square of the length of the direction of flight.
proof fn lemma_turn_keeps_distance(dx: int, dz: int, fx: int, fz: int)
    ensures
        (dx * fz - dz * fx) * (dx * fz - dz * fx) + (dx * fx + dz * fz) * (dx * fx + dz * fz) == (dx
            * dx + dz * dz) * (fx * fx + fz * fz),
{
    let a = dx * fz;
    let b = dz * fx;
    let c = dx * fx;
    let d = dz * fz;
    assert((a - b) * (a - b) == a * a - 2 * (a * b) + b * b) by (nonlinear_arith);
    assert((c + d) * (c + d) == c * c + 2 * (c * d) + d * d) by (nonlinear_arith);
    assert(a * b == c * d) by (nonlinear_arith)
        requires
            a == dx * fz,
            b == dz * fx,
            c == dx * fx,
            d == dz * fz,
    ;
    assert(a * a == (dx * dx) * (fz * fz)) by (nonlinear_arith)
        requires
            a == dx * fz,
    ;
    assert(b * b == (dz * dz) * (fx * fx)) by (nonlinear_arith)
        requires
            b == dz * fx,
    ;
    assert(c * c == (dx * dx) * (fx * fx)) by (nonlinear_arith)
        requires
            c == dx * fx,
    ;
    assert(d * d == (dz * dz) * (fz * fz)) by (nonlinear_arith)
        requires
            d == dz * fz,
    ;
    let dxx = dx * dx;
    let dzz = dz * dz;
    let fxx = fx * fx;
    let fzz = fz * fz;
    assert((dxx + dzz) * (fxx + fzz) == dxx * fxx + dxx * fzz + dzz * fxx + dzz * fzz)
        by (nonlinear_arith);
}

/// A target that lies farther from the craft over the ground than the
/// diagonal of the radar reaches has no dot, however the craft is turned: the
/// radar sees no farther than the square root of two times its range, and a
/// few millionths.
pub proof fn lemma_far_target_unseen(player: Pose, place: V3)
    requires
        ground_distance_sq(player, place) * DIRECTION_NORM_MIN > 2 * ((RADAR_RANGE + 1) * (
        RADAR_RANGE + 1)) * (ONE * ONE),
    ensures
        !in_radar_range(radar_offset(player, place)),
{
    let frame = radar_frame(player.rotation);
    lemma_radar_frame_is_unit(player.rotation);
    let dx = place.x - player.translation.x;
    let dz = place.z - player.translation.z;
    let offset = radar_offset(player, place);
    let one = ONE as int;
    let range = RADAR_RANGE as int;
    lemma_turn_keeps_distance(dx, dz, frame.x, frame.z);
    let nx = dx * frame.z - dz * frame.x;
    let nz = dx * frame.x + dz * frame.z;
    let ground = dx * dx + dz * dz;
    let length = frame.x * frame.x + frame.z * frame.z;
    assert(frame.len_sq() == length) by (nonlinear_arith)
        requires
            frame.len_sq() == frame.x * frame.x + frame.y * frame.y + frame.z * frame.z,
            frame.y == 0,
            length == frame.x * frame.x + frame.z * frame.z,
    ;
    if in_radar_range(offset) {
        lemma_square_of_dividend(nx, one, range);
        lemma_square_of_dividend(nz, one, range);
        let oo = one * one;
        let rr = (range + 1) * (range + 1);
        assert((offset.x * offset.x) * oo + (2 * range + 1) * oo <= rr * oo) by (nonlinear_arith)
            requires
                -range <= offset.x <= range,
                rr == (range + 1) * (range + 1),
                oo > 0,
        ;
        assert((offset.y * offset.y) * oo + (2 * range + 1) * oo <= rr * oo) by (nonlinear_arith)
            requires
                -range <= offset.y <= range,
                rr == (range + 1) * (range + 1),
                oo > 0,
        ;
        assert(oo > 0) by (nonlinear_arith)
            requires
                oo == one * one,
                one > 0,
        ;
        assert(ground * length <= 2 * (rr * oo));
        assert(ground >= 0) by (nonlinear_arith)
            requires
                ground == dx * dx + dz * dz,
        ;
        assert(ground * DIRECTION_NORM_MIN <= ground * length) by (nonlinear_arith)
            requires
                ground >= 0,
                length >= DIRECTION_NORM_MIN,
        ;
        assert(2 * (rr * oo) == 2 * rr * oo) by (nonlinear_arith);
    }
}

/// A target that lies nearer to the craft over the ground than the range of
/// the radar divided by the square root of two has a dot, however the craft
/// is turned.
pub proof fn lemma_near_target_seen(player: Pose, place: V3)
    requires
        2 * ground_distance_sq(player, place) <= RADAR_RANGE * RADAR_RANGE,
    ensures
        in_radar_range(radar_offset(player, place)),
{
    let frame = radar_frame(player.rotation);
    lemma_radar_frame_is_unit(player.rotation);
    let dx = place.x - player.translation.x;
    let dz = place.z - player.translation.z;
    let offset = radar_offset(player, place);
    let one = ONE as int;
    let range = RADAR_RANGE as int;
    lemma_turn_keeps_distance(dx, dz, frame.x, frame.z);
    let nx = dx * frame.z - dz * frame.x;
    let nz = dx * frame.x + dz * frame.z;
    let ground = dx * dx + dz * dz;
    let length = frame.x * frame.x + frame.z * frame.z;
    let oo = one * one;
    lemma_square_of_dividend(nx, one, 0);
    lemma_square_of_dividend(nz, one, 0);
    lemma_mul_within(frame.x, frame.x, one, one);
    lemma_mul_within(frame.z, frame.z, one, one);
    assert(nx * nx >= 0 && nz * nz >= 0 && ground >= 0) by (nonlinear_arith)
        requires
            ground == dx * dx + dz * dz,
    ;
    assert(ground * length <= ground * (2 * oo)) by (nonlinear_arith)
        requires
            ground >= 0,
            length <= 2 * oo,
    ;
    assert(ground * (2 * oo) == (2 * ground) * oo) by (nonlinear_arith);
    assert((2 * ground) * oo <= (range * range) * oo) by (nonlinear_arith)
        requires
            2 * ground <= range * range,
            oo >= 0,
    ;
    assert(oo > 0) by (nonlinear_arith)
        requires
            oo == one * one,
            one > 0,
    ;
    lemma_square_within(offset.x, range, oo);
    lemma_square_within(offset.y, range, oo);
}

/// A number whose square, at a scale, is at most the square of a bound at
/// that scale lies within the bound.
proof fn lemma_square_within(c: int, bound: int, scale: int)
    requires
        bound >= 0,
        scale > 0,
        (c * c) * scale <= (bound * bound) * scale,
    ensures
        -bound <= c <= bound,
{
    if c > bound || c < -bound {
        assert(c * c >= (bound + 1) * (bound + 1)) by (nonlinear_arith)
            requires
                c >= bound + 1 || c <= -(bound + 1),
                bound >= 0,
        ;
        assert((c * c) * scale > (bound * bound) * scale) by (nonlinear_arith)
            requires
                c * c >= (bound + 1) * (bound + 1),
                bound >= 0,
                scale > 0,
        ;
    }
}

/// Every reticle stands on the screen.
pub proof fn lemma_screen_marks_on_screen(projected: Seq<Option<Vec2>>, width: i64, height: i64)
    ensures
        forall|k: int|
            0 <= k < screen_marks(projected, width, height).len() ==> 0 <= (#[trigger] screen_marks(
                projected,
                width,
                height,
            )[k]).left <= width && 0 <= screen_marks(projected, width, height)[k].bottom <= height,
    decreases projected.len(),
{
    if projected.len() > 0 {
        lemma_screen_marks_on_screen(projected.drop_last(), width, height);
        let marks = screen_marks(projected, width, height);
        let rest = screen_marks(projected.drop_last(), width, height);
        assert forall|k: int| 0 <= k < marks.len() implies 0 <= (#[trigger] marks[k]).left <= width
            && 0 <= marks[k].bottom <= height by {
            if k < rest.len() {
                assert(marks[k] == rest[k]);
            }
        }
    }
}

/// Every dot stands on the radar: between nothing and a hundred percent of
/// its width along both axes.
pub proof fn lemma_radar_marks_on_radar(player: Pose, places: Seq<V3>)
    ensures
        forall|k: int|
            0 <= k < radar_marks(player, places).len() ==> (#[trigger] radar_marks(
                player,
                places,
            )[k]).within(RADAR_CENTER + RADAR_HALF_SPAN) && radar_marks(player, places)[k].x >= 0
                && radar_marks(player, places)[k].y >= 0,
    decreases places.len(),
{
    if places.len() > 0 {
        lemma_radar_marks_on_radar(player, places.drop_last());
        let offset = radar_offset(player, places.last());
        if in_radar_range(offset) {
            lemma_mul_within(
                offset.x,
                RADAR_HALF_SPAN as int,
                RADAR_RANGE as int,
                RADAR_HALF_SPAN as int,
            );
            lemma_mul_within(
                offset.y,
                RADAR_HALF_SPAN as int,
                RADAR_RANGE as int,
                RADAR_HALF_SPAN as int,
            );
            assert(RADAR_RANGE * RADAR_HALF_SPAN == RADAR_HALF_SPAN * RADAR_RANGE);
            lemma_trunc_div_within(
                offset.x * RADAR_HALF_SPAN,
                RADAR_RANGE as int,
                RADAR_HALF_SPAN as int,
            );
            lemma_trunc_div_within(
                offset.y * RADAR_HALF_SPAN,
                RADAR_RANGE as int,
                RADAR_HALF_SPAN as int,
            );
        }
        let marks = radar_marks(player, places);
        let rest = radar_marks(player, places.drop_last());
        assert forall|k: int| 0 <= k < marks.len() implies (#[trigger] marks[k]).within(
            RADAR_CENTER + RADAR_HALF_SPAN,
        ) && marks[k].x >= 0 && marks[k].y >= 0 by {
            if k < rest.len() {
                assert(marks[k] == rest[k]);
            }
        }
    }
}

/// There are no more dots than targets.
pub proof fn lemma_radar_marks_len(player: Pose, places: Seq<V3>)
    ensures
        radar_marks(player, places).len() <= places.len(),
    decreases places.len(),
{
    if places.len() > 0 {
        lemma_radar_marks_len(player, places.drop_last());
    }
}

/// A target beyond the range of the radar along either axis has no dot, and
/// a target within the range has one: a lone target gives no dot or one dot.
pub proof fn lemma_radar_sees_within_range(player: Pose, place: V3)
    ensures
        !in_radar_range(radar_offset(player, place)) ==> radar_marks(player, seq![place]).len()
            == 0,
        in_radar_range(radar_offset(player, place)) ==> radar_marks(player, seq![place]) == seq![
            radar_dot_of(radar_offset(player, place)),
        ],
{
    reveal_with_fuel(radar_marks, 2);
    assert(seq![place].drop_last() =~= Seq::<V3>::empty());
    assert(seq![place].last() == place);
    assert(Seq::<V2>::empty().push(radar_dot_of(radar_offset(player, place))) =~= seq![
        radar_dot_of(radar_offset(player, place)),
    ]);
}

/// Whether a further target has a dot depends on that target alone: the dots
/// of the targets before it stay as they are.
pub proof fn lemma_radar_marks_push(player: Pose, places: Seq<V3>, place: V3)
    ensures
        radar_marks(player, places.push(place)) == if in_radar_range(
            radar_offset(player, place),
        ) {
            radar_marks(player, places).push(radar_dot_of(radar_offset(player, place)))
        } else {
            radar_marks(player, places)
        },
{
    assert(places.push(place).drop_last() =~= places);
    assert(places.push(place).last() == place);
}

/// For a craft that is turned nowhere, the radar's first axis is the world's
/// third, reversed, and its second axis is the world's first: a target that
/// lies farther than the range along the world's first axis has no dot.
pub proof fn lemma_radar_of_level_craft(player: Pose, place: V3)
    requires
        player.rotation == Q4::identity(),
    ensures
        radar_offset(player, place) == (V2 {
            x: -(place.z - player.translation.z),
            y: place.x - player.translation.x,
        }),
        place.x - player.translation.x > RADAR_RANGE ==> !in_radar_range(
            radar_offset(player, place),
        ),
{
    lemma_identity_rotates_nothing(V3::unit_x());
    let level = V3 { x: ONE as int, y: 0, z: 0 };
    assert(level.len_sq() == ONE * ONE) by (nonlinear_arith)
        requires
            level.len_sq() == level.x * level.x + level.y * level.y + level.z * level.z,
            level.x == ONE,
            level.y == 0,
            level.z == 0,
    ;
    assert((ONE + 1) * (ONE + 1) > ONE * ONE) by (nonlinear_arith);
    lemma_isqrt_is(ONE * ONE, ONE as int);
    lemma_trunc_div_exact(ONE as int, ONE as int);
    assert(level.normalized() == level);
    let dx = place.x - player.translation.x;
    let dz = place.z - player.translation.z;
    assert(dx * 0 - dz * ONE == (-dz) * ONE) by (nonlinear_arith);
    assert(dx * ONE + dz * 0 == dx * ONE) by (nonlinear_arith);
    lemma_trunc_div_exact(-dz, ONE as int);
    lemma_trunc_div_exact(dx, ONE as int);
}

/// The reticles of a frame.
fn visible_points(projected: &Vec<Option<Vec2>>, width: i64, height: i64) -> (marks: Vec<UiTarget>)
    ensures
        marks@ == screen_marks(projected@, width, height),
{
    let mut marks: Vec<UiTarget> = Vec::new();
    let mut i: usize = 0;
    proof {
        assert(projected@.take(0) =~= Seq::<Option<Vec2>>::empty());
    }
    while i < projected.len()
        invariant
            0 <= i <= projected.len(),
            marks@ == screen_marks(projected@.take(i as int), width, height),
        decreases projected.len() - i,
    {
        proof {
            let next = projected@.take(i + 1);
            assert(next.drop_last() =~= projected@.take(i as int));
            assert(next.last() == projected[i as int]);
        }
        match projected[i] {
            Some(point) => {
                if 0 <= point.x && point.x <= width && 0 <= point.y && point.y <= height {
                    marks.push(UiTarget { left: point.x, bottom: point.y });
                }
            },
            None => {},
        }
        i = i + 1;
    }
    proof {
        assert(projected@.take(projected.len() as int) =~= projected@);
    }
    marks
}

/// One frame of the reticles. `projected` holds, for each target in the order
/// of the targets, the point of the screen to which the camera projects it,
/// or nothing where it has no such point. The targets whose point lies on the
/// screen of `width` by `height` pixels are marked; the pool is brought to
/// their number from its tail; and the reticles take their points in order.
/// The dots of the radar are left alone.
pub fn target_ui(
    ui_targets_res: &mut UiTargets,
    projected: &Vec<Option<Vec2>>,
    width: i64,
    height: i64,
) -> (change: PoolChange)
    ensures
        final(ui_targets_res).targets@ == screen_marks(projected@, width, height),
        final(ui_targets_res).radar_dots@ == old(ui_targets_res).radar_dots@,
        change == pool_change(
            old(ui_targets_res).targets@.len() as int,
            screen_marks(projected@, width, height).len() as int,
        ),
{
    let targets_to_draw = visible_points(projected, width, height);
    let mut removed: usize = 0;
    let mut created: usize = 0;
    let before: usize = ui_targets_res.targets.len();
    while ui_targets_res.targets.len() > targets_to_draw.len()
        invariant
            ui_targets_res.radar_dots@ == old(ui_targets_res).radar_dots@,
            before == old(ui_targets_res).targets@.len(),
            ui_targets_res.targets@.len() + removed == before,
            ui_targets_res.targets@.len() >= targets_to_draw@.len() || removed == 0,
        decreases ui_targets_res.targets@.len(),
    {
        ui_targets_res.targets.pop();
        removed = removed + 1;
    }
    while ui_targets_res.targets.len() < targets_to_draw.len()
        invariant
            ui_targets_res.radar_dots@ == old(ui_targets_res).radar_dots@,
            before == old(ui_targets_res).targets@.len(),
            ui_targets_res.targets@.len() + removed == before + created,
            ui_targets_res.targets@.len() <= targets_to_draw@.len(),
            removed == 0 || created == 0,
            removed > 0 ==> ui_targets_res.targets@.len() >= targets_to_draw@.len(),
        decreases targets_to_draw@.len() - ui_targets_res.targets@.len(),
    {
        ui_targets_res.targets.push(UiTarget { left: 0, bottom: 0 });
        created = created + 1;
    }
    let mut i: usize = 0;
    while i < targets_to_draw.len()
        invariant
            0 <= i <= targets_to_draw@.len(),
            ui_targets_res.radar_dots@ == old(ui_targets_res).radar_dots@,
            ui_targets_res.targets@.len() == targets_to_draw@.len(),
            forall|k: int| 0 <= k < i ==> ui_targets_res.targets@[k] == targets_to_draw@[k],
        decreases targets_to_draw@.len() - i,
    {
        ui_targets_res.targets.set(i, targets_to_draw[i]);
        i = i + 1;
    }
    proof {
        assert(ui_targets_res.targets@ =~= targets_to_draw@);
    }
    PoolChange { removed, created }
}

/// The direction in which the craft flies over the ground.
fn frame_of(player: &Transform) -> (r: Vec3)
    requires
        player.wf(),
    ensures
        r@ == radar_frame(player.rotation@),
        r@.within(ONE as int),
{
    let forward = nose_of(&player.rotation);
    let level = (Vec3 { x: forward.x, y: 0, z: forward.z }).normalize_or_zero();
    if level.x == 0 && level.z == 0 {
        Vec3 { x: 0, y: 0, z: ONE }
    } else {
        level
    }
}

/// Where a place lies on the radar, if the radar sees it.
fn radar_dot(player: &Transform, frame: &Vec3, place: &Vec3) -> (r: Option<RadarDot>)
    requires
        player.wf(),
        frame@ == radar_frame(player.rotation@),
        frame@.within(ONE as int),
        place@.within(WORLD_LIMIT as int),
    ensures
        match r {
            Some(dot) => in_radar_range(radar_offset(player@, place@)) && dot@ == radar_dot_of(
                radar_offset(player@, place@),
            ),
            None => !in_radar_range(radar_offset(player@, place@)),
        },
{
    let dx: i64 = place.x - player.translation.x;
    let dz: i64 = place.z - player.translation.z;
    proof {
        lemma_mul_within(dx as int, frame.z as int, 2 * WORLD_LIMIT, ONE as int);
        lemma_mul_within(dz as int, frame.x as int, 2 * WORLD_LIMIT, ONE as int);
        lemma_mul_within(dx as int, frame.x as int, 2 * WORLD_LIMIT, ONE as int);
        lemma_mul_within(dz as int, frame.z as int, 2 * WORLD_LIMIT, ONE as int);
        lemma_trunc_div_within(dx * frame.z - dz * frame.x, ONE as int, 4 * WORLD_LIMIT);
        lemma_trunc_div_within(dx * frame.x + dz * frame.z, ONE as int, 4 * WORLD_LIMIT);
    }
    let x: i128 = (mul_wide(dx, frame.z) - mul_wide(dz, frame.x)) / (ONE as i128);
    let y: i128 = (mul_wide(dx, frame.x) + mul_wide(dz, frame.z)) / (ONE as i128);
    if -(RADAR_RANGE as i128) <= x && x <= RADAR_RANGE as i128 && -(RADAR_RANGE as i128) <= y && y
        <= RADAR_RANGE as i128 {
        proof {
            lemma_mul_within(
                x as int,
                RADAR_HALF_SPAN as int,
                RADAR_RANGE as int,
                RADAR_HALF_SPAN as int,
            );
            lemma_mul_within(
                y as int,
                RADAR_HALF_SPAN as int,
                RADAR_RANGE as int,
                RADAR_HALF_SPAN as int,
            );
            assert(RADAR_RANGE * RADAR_HALF_SPAN == RADAR_HALF_SPAN * RADAR_RANGE);
            lemma_trunc_div_within(x * RADAR_HALF_SPAN, RADAR_RANGE as int, RADAR_HALF_SPAN as int);
            lemma_trunc_div_within(y * RADAR_HALF_SPAN, RADAR_RANGE as int, RADAR_HALF_SPAN as int);
        }
        let left: i128 = x * (RADAR_HALF_SPAN as i128) / (RADAR_RANGE as i128);
        let bottom: i128 = y * (RADAR_HALF_SPAN as i128) / (RADAR_RANGE as i128);
        Some(RadarDot { left: RADAR_CENTER + left as i64, bottom: RADAR_CENTER + bottom as i64 })
    } else {
        None
    }
}

/// The dots of a frame.
fn radar_points(player: &Transform, targets: &Vec<Target>) -> (marks: Vec<RadarDot>)
    requires
        player.wf(),
        forall|j: int| 0 <= j < targets.len() ==> (#[trigger] targets[j]).wf(),
    ensures
        dot_places(marks@) == radar_marks(player@, target_places(targets@)),
{
    let frame = frame_of(player);
    let mut marks: Vec<RadarDot> = Vec::new();
    let ghost places = target_places(targets@);
    let mut i: usize = 0;
    proof {
        assert(places.take(0) =~= Seq::<V3>::empty());
        assert(dot_places(marks@) =~= Seq::<V2>::empty());
    }
    while i < targets.len()
        invariant
            0 <= i <= targets.len(),
            player.wf(),
            frame@ == radar_frame(player.rotation@),
            frame@.within(ONE as int),
            places == target_places(targets@),
            forall|j: int| 0 <= j < targets.len() ==> (#[trigger] targets[j]).wf(),
            dot_places(marks@) == radar_marks(player@, places.take(i as int)),
        decreases targets.len() - i,
    {
        let place = targets[i].transform.translation;
        proof {
            let next = places.take(i + 1);
            assert(next.drop_last() =~= places.take(i as int));
            assert(next.last() == place@);
        }
        let ghost marks_before = dot_places(marks@);
        match radar_dot(player, &frame, &place) {
            Some(dot) => {
                marks.push(dot);
                proof {
                    assert(dot_places(marks@) =~= marks_before.push(dot@));
                }
            },
            None => {},
        }
        i = i + 1;
    }
    proof {
        assert(places.take(targets.len() as int) =~= places);
    }
    marks
}

/// One frame of the radar. The targets that lie within the radar's range of
/// the craft, along both of the radar's axes, are marked; the pool is brought
/// to their number from its tail; and the dots take their places in order.
/// Where there is no craft, nothing is done. The reticles are left alone.
pub fn radar(
    ui_targets_res: &mut UiTargets,
    player: Option<&Transform>,
    targets: &Vec<Target>,
) -> (change: PoolChange)
    requires
        player matches Some(p) ==> p.wf(),
        forall|j: int| 0 <= j < targets.len() ==> (#[trigger] targets[j]).wf(),
    ensures
        final(ui_targets_res).targets@ == old(ui_targets_res).targets@,
        match player {
            Some(p) => dot_places(final(ui_targets_res).radar_dots@) == radar_marks(
                p@,
                target_places(targets@),
            ) && change == pool_change(
                old(ui_targets_res).radar_dots@.len() as int,
                radar_marks(p@, target_places(targets@)).len() as int,
            ),
            None => final(ui_targets_res).radar_dots@ == old(ui_targets_res).radar_dots@ && change
                == pool_change(0, 0),
        },
{
    let p = match player {
        Some(p) => p,
        None => {
            return PoolChange { removed: 0, created: 0 };
        },
    };
    let targets_to_draw = radar_points(p, targets);
    let mut removed: usize = 0;
    let mut created: usize = 0;
    let before: usize = ui_targets_res.radar_dots.len();
    while ui_targets_res.radar_dots.len() > targets_to_draw.len()
        invariant
            ui_targets_res.targets@ == old(ui_targets_res).targets@,
            before == old(ui_targets_res).radar_dots@.len(),
            ui_targets_res.radar_dots@.len() + removed == before,
            ui_targets_res.radar_dots@.len() >= targets_to_draw@.len() || removed == 0,
        decreases ui_targets_res.radar_dots@.len(),
    {
        ui_targets_res.radar_dots.pop();
        removed = removed + 1;
    }
    while ui_targets_res.radar_dots.len() < targets_to_draw.len()
        invariant
            ui_targets_res.targets@ == old(ui_targets_res).targets@,
            before == old(ui_targets_res).radar_dots@.len(),
            ui_targets_res.radar_dots@.len() + removed == before + created,
            ui_targets_res.radar_dots@.len() <= targets_to_draw@.len(),
            removed == 0 || created == 0,
            removed > 0 ==> ui_targets_res.radar_dots@.len() >= targets_to_draw@.len(),
        decreases targets_to_draw@.len() - ui_targets_res.radar_dots@.len(),
    {
        ui_targets_res.radar_dots.push(RadarDot { left: RADAR_CENTER, bottom: RADAR_CENTER });
        created = created + 1;
    }
    let mut i: usize = 0;
    while i < targets_to_draw.len()
        invariant
            0 <= i <= targets_to_draw@.len(),
            ui_targets_res.targets@ == old(ui_targets_res).targets@,
            ui_targets_res.radar_dots@.len() == targets_to_draw@.len(),
            forall|k: int| 0 <= k < i ==> ui_targets_res.radar_dots@[k] == targets_to_draw@[k],
        decreases targets_to_draw@.len() - i,
    {
        ui_targets_res.radar_dots.set(i, targets_to_draw[i]);
        i = i + 1;
    }
    proof {
        assert(ui_targets_res.radar_dots@ =~= targets_to_draw@);
    }
    PoolChange { removed, created }
}

/// What the readout of speed and height shows.
#[derive(Clone, Copy, Debug, PartialEq, Eq, Structural)]
pub struct SpeedText {
    /// The speed, in the unit of the display, rounded to the nearest whole number.
    pub speed: i32,
    /// The height, in the unit of the display, with its fraction dropped.
    pub height: i32,
}

/// The speed that is displayed for a speed of the engine.
pub open spec fn displayed_speed(speed: int) -> int {
    (speed * DISPLAY_SPEED_FACTOR + ONE / 2) / (ONE as int)
}

/// The height that is displayed for a height of the engine: what fits the
/// display, its greatest or least number beyond that.
pub open spec fn displayed_height(height: int) -> int {
    clamp(
        trunc_div(height * DISPLAY_HEIGHT_FACTOR, ONE as int),
        i32::MIN as int,
        i32::MAX as int,
    )
}

/// The readout of speed and height for the craft, or nothing where there is no craft.
pub fn text_update_system(player: Option<&Player>) -> (r: Option<SpeedText>)
    requires
        player matches Some(p) ==> p.wf(),
    ensures
        match player {
            Some(p) => r matches Some(text) && text.speed == displayed_speed(p.velocity as int)
                && text.height == displayed_height(p.transform.translation.y as int),
            None => r.is_none(),
        },
{
    match player {
        None => None,
        Some(p) => {
            let speed: i64 = (p.velocity * DISPLAY_SPEED_FACTOR + ONE / 2) / ONE;
            let height: i64 = p.transform.translation.y * DISPLAY_HEIGHT_FACTOR / ONE;
            let shown: i64 = clamp_i128(height as i128, i32::MIN as i64, i32::MAX as i64);
            Some(SpeedText { speed: speed as i32, height: shown as i32 })
        },
    }
}

} // verus!
