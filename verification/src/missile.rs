//! Missile guidance.
//!
//! A missile is launched from one of two rails under the craft, flies along
//! its heading, steers toward its target as long as the target lies ahead of
//! it, gains speed up to a cap, and is removed when it comes close to its
//! target or when its time runs out. The orientation of a missile is the
//! rotation that carries the body's second axis onto its heading; the engine
//! keeps the heading itself.

use vstd::prelude::*;
use crate::fixed::{
    clamp, clamp_i128, lemma_mul_within, lemma_trunc_div_exact, lemma_trunc_div_within, trunc_div,
    ONE,
};
use crate::player::{nose, nose_of, Craft, Player, MAX_SPEED};
use crate::rotation::{lemma_rotate_within, lemma_rotation_within, Transform, WORLD_LIMIT};
use crate::unit_length::{is_direction, lemma_normalized_is_direction, DIRECTION_NORM_MIN};
use crate::vector::{
    lemma_normalized_within, lemma_scaled_within, lemma_travel_within, Vec3, V3,
};

verus! {

/// How long a missile flies, in millionths of a second.
pub const MISSILE_LIFETIME: i64 = 5_000_000;

/// The gain in speed of a missile per second.
pub const MISSILE_ACCEL: i64 = 50_000_000;

/// The speed beyond which a missile does not accelerate.
pub const MISSILE_MAX_SPEED: i64 = 400_000_000;

/// The rate at which a missile turns its heading toward its target.
pub const MISSILE_TURN_RATE: i64 = 1_500_000;

/// The distance from its target below which a missile is removed.
pub const MISSILE_PROXIMITY: i64 = 2_000_000;

/// The square of the proximity distance, at the scale of a product.
pub const MISSILE_PROXIMITY_SQ: u128 = 4_000_000_000_000;

/// How far below the craft the rails hang.
pub const RAIL_DROP: i64 = 500_000;

/// The room around the world in which missiles are launched.
pub const LAUNCH_MARGIN: i64 = 100_000_000;

/// The greatest speed of a craft or missile, in whole units per second.
pub const TOP_SPEED_UNITS: i64 = 750;

/// Something that missiles fly at and displays mark.
#[derive(Clone, Copy, Debug, PartialEq, Eq, Structural)]
pub struct Target {
    pub transform: Transform,
}

impl Target {
    /// The target lies in the world.
    pub open spec fn wf(&self) -> bool {
        self.transform.translation@.within(WORLD_LIMIT as int)
    }

    /// Whether the target lies in the world.
    pub fn is_valid(&self) -> (r: bool)
        ensures
            r == self.wf(),
    {
        self.transform.translation.is_within(WORLD_LIMIT)
    }
}

/// A missile, with unbounded coordinates.
pub struct MissileState {
    pub translation: V3,
    pub heading: V3,
    pub target: Option<usize>,
    pub speed: int,
    pub lifetime: int,
}

/// A missile in flight.
#[derive(Clone, Copy, Debug, PartialEq, Eq, Structural)]
pub struct Missile {
    /// Where the missile is.
    pub translation: Vec3,
    /// The direction in which it flies: of length one, or zero.
    pub heading: Vec3,
    /// The target that it steers toward, as a place in the list of targets.
    pub target: Option<usize>,
    /// Its speed along its heading.
    pub velocity: i64,
    /// The time it has left, in millionths of a second.
    pub lifetime: i64,
}

impl View for Missile {
    type V = MissileState;

    open spec fn view(&self) -> MissileState {
        MissileState {
            translation: self.translation@,
            heading: self.heading@,
            target: self.target,
            speed: self.velocity as int,
            lifetime: self.lifetime as int,
        }
    }
}

/// How far from the origin a missile can be, along any axis, that has
/// `lifetime` left: the edge of the world, the room for the launch, and the
/// way it can have made in the time it has spent.
pub open spec fn missile_reach(lifetime: int) -> int {
    WORLD_LIMIT + LAUNCH_MARGIN + TOP_SPEED_UNITS * (MISSILE_LIFETIME - if lifetime > 0 {
        lifetime
    } else {
        0
    })
}

impl Missile {
    /// The missile lies where a missile of its age can be, has a direction
    /// as its heading, a speed that a craft or a missile can have, and no
    /// more time left than a missile is launched with.
    pub open spec fn wf(&self) -> bool {
        &&& self.translation@.within(missile_reach(self.lifetime as int))
        &&& is_direction(self.heading@)
        &&& 0 <= self.velocity <= MAX_SPEED
        &&& self.lifetime <= MISSILE_LIFETIME
    }

    /// Whether the missile lies where a missile of its age can be, has a
    /// direction as its heading, a speed that a craft or a missile can have,
    /// and no more time left than a missile is launched with.
    pub fn is_valid(&self) -> (r: bool)
        ensures
            r == self.wf(),
    {
        if self.lifetime > MISSILE_LIFETIME {
            return false;
        }
        let spent: i64 = if self.lifetime > 0 {
            MISSILE_LIFETIME - self.lifetime
        } else {
            MISSILE_LIFETIME
        };
        let reach: i64 = WORLD_LIMIT + LAUNCH_MARGIN + TOP_SPEED_UNITS * spent;
        if !self.heading.is_within(ONE) {
            return false;
        }
        let heading_sq: u128 = self.heading.len_sq();
        self.translation.is_within(reach) && (heading_sq == 0 || heading_sq
            >= DIRECTION_NORM_MIN as u128) && 0 <= self.velocity && self.velocity <= MAX_SPEED
    }
}

/// The rail from which the next missile leaves: the two take turns.
pub open spec fn rail_side(missiles_fired: nat) -> int {
    if missiles_fired % 2 == 0 {
        ONE as int
    } else {
        -ONE
    }
}

/// The missile that a craft launches: from below the craft, to one side, with
/// the craft's nose as its heading, the craft's speed and the craft's target.
pub open spec fn launched(c: Craft) -> MissileState {
    MissileState {
        translation: c.pose.translation.minus(
            c.pose.rotation.rotate(V3::unit_y()).scaled(RAIL_DROP as int),
        ).plus(c.pose.rotation.rotate(V3::unit_z()).scaled(rail_side(c.missiles_fired))),
        heading: nose(c.pose.rotation).normalized(),
        target: c.target,
        speed: c.speed,
        lifetime: MISSILE_LIFETIME as int,
    }
}

/// The craft and the missiles it has launched after a run of readings of the
/// fire button: each reading above zero launches one missile.
pub open spec fn fired(c: Craft, events: Seq<i64>) -> (Craft, Seq<MissileState>)
    decreases events.len(),
{
    if events.len() == 0 {
        (c, Seq::empty())
    } else {
        let (before, missiles) = fired(c, events.drop_last());
        if events.last() > 0 {
            (
                Craft { missiles_fired: before.missiles_fired + 1, ..before },
                missiles.push(launched(before)),
            )
        } else {
            (before, missiles)
        }
    }
}

/// The missiles of a list, each with unbounded coordinates.
pub open spec fn missile_views(missiles: Seq<Missile>) -> Seq<MissileState> {
    missiles.map_values(|m: Missile| m@)
}

/// The places of the targets of a list.
pub open spec fn target_places(targets: Seq<Target>) -> Seq<V3> {
    targets.map_values(|t: Target| t.transform.translation@)
}

/// The place of the target that a missile steers toward, if it has one that
/// is in the list.
pub open spec fn goal_of(target: Option<usize>, places: Seq<V3>) -> Option<V3> {
    match target {
        Some(i) => if i < places.len() {
            Some(places[i as int])
        } else {
            None
        },
        None => None,
    }
}

/// The direction that a missile wants: toward its target, or straight on
/// where it has none.
pub open spec fn aim(m: MissileState, goal: Option<V3>) -> V3 {
    match goal {
        Some(place) => place.minus(m.translation).normalized(),
        None => m.heading,
    }
}

/// The target lies ahead: the wanted direction is less than a right angle
/// away from the heading.
pub open spec fn lies_ahead(heading: V3, wanted: V3) -> bool {
    heading.dot(wanted) > 0
}

/// The fraction of the way toward the wanted direction that a missile turns in one frame.
pub open spec fn turn_fraction(dt: int) -> int {
    trunc_div(dt * MISSILE_TURN_RATE, ONE as int)
}

/// The heading after one frame: blended toward the wanted direction where
/// that lies ahead, else unchanged.
pub open spec fn steered(heading: V3, wanted: V3, dt: int) -> V3 {
    if lies_ahead(heading, wanted) {
        heading.lerp(wanted, turn_fraction(dt)).normalized()
    } else {
        heading
    }
}

/// The speed of a missile after one frame.
pub open spec fn boosted(speed: int, dt: int) -> int {
    clamp(speed + trunc_div(dt * MISSILE_ACCEL, ONE as int), 0, MISSILE_MAX_SPEED as int)
}

/// A missile after one frame: it flies along its new heading at the speed it had.
pub open spec fn guided(m: MissileState, goal: Option<V3>, dt: int) -> MissileState {
    let heading = steered(m.heading, aim(m, goal), dt);
    MissileState {
        translation: m.translation.plus(heading.travel(m.speed, dt)),
        heading,
        target: m.target,
        speed: boosted(m.speed, dt),
        lifetime: m.lifetime - dt,
    }
}

/// The missile, as it is after the frame, is to be removed: it is close to
/// its target, or its time has run out.
pub open spec fn spent(after: MissileState, goal: Option<V3>) -> bool {
    ||| after.lifetime < 0
    ||| (goal matches Some(place) && place.minus(after.translation).len_sq()
        < MISSILE_PROXIMITY_SQ)
}

/// The missiles that are left after one frame, in their order.
pub open spec fn survivors(missiles: Seq<MissileState>, places: Seq<V3>, dt: int) -> Seq<
    MissileState,
>
    decreases missiles.len(),
{
    if missiles.len() == 0 {
        Seq::empty()
    } else {
        let rest = survivors(missiles.drop_last(), places, dt);
        let goal = goal_of(missiles.last().target, places);
        let after = guided(missiles.last(), goal, dt);
        if spent(after, goal) {
            rest
        } else {
            rest.push(after)
        }
    }
}

/// A missile whose target does not lie ahead of it, at a right angle or
/// more from its heading, keeps its heading through the frame.
pub proof fn lemma_no_turn_unless_ahead(m: MissileState, goal: Option<V3>, dt: int)
    requires
        m.heading.dot(aim(m, goal)) <= 0,
    ensures
        guided(m, goal, dt).heading == m.heading,
{
}

/// A missile whose time has run out is removed: it is not among the
/// survivors of the frame, wherever its target is.
pub proof fn lemma_removed_when_time_is_out(m: MissileState, places: Seq<V3>, dt: int)
    requires
        m.lifetime < 0,
        dt >= 0,
    ensures
        spent(guided(m, goal_of(m.target, places), dt), goal_of(m.target, places)),
        survivors(seq![m], places, dt) == Seq::<MissileState>::empty(),
{
    reveal_with_fuel(survivors, 2);
    assert(seq![m].drop_last() =~= Seq::<MissileState>::empty());
    assert(seq![m].last() == m);
}

/// A missile that the frame brings closer to its target than the proximity
/// distance is removed: it is not among the survivors of the frame.
pub proof fn lemma_removed_when_close(m: MissileState, places: Seq<V3>, dt: int)
    requires
        m.target matches Some(i) && i < places.len() && places[i as int].minus(
            guided(m, Some(places[i as int]), dt).translation,
        ).len_sq() < MISSILE_PROXIMITY_SQ,
    ensures
        spent(guided(m, goal_of(m.target, places), dt), goal_of(m.target, places)),
        survivors(seq![m], places, dt) == Seq::<MissileState>::empty(),
{
    reveal_with_fuel(survivors, 2);
    assert(seq![m].drop_last() =~= Seq::<MissileState>::empty());
    assert(seq![m].last() == m);
}

/// A missile with no target in the list is removed by nothing but its time.
pub proof fn lemma_ballistic_until_time_is_out(m: MissileState, places: Seq<V3>, dt: int)
    requires
        goal_of(m.target, places).is_none(),
    ensures
        spent(guided(m, None, dt), None) <==> m.lifetime - dt < 0,
        guided(m, None, dt).translation == m.translation.plus(
            steered(m.heading, m.heading, dt).travel(m.speed, dt),
        ),
{
}

/// A missile that does not move in the frame, for want of speed or of time,
/// and lies closer to its target than the proximity distance is removed.
pub proof fn lemma_removed_when_resting_close(m: MissileState, places: Seq<V3>, dt: int)
    requires
        m.speed * dt == 0,
        m.target matches Some(i) && i < places.len() && places[i as int].minus(
            m.translation,
        ).len_sq() < MISSILE_PROXIMITY_SQ,
    ensures
        guided(m, goal_of(m.target, places), dt).translation == m.translation,
        spent(guided(m, goal_of(m.target, places), dt), goal_of(m.target, places)),
{
    let goal = goal_of(m.target, places);
    let heading = steered(m.heading, aim(m, goal), dt);
    assert(heading.times(0) == V3::zero()) by (nonlinear_arith)
        requires
            heading.times(0) == (V3 { x: heading.x * 0, y: heading.y * 0, z: heading.z * 0 }),
    ;
    assert(m.translation.plus(V3::zero()) == m.translation);
}

/// The time that a run of frames takes.
pub open spec fn total_time(frames: Seq<int>) -> int
    decreases frames.len(),
{
    if frames.len() == 0 {
        0
    } else {
        total_time(frames.drop_last()) + frames.last()
    }
}

/// One missile over a run of frames, of which frame `i` lasts `frames[i]`
/// and finds the target at `goals[i]`: the missile as it is after the last
/// frame, or nothing once a frame has removed it.
pub open spec fn flown_on(m: MissileState, goals: Seq<Option<V3>>, frames: Seq<int>) -> Option<
    MissileState,
>
    decreases frames.len(),
{
    if frames.len() == 0 {
        Some(m)
    } else {
        match flown_on(m, goals.drop_last(), frames.drop_last()) {
            None => None,
            Some(before) => {
                let after = guided(before, goals.last(), frames.last());
                if spent(after, goals.last()) {
                    None
                } else {
                    Some(after)
                }
            },
        }
    }
}

/// The time of a missile is a countdown: a missile that is still there
/// after a run of frames has the time left that it had, less the time of the
/// run, and that is not negative. So no missile outlives its time.
pub proof fn lemma_missile_counts_down(m: MissileState, goals: Seq<Option<V3>>, frames: Seq<int>)
    requires
        goals.len() == frames.len(),
        forall|i: int| 0 <= i < frames.len() ==> frames[i] >= 0,
    ensures
        flown_on(m, goals, frames) matches Some(after) ==> after.lifetime == m.lifetime
            - total_time(frames) && (frames.len() > 0 ==> after.lifetime >= 0),
        total_time(frames) > m.lifetime && m.lifetime >= 0 ==> flown_on(m, goals, frames).is_none(),
    decreases frames.len(),
{
    if frames.len() > 0 {
        lemma_missile_counts_down(m, goals.drop_last(), frames.drop_last());
    }
}

/// A missile without a target is removed by its time alone: it is still
/// there after a run of frames exactly if the run takes no longer than the
/// time it had.
pub proof fn lemma_ballistic_lives_its_time(m: MissileState, frames: Seq<int>)
    requires
        forall|i: int| 0 <= i < frames.len() ==> frames[i] >= 0,
        m.lifetime >= 0,
    ensures
        flown_on(m, Seq::new(frames.len(), |i: int| None::<V3>), frames).is_some()
            <==> total_time(frames) <= m.lifetime,
    decreases frames.len(),
{
    let goals = Seq::new(frames.len(), |i: int| None::<V3>);
    if frames.len() > 0 {
        let earlier = frames.drop_last();
        assert(goals.drop_last() =~= Seq::new(earlier.len(), |i: int| None::<V3>));
        lemma_ballistic_lives_its_time(m, earlier);
        lemma_missile_counts_down(m, goals.drop_last(), earlier);
        assert(goals.last().is_none());
        assert(frames.last() >= 0);
    }
}

/// The speed of a missile never falls below what it was, up to the cap.
pub proof fn lemma_speed_never_falls(speed: int, dt: int)
    requires
        0 <= speed <= MISSILE_MAX_SPEED,
        dt >= 0,
    ensures
        speed <= boosted(speed, dt) <= MISSILE_MAX_SPEED,
{
    assert(dt * MISSILE_ACCEL >= 0) by (nonlinear_arith)
        requires
            dt >= 0,
    ;
}

/// The missile that the craft launches next.
pub fn launch(player: &Player) -> (r: Missile)
    requires
        player.wf(),
    ensures
        r@ == launched(player@),
        r.wf(),
{
    let rotation = &player.transform.rotation;
    let up = Vec3 { x: 0, y: ONE, z: 0 };
    let side = Vec3 { x: 0, y: 0, z: ONE };
    let sign: i64 = if player.missiles_fired % 2 == 0 {
        ONE
    } else {
        -ONE
    };
    proof {
        lemma_rotation_within(rotation@);
        lemma_rotate_within(rotation@, up@, ONE as int);
        lemma_rotate_within(rotation@, side@, ONE as int);
        lemma_scaled_within(rotation@.rotate(up@), RAIL_DROP as int, 13 * ONE, RAIL_DROP as int);
        lemma_scaled_within(rotation@.rotate(side@), sign as int, 13 * ONE, ONE as int);
        lemma_trunc_div_exact((13 * RAIL_DROP) as int, ONE as int);
        lemma_trunc_div_exact((13 * ONE) as int, ONE as int);
        assert((13 * ONE) * RAIL_DROP == (13 * RAIL_DROP) * ONE);
        assert((13 * ONE) * ONE == (13 * ONE) * ONE);
    }
    let drop = rotation.rotate(&up).scaled(RAIL_DROP);
    let out = rotation.rotate(&side).scaled(sign);
    let forward = nose_of(rotation);
    proof {
        lemma_normalized_is_direction(forward@);
    }
    Missile {
        translation: player.transform.translation.minus(&drop).plus(&out),
        heading: forward.normalize_or_zero(),
        target: player.target,
        velocity: player.velocity,
        lifetime: MISSILE_LIFETIME,
    }
}

/// Launches one missile for each reading of the fire button that is above
/// zero, in the order of the readings, and counts them.
pub fn fire_missle(player: &mut Player, fire_events: &Vec<i64>, missiles: &mut Vec<Missile>)
    requires
        old(player).wf(),
        old(player).missiles_fired + fire_events.len() <= u32::MAX,
    ensures
        final(player)@ == fired(old(player)@, fire_events@).0,
        missile_views(final(missiles)@) == missile_views(old(missiles)@) + fired(
            old(player)@,
            fire_events@,
        ).1,
        final(player).wf(),
        forall|i: int|
            0 <= i < old(missiles).len() ==> (#[trigger] final(missiles)[i]) == old(missiles)[i],
        forall|i: int|
            old(missiles).len() <= i < final(missiles).len() ==> (#[trigger] final(missiles)[i])
                .wf(),
{
    let mut i: usize = 0;
    let ghost before = missiles@;
    proof {
        assert(fire_events@.take(0) =~= Seq::<i64>::empty());
        assert(missile_views(before) + Seq::<MissileState>::empty() =~= missile_views(before));
    }
    while i < fire_events.len()
        invariant
            0 <= i <= fire_events.len(),
            player.wf(),
            before == old(missiles)@,
            player.missiles_fired <= old(player).missiles_fired + i,
            old(player).missiles_fired + fire_events.len() <= u32::MAX,
            player@ == fired(old(player)@, fire_events@.take(i as int)).0,
            missile_views(missiles@) == missile_views(before) + fired(
                old(player)@,
                fire_events@.take(i as int),
            ).1,
            missiles.len() >= before.len(),
            forall|k: int| 0 <= k < before.len() ==> (#[trigger] missiles[k]) == before[k],
            forall|k: int| before.len() <= k < missiles.len() ==> (#[trigger] missiles[k]).wf(),
        decreases fire_events.len() - i,
    {
        let value: i64 = fire_events[i];
        let ghost taken = fire_events@.take(i as int);
        let ghost next = fire_events@.take(i + 1);
        proof {
            assert(next.drop_last() =~= taken);
            assert(next.last() == value);
        }
        if value > 0 {
            let missile = launch(player);
            let ghost views_before = missile_views(missiles@);
            missiles.push(missile);
            player.missiles_fired = player.missiles_fired + 1;
            proof {
                assert(missile_views(missiles@) =~= views_before.push(missile@));
                assert(views_before.push(missile@) =~= missile_views(before) + fired(
                    old(player)@,
                    taken,
                ).1.push(missile@));
            }
        }
        i = i + 1;
    }
    proof {
        assert(fire_events@.take(fire_events.len() as int) =~= fire_events@);
    }
}

/// The place of the target that a missile steers toward, if it has one that is in the list.
fn find_goal(target: Option<usize>, targets: &Vec<Target>) -> (r: Option<Vec3>)
    ensures
        match r {
            Some(place) => goal_of(target, target_places(targets@)) == Some(place@),
            None => goal_of(target, target_places(targets@)).is_none(),
        },
        r matches Some(place) ==> exists|j: int|
            0 <= j < targets.len() && (#[trigger] targets[j]).transform.translation == place,
{
    match target {
        Some(i) => if i < targets.len() {
            Some(targets[i].transform.translation)
        } else {
            None
        },
        None => None,
    }
}

/// The heading of a missile after one frame.
fn steer(heading: &Vec3, wanted: &Vec3, dt: u32) -> (r: Vec3)
    requires
        is_direction(heading@),
        wanted@.within(ONE as int),
    ensures
        r@ == steered(heading@, wanted@, dt as int),
        is_direction(r@),
{
    if heading.dot(wanted) > 0 {
        proof {
            lemma_mul_within(
                dt as int,
                MISSILE_TURN_RATE as int,
                0x1_0000_0000,
                MISSILE_TURN_RATE as int,
            );
            lemma_trunc_div_within(dt * MISSILE_TURN_RATE, ONE as int, 6_442_450_944);
            assert(dt * MISSILE_TURN_RATE >= 0) by (nonlinear_arith)
                requires
                    dt >= 0,
            ;
        }
        let fraction: i128 = (dt as i128) * (MISSILE_TURN_RATE as i128) / (ONE as i128);
        let gap = wanted.minus(heading);
        proof {
            lemma_scaled_within(gap@, fraction as int, 2 * ONE, 6_442_450_944);
            lemma_trunc_div_exact(12_884_901_888int, ONE as int);
            assert((2 * ONE) * 6_442_450_944 == 12_884_901_888int * ONE);
            lemma_normalized_is_direction(heading@.lerp(wanted@, fraction as int));
        }
        let blend = heading.plus(&gap.scaled(fraction as i64));
        blend.normalize_or_zero()
    } else {
        *heading
    }
}

/// One missile after one frame, and whether it is to be removed.
pub fn guide(missile: &Missile, goal: Option<Vec3>, dt: u32) -> (r: (Missile, bool))
    requires
        missile.wf(),
        goal matches Some(place) ==> place@.within(WORLD_LIMIT as int),
    ensures
        r.1 == spent(guided(missile@, option_view(goal), dt as int), option_view(goal)),
        !r.1 ==> r.0@ == guided(missile@, option_view(goal), dt as int) && r.0.wf(),
        r.1 ==> r.0 == *missile,
{
    let wanted = match goal {
        Some(place) => place.minus(&missile.translation).normalize_or_zero(),
        None => missile.heading,
    };
    let heading = steer(&missile.heading, &wanted, dt);
    let step = heading.travel(missile.velocity, dt);
    proof {
        assert(missile.velocity * dt <= (TOP_SPEED_UNITS * dt) * ONE) by (nonlinear_arith)
            requires
                0 <= missile.velocity <= MAX_SPEED,
                MAX_SPEED == TOP_SPEED_UNITS * ONE,
                dt >= 0,
        ;
        lemma_travel_within(heading@, missile.velocity as int, dt as int, TOP_SPEED_UNITS * dt);
        lemma_mul_within(dt as int, MISSILE_ACCEL as int, 0x1_0000_0000, MISSILE_ACCEL as int);
        lemma_trunc_div_within(dt * MISSILE_ACCEL, ONE as int, 214_748_364_800);
    }
    let translation = missile.translation.plus(&step);
    let gained: i128 = (dt as i128) * (MISSILE_ACCEL as i128) / (ONE as i128);
    let velocity = clamp_i128(missile.velocity as i128 + gained, 0, MISSILE_MAX_SPEED);
    let lifetime: i128 = missile.lifetime as i128 - dt as i128;
    let close = match goal {
        Some(place) => {
            let gap = place.minus(&translation);
            gap.len_sq() < MISSILE_PROXIMITY_SQ
        },
        None => false,
    };
    if close || lifetime < 0 {
        (*missile, true)
    } else {
        (
            Missile {
                translation,
                heading,
                target: missile.target,
                velocity,
                lifetime: lifetime as i64,
            },
            false,
        )
    }
}

/// The place that stands behind an optional vector.
pub open spec fn option_view(place: Option<Vec3>) -> Option<V3> {
    match place {
        Some(p) => Some(p@),
        None => None,
    }
}

/// One frame of every missile. Each steers, flies, gains speed and ages; those
/// that come close to their target or run out of time are removed, and the
/// rest stay in their order. A missile whose target is not in the list flies
/// straight on. The result says of each missile of the old list whether it
/// was removed.
pub fn missle_run(missiles: &mut Vec<Missile>, targets: &Vec<Target>, dt: u32) -> (removed: Vec<
    bool,
>)
    requires
        forall|i: int| 0 <= i < old(missiles).len() ==> (#[trigger] old(missiles)[i]).wf(),
        forall|j: int| 0 <= j < targets.len() ==> (#[trigger] targets[j]).wf(),
    ensures
        missile_views(final(missiles)@) == survivors(
            missile_views(old(missiles)@),
            target_places(targets@),
            dt as int,
        ),
        removed.len() == old(missiles).len(),
        forall|i: int|
            0 <= i < old(missiles).len() ==> (#[trigger] removed[i]) == spent(
                guided(
                    old(missiles)[i]@,
                    goal_of(old(missiles)[i].target, target_places(targets@)),
                    dt as int,
                ),
                goal_of(old(missiles)[i].target, target_places(targets@)),
            ),
        forall|i: int| 0 <= i < final(missiles).len() ==> (#[trigger] final(missiles)[i]).wf(),
{
    let mut kept: Vec<Missile> = Vec::new();
    let mut removed: Vec<bool> = Vec::new();
    let ghost places = target_places(targets@);
    let ghost views = missile_views(missiles@);
    let mut i: usize = 0;
    proof {
        assert(views.take(0) =~= Seq::<MissileState>::empty());
        assert(missile_views(kept@) =~= Seq::<MissileState>::empty());
    }
    while i < missiles.len()
        invariant
            0 <= i <= missiles.len(),
            *missiles == *old(missiles),
            places == target_places(targets@),
            views == missile_views(missiles@),
            forall|k: int| 0 <= k < missiles.len() ==> (#[trigger] missiles[k]).wf(),
            forall|j: int| 0 <= j < targets.len() ==> (#[trigger] targets[j]).wf(),
            missile_views(kept@) == survivors(views.take(i as int), places, dt as int),
            removed.len() == i,
            forall|k: int|
                0 <= k < i ==> (#[trigger] removed[k]) == spent(
                    guided(missiles[k]@, goal_of(missiles[k].target, places), dt as int),
                    goal_of(missiles[k].target, places),
                ),
            forall|k: int| 0 <= k < kept.len() ==> (#[trigger] kept[k]).wf(),
        decreases missiles.len() - i,
    {
        let missile = missiles[i];
        let goal = find_goal(missile.target, targets);
        let (after, gone) = guide(&missile, goal, dt);
        proof {
            let next = views.take(i + 1);
            assert(next.drop_last() =~= views.take(i as int));
            assert(next.last() == missile@);
            assert(option_view(goal) == goal_of(missile.target, places));
        }
        let ghost kept_before = missile_views(kept@);
        if !gone {
            kept.push(after);
            proof {
                assert(missile_views(kept@) =~= kept_before.push(after@));
            }
        }
        removed.push(gone);
        i = i + 1;
    }
    proof {
        assert(views.take(missiles.len() as int) =~= views);
    }
    *missiles = kept;
    removed
}

} // verus!
