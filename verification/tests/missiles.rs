use ace_flight::fixed::ONE;
use ace_flight::missile::{
    fire_missle, guide, launch, missle_run, Missile, Target, LAUNCH_MARGIN, MISSILE_LIFETIME,
    MISSILE_MAX_SPEED,
};
use ace_flight::player::{Player, MAX_SPEED};
use ace_flight::rotation::{Quat, Transform, WORLD_LIMIT};
use ace_flight::vector::Vec3;

const QUARTER_TURN_Z: Quat = Quat { x: 0, y: 0, z: 707_107, w: 707_107 };
const FRAME: u32 = 16_667;

fn craft(rotation: Quat, missiles_fired: u32) -> Player {
    Player {
        transform: Transform { translation: Vec3::new(10 * ONE, 20 * ONE, 30 * ONE), rotation },
        velocity: 120_000_000,
        missiles_fired,
        target: Some(1),
    }
}

fn missile_heading_x(target: Option<usize>) -> Missile {
    Missile {
        translation: Vec3::zero(),
        heading: Vec3::new(ONE, 0, 0),
        target,
        velocity: 100_000_000,
        lifetime: MISSILE_LIFETIME,
    }
}

fn target_at(x: i64, y: i64, z: i64) -> Target {
    Target { transform: Transform::from_translation(Vec3::new(x, y, z)) }
}

#[test]
fn missile_leaves_the_first_rail() {
    let missile = launch(&craft(Quat::identity(), 0));
    assert_eq!(
        missile,
        Missile {
            translation: Vec3 { x: 10 * ONE, y: 19_500_000, z: 31 * ONE },
            heading: Vec3 { x: ONE, y: 0, z: 0 },
            target: Some(1),
            velocity: 120_000_000,
            lifetime: 5_000_000,
        }
    );
    assert!(missile.is_valid());
}

#[test]
fn missile_leaves_the_second_rail() {
    let missile = launch(&craft(Quat::identity(), 1));
    assert_eq!(missile.translation, Vec3 { x: 10 * ONE, y: 19_500_000, z: 29 * ONE });
    assert_eq!(missile.heading, Vec3 { x: ONE, y: 0, z: 0 });
}

#[test]
fn rails_turn_with_the_craft() {
    let first = launch(&craft(QUARTER_TURN_Z, 0));
    assert_eq!(first.translation, Vec3 { x: 10_500_000, y: 20 * ONE, z: 31 * ONE });
    assert_eq!(first.heading, Vec3 { x: 0, y: ONE, z: 0 });
    let second = launch(&craft(QUARTER_TURN_Z, 1));
    assert_eq!(second.translation, Vec3 { x: 10_500_000, y: 20 * ONE, z: 29 * ONE });
}

#[test]
fn each_reading_above_zero_fires_one_missile() {
    let mut player = craft(Quat::identity(), 0);
    let mut missiles = vec![missile_heading_x(None)];
    fire_missle(&mut player, &vec![ONE, 0, -ONE, 1, 500_000], &mut missiles);
    assert_eq!(player.missiles_fired, 3);
    assert_eq!(missiles.len(), 4);
    assert_eq!(missiles[0], missile_heading_x(None));
    assert_eq!(missiles[1].translation.z, 31 * ONE);
    assert_eq!(missiles[2].translation.z, 29 * ONE);
    assert_eq!(missiles[3].translation.z, 31 * ONE);
    for missile in &missiles[1..] {
        assert_eq!(missile.target, Some(1));
        assert_eq!(missile.velocity, 120_000_000);
        assert_eq!(missile.lifetime, MISSILE_LIFETIME);
        assert!(missile.is_valid());
    }
    assert_eq!(player.transform, craft(Quat::identity(), 0).transform);
    assert_eq!(player.velocity, 120_000_000);
    assert_eq!(player.target, Some(1));
}

#[test]
fn no_reading_fires_nothing() {
    let mut player = craft(Quat::identity(), 7);
    let mut missiles: Vec<Missile> = Vec::new();
    fire_missle(&mut player, &Vec::new(), &mut missiles);
    assert_eq!(player.missiles_fired, 7);
    assert!(missiles.is_empty());
    fire_missle(&mut player, &vec![0, -5], &mut missiles);
    assert_eq!(player.missiles_fired, 7);
    assert!(missiles.is_empty());
}

#[test]
fn missile_steers_toward_a_target_ahead() {
    let goal = Vec3::new(100 * ONE, 100 * ONE, 0);
    let (after, gone) = guide(&missile_heading_x(Some(0)), Some(goal), FRAME);
    assert!(!gone);
    assert_eq!(
        after,
        Missile {
            translation: Vec3 { x: 1_666_434, y: 29_673, z: 0 },
            heading: Vec3 { x: 999_841, y: 17_804, z: 0 },
            target: Some(0),
            velocity: 100_833_350,
            lifetime: 4_983_333,
        }
    );
    assert!(after.is_valid());
}

#[test]
fn missile_does_not_turn_toward_a_target_behind() {
    let goal = Vec3::new(-100 * ONE, 10 * ONE, 0);
    let (after, gone) = guide(&missile_heading_x(Some(0)), Some(goal), FRAME);
    assert!(!gone);
    assert_eq!(after.heading, Vec3 { x: ONE, y: 0, z: 0 });
    assert_eq!(after.translation, Vec3 { x: 1_666_700, y: 0, z: 0 });
}

#[test]
fn missile_does_not_turn_toward_a_target_at_a_right_angle() {
    let goal = Vec3::new(0, 100 * ONE, 0);
    let (after, _) = guide(&missile_heading_x(Some(0)), Some(goal), FRAME);
    assert_eq!(after.heading, Vec3 { x: ONE, y: 0, z: 0 });
}

#[test]
fn missile_without_target_flies_straight() {
    let start = Missile {
        translation: Vec3::zero(),
        heading: Vec3::new(600_000, 800_000, 0),
        target: None,
        velocity: 100_000_000,
        lifetime: 1_000_000,
    };
    let (after, gone) = guide(&start, None, 1_000_000);
    assert!(!gone);
    assert_eq!(
        after,
        Missile {
            translation: Vec3 { x: 60 * ONE, y: 80 * ONE, z: 0 },
            heading: Vec3 { x: 600_000, y: 800_000, z: 0 },
            target: None,
            velocity: 150_000_000,
            lifetime: 0,
        }
    );
}

#[test]
fn a_long_frame_turns_past_the_wanted_direction() {
    let goal = Vec3::new(100 * ONE, 100 * ONE, 0);
    let (after, _) = guide(&missile_heading_x(Some(0)), Some(goal), 1_000_000);
    assert_eq!(after.heading, Vec3 { x: 467_323, y: 884_086, z: 0 });
    assert_eq!(after.translation, Vec3 { x: 46_732_300, y: 88_408_600, z: 0 });
    assert_eq!(after.lifetime, 4_000_000);
}

#[test]
fn missile_gains_speed_up_to_the_cap() {
    let mut missile = missile_heading_x(None);
    missile.velocity = 399_999_999;
    assert_eq!(guide(&missile, None, FRAME).0.velocity, MISSILE_MAX_SPEED);
    missile.velocity = MISSILE_MAX_SPEED;
    assert_eq!(guide(&missile, None, FRAME).0.velocity, MISSILE_MAX_SPEED);
    missile.velocity = 0;
    assert_eq!(guide(&missile, None, 0).0.velocity, 0);
    assert_eq!(guide(&missile, None, FRAME).0.velocity, 833_350);
}

#[test]
fn a_missile_launched_faster_than_the_cap_is_brought_to_the_cap() {
    let mut missile = missile_heading_x(None);
    missile.velocity = MAX_SPEED;
    let (after, _) = guide(&missile, None, FRAME);
    assert_eq!(after.velocity, MISSILE_MAX_SPEED);
    assert_eq!(after.translation, Vec3 { x: 12_500_250, y: 0, z: 0 });
}

#[test]
fn missile_is_removed_close_to_its_target() {
    let (after, gone) = guide(&missile_heading_x(Some(0)), Some(Vec3::new(3 * ONE, 0, 0)), FRAME);
    assert!(gone);
    assert_eq!(after, missile_heading_x(Some(0)));
}

#[test]
fn proximity_is_strictly_below_two_units() {
    let at_two = Vec3::new(3_666_700, 0, 0);
    assert!(!guide(&missile_heading_x(Some(0)), Some(at_two), FRAME).1);
    let below_two = Vec3::new(3_666_699, 0, 0);
    assert!(guide(&missile_heading_x(Some(0)), Some(below_two), FRAME).1);
}

#[test]
fn a_resting_missile_within_reach_of_its_target_is_removed() {
    let mut missile = missile_heading_x(Some(0));
    missile.velocity = 0;
    let goal = Vec3::new(ONE, ONE, ONE);
    assert!(guide(&missile, Some(goal), FRAME).1);
    assert!(guide(&missile, Some(goal), 0).1);
}

#[test]
fn a_fast_missile_can_fly_through_the_proximity_of_its_target() {
    let mut missile = missile_heading_x(Some(0));
    missile.velocity = MISSILE_MAX_SPEED;
    let (after, gone) = guide(&missile, Some(Vec3::new(ONE, 0, 0)), FRAME);
    assert!(!gone);
    assert_eq!(after.translation, Vec3 { x: 6_666_800, y: 0, z: 0 });
}

#[test]
fn missile_is_removed_when_its_time_is_out() {
    let mut missile = missile_heading_x(Some(0));
    missile.lifetime = -1;
    assert!(guide(&missile, Some(Vec3::new(500 * ONE, 0, 0)), FRAME).1);
    assert!(guide(&missile, None, FRAME).1);
    assert!(guide(&missile, None, 0).1);
}

#[test]
fn the_last_frame_of_a_missile() {
    let mut missile = missile_heading_x(None);
    missile.lifetime = 16_667;
    let (after, gone) = guide(&missile, None, FRAME);
    assert!(!gone);
    assert_eq!(after.lifetime, 0);
    let (_, gone) = guide(&after, None, 1);
    assert!(gone);
    missile.lifetime = 16_666;
    assert!(guide(&missile, None, FRAME).1);
}

#[test]
fn run_removes_spent_missiles_and_keeps_the_order() {
    let targets = vec![target_at(3 * ONE, 0, 0), target_at(100 * ONE, 100 * ONE, 0)];
    let mut expired = missile_heading_x(Some(1));
    expired.lifetime = -1;
    let mut missiles = vec![
        missile_heading_x(Some(1)),
        missile_heading_x(Some(0)),
        missile_heading_x(None),
        expired,
        missile_heading_x(Some(9)),
    ];
    let removed = missle_run(&mut missiles, &targets, FRAME);
    assert_eq!(removed, vec![false, true, false, true, false]);
    assert_eq!(missiles.len(), 3);
    assert_eq!(missiles[0].heading, Vec3 { x: 999_841, y: 17_804, z: 0 });
    assert_eq!(missiles[0].target, Some(1));
    assert_eq!(missiles[1].heading, Vec3 { x: ONE, y: 0, z: 0 });
    assert_eq!(missiles[1].target, None);
    assert_eq!(missiles[2].heading, Vec3 { x: ONE, y: 0, z: 0 });
    assert_eq!(missiles[2].target, Some(9));
    assert_eq!(missiles[2].translation, Vec3 { x: 1_666_700, y: 0, z: 0 });
    for missile in &missiles {
        assert_eq!(missile.velocity, 100_833_350);
        assert_eq!(missile.lifetime, 4_983_333);
        assert!(missile.is_valid());
    }
}

#[test]
fn run_on_no_missiles() {
    let mut missiles: Vec<Missile> = Vec::new();
    let removed = missle_run(&mut missiles, &vec![target_at(0, 0, 0)], FRAME);
    assert!(removed.is_empty());
    assert!(missiles.is_empty());
}

#[test]
fn a_missile_lives_five_seconds_without_a_target() {
    let mut missiles = vec![missile_heading_x(None)];
    let mut frames = 0;
    while !missiles.is_empty() {
        let removed = missle_run(&mut missiles, &Vec::new(), 100_000);
        assert_eq!(removed.len(), 1);
        frames += 1;
        for missile in &missiles {
            assert!(missile.is_valid());
        }
    }
    assert_eq!(frames, 51);
}

#[test]
fn a_homing_missile_reaches_its_target() {
    let targets = vec![target_at(300 * ONE, 10 * ONE, 0)];
    let mut missiles = vec![missile_heading_x(Some(0))];
    let mut frames = 0;
    let mut last = missiles[0];
    while !missiles.is_empty() && frames < 400 {
        last = missiles[0];
        missle_run(&mut missiles, &targets, FRAME);
        frames += 1;
    }
    assert!(missiles.is_empty());
    assert_eq!(frames, 120);
    assert_eq!(last.lifetime, 5_000_000 - 119 * 16_667);
    assert!(last.heading.y > 0);
}

#[test]
fn a_missile_that_misses_flies_on_until_its_time_is_out() {
    let targets = vec![target_at(150 * ONE, 40 * ONE, -20 * ONE)];
    let mut missiles = vec![missile_heading_x(Some(0))];
    let mut frames = 0;
    while !missiles.is_empty() && frames < 400 {
        missle_run(&mut missiles, &targets, FRAME);
        frames += 1;
    }
    assert_eq!(frames, 300);
}

#[test]
fn a_target_at_the_place_of_the_missile_gives_no_direction() {
    let mut missile = missile_heading_x(Some(0));
    missile.translation = Vec3::new(5 * ONE, 5 * ONE, 5 * ONE);
    let goal = missile.translation;
    let (_, gone) = guide(&missile, Some(goal), FRAME);
    assert!(gone);
    let (after, gone) = guide(&missile, Some(goal), 30_000);
    assert!(!gone);
    assert_eq!(after.heading, Vec3 { x: ONE, y: 0, z: 0 });
    assert_eq!(after.translation, Vec3 { x: 8 * ONE, y: 5 * ONE, z: 5 * ONE });
}

#[test]
fn a_missile_without_heading_stays_where_it_is() {
    let mut missile = missile_heading_x(Some(0));
    missile.heading = Vec3::zero();
    let (after, gone) = guide(&missile, Some(Vec3::new(50 * ONE, 0, 0)), FRAME);
    assert!(!gone);
    assert_eq!(after.heading, Vec3::zero());
    assert_eq!(after.translation, Vec3::zero());
    assert_eq!(after.velocity, 100_833_350);
    let (after, _) = guide(&missile, None, FRAME);
    assert_eq!(after.heading, Vec3::zero());
    assert_eq!(after.translation, Vec3::zero());
}

#[test]
fn missile_validity() {
    let good = missile_heading_x(None);
    assert!(good.is_valid());
    assert!(!Missile { lifetime: MISSILE_LIFETIME + 1, ..good }.is_valid());
    assert!(!Missile { velocity: -1, ..good }.is_valid());
    assert!(!Missile { velocity: MAX_SPEED + 1, ..good }.is_valid());
    assert!(!Missile { heading: Vec3::new(ONE + 1, 0, 0), ..good }.is_valid());
    assert!(!Missile { heading: Vec3::new(500_000, 0, 0), ..good }.is_valid());
    assert!(!Missile { heading: Vec3::new(999_996, 0, 0), ..good }.is_valid());
    assert!(Missile { heading: Vec3::new(999_997, 0, 0), ..good }.is_valid());
    assert!(Missile { heading: Vec3::new(ONE, ONE, 0), ..good }.is_valid());
    assert!(Missile { heading: Vec3::zero(), ..good }.is_valid());
    let edge = WORLD_LIMIT + LAUNCH_MARGIN;
    assert!(Missile { translation: Vec3::new(edge, 0, 0), ..good }.is_valid());
    assert!(!Missile { translation: Vec3::new(edge + 1, 0, 0), ..good }.is_valid());
    let aged = Missile { lifetime: MISSILE_LIFETIME - 1, ..good };
    assert!(Missile { translation: Vec3::new(edge + 750, 0, 0), ..aged }.is_valid());
    assert!(!Missile { translation: Vec3::new(edge + 751, 0, 0), ..aged }.is_valid());
    let late = Missile { lifetime: -3, ..good };
    let reach = edge + 750 * MISSILE_LIFETIME;
    assert!(Missile { translation: Vec3::new(reach, 0, 0), ..late }.is_valid());
    assert!(!Missile { translation: Vec3::new(reach + 1, 0, 0), ..late }.is_valid());
}
