use ace_flight::drone::{drone_movement, drone_turn, Drone};
use ace_flight::fixed::ONE;
use ace_flight::input::PlayerInput;
use ace_flight::player::{
    calculate_lift, carry, craft_speed, kinematic_movement, limit_velocity, nose_of,
    player_movement, throttle, turn_deltas, turn_deltas_of, FlightForces, Player, TurnDeltas,
    MAX_SPEED, MIN_SPEED, VELOCITY_LIMIT,
};
use ace_flight::rotation::{Quat, Transform, WORLD_LIMIT};
use ace_flight::vector::{Vec2, Vec3};

const QUARTER_TURN_Z: Quat = Quat { x: 0, y: 0, z: 707_107, w: 707_107 };
const FRAME: u32 = 16_667;

fn craft_at(x: i64, y: i64, z: i64, velocity: i64) -> Player {
    Player {
        transform: Transform::from_translation(Vec3::new(x, y, z)),
        velocity,
        missiles_fired: 0,
        target: None,
    }
}

#[test]
fn default_player_rests_at_the_origin() {
    let player = Player::default();
    assert_eq!(player.transform.translation, Vec3::zero());
    assert_eq!(player.transform.rotation, Quat::identity());
    assert_eq!(player.velocity, MIN_SPEED);
    assert_eq!(player.missiles_fired, 0);
    assert_eq!(player.target, None);
    assert!(player.is_valid());
}

#[test]
fn player_validity() {
    assert!(craft_at(WORLD_LIMIT, 0, 0, MAX_SPEED).is_valid());
    assert!(!craft_at(WORLD_LIMIT + 1, 0, 0, 0).is_valid());
    assert!(!craft_at(0, 0, 0, MAX_SPEED + 1).is_valid());
    assert!(!craft_at(0, 0, 0, MIN_SPEED - 1).is_valid());
}

#[test]
fn throttle_gains_speed() {
    assert_eq!(throttle(100_000_000, ONE, 0, FRAME), 101_666_700);
    assert_eq!(throttle(100_000_000, 500_000, 250_000, 1_000_000), 149_812_500);
}

#[test]
fn brake_loses_speed() {
    assert_eq!(throttle(100_000_000, 0, ONE, FRAME), 99_987_500);
}

#[test]
fn speed_is_clamped_at_both_ends() {
    assert_eq!(throttle(749_999_999, ONE, 0, 1_000_000), MAX_SPEED);
    assert_eq!(throttle(MAX_SPEED, ONE, 0, u32::MAX), MAX_SPEED);
    assert_eq!(throttle(5, 0, ONE, 4_000_000_000), MIN_SPEED);
    assert_eq!(throttle(MIN_SPEED, 0, ONE, u32::MAX), MIN_SPEED);
}

#[test]
fn speed_stays_clamped_over_many_frames() {
    let mut player = craft_at(0, 0, 0, 700_000_000);
    let full = PlayerInput { accel: ONE, ..PlayerInput::default() };
    for _ in 0..100 {
        kinematic_movement(&mut player, &full, &Quat::identity(), FRAME);
        assert!(MIN_SPEED <= player.velocity && player.velocity <= MAX_SPEED);
    }
    assert_eq!(player.velocity, MAX_SPEED);
    let braking = PlayerInput { brake: ONE, ..PlayerInput::default() };
    for _ in 0..100 {
        kinematic_movement(&mut player, &braking, &Quat::identity(), u32::MAX);
        assert!(MIN_SPEED <= player.velocity && player.velocity <= MAX_SPEED);
    }
    assert_eq!(player.velocity, MIN_SPEED);
}

#[test]
fn turn_deltas_follow_the_controls() {
    let input = PlayerInput {
        axis: Vec2::new(ONE, 500_000),
        yaw: 250_000,
        ..PlayerInput::default()
    };
    assert_eq!(
        turn_deltas(&input, FRAME),
        TurnDeltas { yaw: 10_416, pitch: 133_336, roll: -166_670 }
    );
    assert_eq!(turn_deltas_of(ONE, 500_000, 250_000, FRAME), turn_deltas(&input, FRAME));
}

#[test]
fn idle_controls_ask_for_no_turn() {
    assert_eq!(
        turn_deltas(&PlayerInput::default(), FRAME),
        TurnDeltas { yaw: 0, pitch: 0, roll: 0 }
    );
    let input = PlayerInput { axis: Vec2::new(ONE, ONE), yaw: ONE, ..PlayerInput::default() };
    assert_eq!(turn_deltas(&input, 0), TurnDeltas { yaw: 0, pitch: 0, roll: 0 });
}

#[test]
fn nose_is_the_first_axis_turned() {
    assert_eq!(nose_of(&Quat::identity()), Vec3 { x: ONE, y: 0, z: 0 });
    assert_eq!(nose_of(&QUARTER_TURN_Z), Vec3 { x: 0, y: ONE, z: 0 });
}

#[test]
fn zero_input_keeps_orientation_and_flies_straight() {
    let mut player = craft_at(1_000, 2_000, 3_000, 100_000_000);
    player.transform.rotation = QUARTER_TURN_Z;
    let idle = PlayerInput::default();
    for frame in 1..=50i64 {
        kinematic_movement(&mut player, &idle, &Quat::identity(), FRAME);
        assert_eq!(player.transform.rotation, QUARTER_TURN_Z);
        assert_eq!(player.velocity, 100_000_000);
        assert_eq!(
            player.transform.translation,
            Vec3 { x: 1_000, y: 2_000 + frame * 1_666_700, z: 3_000 }
        );
    }
}

#[test]
fn zero_input_ignores_the_turn_that_is_handed_in() {
    let mut player = craft_at(0, 0, 0, 100_000_000);
    kinematic_movement(&mut player, &PlayerInput::default(), &QUARTER_TURN_Z, FRAME);
    assert_eq!(player.transform.rotation, Quat::identity());
    assert_eq!(player.transform.translation, Vec3 { x: 1_666_700, y: 0, z: 0 });
}

#[test]
fn a_turn_is_applied_before_the_craft_moves() {
    let mut player = craft_at(0, 0, 0, 100_000_000);
    let input = PlayerInput { yaw: ONE, accel: ONE, ..PlayerInput::default() };
    kinematic_movement(&mut player, &input, &QUARTER_TURN_Z, FRAME);
    assert_eq!(player.transform.rotation, QUARTER_TURN_Z);
    assert_eq!(player.velocity, 101_666_700);
    assert_eq!(player.transform.translation, Vec3 { x: 0, y: 1_694_478, z: 0 });
    assert_eq!(player.missiles_fired, 0);
    assert_eq!(player.target, None);
}

#[test]
fn turns_compose_in_the_frame_of_the_craft() {
    let mut player = craft_at(0, 0, 0, 0);
    player.transform.rotation = QUARTER_TURN_Z;
    let input = PlayerInput { yaw: ONE, ..PlayerInput::default() };
    kinematic_movement(&mut player, &input, &QUARTER_TURN_Z, FRAME);
    assert_eq!(player.transform.rotation, Quat { x: 0, y: 0, z: ONE, w: 0 });
    assert_eq!(player.transform.translation, Vec3::zero());
}

#[test]
fn a_step_out_of_the_world_is_not_made() {
    let mut player = craft_at(WORLD_LIMIT, 0, 0, 100_000_000);
    kinematic_movement(&mut player, &PlayerInput::default(), &Quat::identity(), FRAME);
    assert_eq!(player.transform.translation, Vec3 { x: WORLD_LIMIT, y: 0, z: 0 });
    assert!(player.is_valid());
    let near_edge = Transform::from_translation(Vec3::new(WORLD_LIMIT - 5, 0, 0));
    let stays = carry(&near_edge, Quat::identity(), 1_000_000, 10);
    assert_eq!(stays.translation, Vec3 { x: WORLD_LIMIT - 5, y: 0, z: 0 });
    let at_reach = Transform::from_translation(Vec3::new(WORLD_LIMIT - 10, 0, 0));
    let moves = carry(&at_reach, Quat::identity(), 1_000_000, 10);
    assert_eq!(moves.translation, Vec3 { x: WORLD_LIMIT, y: 0, z: 0 });
}

#[test]
fn craft_speed_is_the_clamped_length_of_the_velocity() {
    assert_eq!(craft_speed(&Vec3::new(3_000_000, 4_000_000, 0)), 5_000_000);
    assert_eq!(craft_speed(&Vec3::zero()), MIN_SPEED);
    assert_eq!(craft_speed(&Vec3::new(0, 0, 900_000_000)), MAX_SPEED);
}

#[test]
fn a_craft_at_rest_has_no_lift() {
    let up = Vec3::new(0, ONE, 0);
    assert_eq!(calculate_lift(&Vec3::zero(), &Quat::identity(), &up, 10_000_000), Vec3::zero());
    assert_eq!(calculate_lift(&Vec3::zero(), &QUARTER_TURN_Z, &up, 10_000_000), Vec3::zero());
}

#[test]
fn lift_pushes_against_the_sinking() {
    let up = Vec3::new(0, ONE, 0);
    let sinking = Vec3::new(100_000_000, -10_000_000, 0);
    assert_eq!(
        calculate_lift(&sinking, &Quat::identity(), &up, 10_000_000),
        Vec3 { x: 0, y: 99_999_277, z: 0 }
    );
}

#[test]
fn side_lift_pushes_against_the_slip() {
    let side = Vec3::new(0, 0, ONE);
    let slipping = Vec3::new(100_000_000, -10_000_000, 5_000_000);
    assert_eq!(
        calculate_lift(&slipping, &Quat::identity(), &side, 15_000_000),
        Vec3 { x: 0, y: 0, z: -74_999_396 }
    );
}

#[test]
fn no_lift_for_flight_along_the_surface() {
    let up = Vec3::new(0, ONE, 0);
    let level = Vec3::new(100_000_000, 0, 0);
    assert_eq!(calculate_lift(&level, &Quat::identity(), &up, 10_000_000), Vec3::zero());
}

#[test]
fn forces_at_rest_are_thrust_alone() {
    let input = PlayerInput { accel: ONE, ..PlayerInput::default() };
    let forces = player_movement(&input, &Vec3::zero(), &Quat::identity(), 4_188_790);
    assert_eq!(
        forces,
        FlightForces {
            force: Vec3 { x: 418_879_000, y: 0, z: 0 },
            torque: Vec3::zero(),
            linear_damping: 100_000,
        }
    );
}

#[test]
fn forces_with_idle_controls_at_rest_are_nothing() {
    let forces =
        player_movement(&PlayerInput::default(), &Vec3::zero(), &QUARTER_TURN_Z, 4_188_790);
    assert_eq!(forces.force, Vec3::zero());
    assert_eq!(forces.torque, Vec3::zero());
    assert_eq!(forces.linear_damping, 100_000);
}

#[test]
fn thrust_points_along_the_nose() {
    let input = PlayerInput { accel: 500_000, ..PlayerInput::default() };
    let forces = player_movement(&input, &Vec3::zero(), &QUARTER_TURN_Z, 4_188_790);
    assert_eq!(forces.force, Vec3 { x: 0, y: 209_439_629, z: 0 });
}

#[test]
fn torque_follows_the_controls_in_the_frame_of_the_craft() {
    let input = PlayerInput {
        axis: Vec2::new(500_000, 300_000),
        yaw: -250_000,
        brake: 400_000,
        ..PlayerInput::default()
    };
    let level = player_movement(&input, &Vec3::zero(), &Quat::identity(), ONE);
    assert_eq!(level.torque, Vec3 { x: 10_000_000, y: -625_000, z: -2_400_000 });
    assert_eq!(level.linear_damping, 400_000);
    let turned = player_movement(&input, &Vec3::zero(), &QUARTER_TURN_Z, ONE);
    assert_eq!(turned.torque, Vec3 { x: 625_000, y: 10_000_006, z: -2_400_001 });
}

#[test]
fn force_is_thrust_and_both_lifts() {
    let input = PlayerInput { accel: ONE, ..PlayerInput::default() };
    let velocity = Vec3::new(100_000_000, -10_000_000, 5_000_000);
    let forces = player_movement(&input, &velocity, &Quat::identity(), ONE);
    let up = calculate_lift(&velocity, &Quat::identity(), &Vec3::new(0, ONE, 0), 10_000_000);
    let side = calculate_lift(&velocity, &Quat::identity(), &Vec3::new(0, 0, ONE), 15_000_000);
    assert_eq!(forces.force, Vec3::new(100_000_000, 0, 0).plus(&up).plus(&side));
    assert_eq!(forces.force, Vec3 { x: 100_000_000, y: 99_999_195, z: -74_999_396 });
}

#[test]
fn drones_turn_with_the_rudder_half_over() {
    assert_eq!(drone_turn(FRAME), TurnDeltas { yaw: 20_833, pitch: 0, roll: 0 });
    assert_eq!(drone_turn(0), TurnDeltas { yaw: 0, pitch: 0, roll: 0 });
}

#[test]
fn drones_turn_and_fly() {
    let turn = Quat { x: 0, y: 10_417, z: 0, w: 999_946 };
    let mut drones = vec![
        Drone { transform: Transform::from_translation(Vec3::new(50 * ONE, 300 * ONE, 0)) },
        Drone {
            transform: Transform {
                translation: Vec3::new(0, 350 * ONE, -50 * ONE),
                rotation: QUARTER_TURN_Z,
            },
        },
    ];
    drone_movement(&mut drones, &turn, FRAME);
    assert_eq!(drones.len(), 2);
    assert_eq!(drones[0].transform.rotation, turn);
    assert_eq!(
        drones[0].transform.translation,
        Vec3 { x: 50 * ONE + 1_499_704, y: 300 * ONE, z: -31_248 }
    );
    assert_eq!(drones[1].transform.rotation, QUARTER_TURN_Z.compose(&turn));
    assert_eq!(
        drones[1].transform.translation,
        Vec3::new(0, 350 * ONE, -50 * ONE)
            .plus(&nose_of(&QUARTER_TURN_Z.compose(&turn)).travel(90_000_000, FRAME))
    );
}

#[test]
fn no_drones_is_no_work() {
    let mut drones: Vec<Drone> = Vec::new();
    drone_movement(&mut drones, &Quat::identity(), FRAME);
    assert!(drones.is_empty());
}

#[test]
fn a_velocity_within_the_limit_is_left_alone() {
    assert_eq!(limit_velocity(&Vec3::new(3, 4, 0)), Vec3 { x: 3, y: 4, z: 0 });
    assert_eq!(limit_velocity(&Vec3::zero()), Vec3::zero());
    assert_eq!(limit_velocity(&Vec3::new(MAX_SPEED, 0, 0)), Vec3 { x: MAX_SPEED, y: 0, z: 0 });
}

#[test]
fn a_velocity_beyond_the_limit_is_shortened_along_its_direction() {
    assert_eq!(limit_velocity(&Vec3::new(900_000_000, 0, 0)), Vec3 { x: 749_999_999, y: 0, z: 0 });
    assert_eq!(
        limit_velocity(&Vec3::new(600_000_000, -800_000_000, 0)),
        Vec3 { x: 449_999_999, y: -599_999_999, z: 0 }
    );
    assert_eq!(
        limit_velocity(&Vec3::new(MAX_SPEED + 1, 0, 0)),
        Vec3 { x: 749_999_999, y: 0, z: 0 }
    );
}

#[test]
fn a_limited_velocity_is_never_faster_than_the_greatest_speed() {
    let fastest = Vec3::new(VELOCITY_LIMIT, VELOCITY_LIMIT, -VELOCITY_LIMIT);
    let limited = limit_velocity(&fastest);
    assert_eq!(limited, Vec3 { x: 433_012_701, y: 433_012_701, z: -433_012_701 });
    assert!(limited.length() <= MAX_SPEED);
    assert_eq!(craft_speed(&limited), limited.length());
    let mut step: i64 = 1;
    while step < VELOCITY_LIMIT {
        let v = Vec3::new(step, -step / 3, step / 7);
        assert!(limit_velocity(&v).length() <= MAX_SPEED);
        step = step * 3 + 1;
    }
}
