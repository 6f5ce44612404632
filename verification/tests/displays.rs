use ace_flight::fixed::ONE;
use ace_flight::missile::Target;
use ace_flight::player::{Player, MAX_SPEED};
use ace_flight::rotation::{Quat, Transform};
use ace_flight::ui::{
    radar, target_ui, text_update_system, PoolChange, RadarDot, SpeedText, UiTarget, UiTargets,
    RADAR_RANGE,
};
use ace_flight::vector::{Vec2, Vec3};

const QUARTER_TURN_Y: Quat = Quat { x: 0, y: 707_107, z: 0, w: 707_107 };
const QUARTER_TURN_Z: Quat = Quat { x: 0, y: 0, z: 707_107, w: 707_107 };
const WIDTH: i64 = 1_280 * ONE;
const HEIGHT: i64 = 720 * ONE;

fn target_at(x: i64, y: i64, z: i64) -> Target {
    Target { transform: Transform::from_translation(Vec3::new(x, y, z)) }
}

fn level_craft() -> Transform {
    Transform::from_translation(Vec3::zero())
}

fn points(n: i64) -> Vec<Option<Vec2>> {
    (0..n).map(|i| Some(Vec2::new((i + 1) * 100 * ONE, (i + 1) * 50 * ONE))).collect()
}

#[test]
fn pools_start_empty() {
    let ui = UiTargets::default();
    assert!(ui.targets.is_empty());
    assert!(ui.radar_dots.is_empty());
}

#[test]
fn reticle_pool_follows_three_one_four() {
    let mut ui = UiTargets::default();
    let change = target_ui(&mut ui, &points(3), WIDTH, HEIGHT);
    assert_eq!(ui.targets.len(), 3);
    assert_eq!(change, PoolChange { removed: 0, created: 3 });
    let change = target_ui(&mut ui, &points(1), WIDTH, HEIGHT);
    assert_eq!(ui.targets.len(), 1);
    assert_eq!(change, PoolChange { removed: 2, created: 0 });
    let change = target_ui(&mut ui, &points(4), WIDTH, HEIGHT);
    assert_eq!(ui.targets.len(), 4);
    assert_eq!(change, PoolChange { removed: 0, created: 3 });
    assert!(ui.radar_dots.is_empty());
}

#[test]
fn radar_pool_follows_three_one_four() {
    let mut ui = UiTargets::default();
    let craft = level_craft();
    let three = vec![target_at(ONE, 0, 0), target_at(2 * ONE, 0, 0), target_at(3 * ONE, 0, 0)];
    let change = radar(&mut ui, Some(&craft), &three);
    assert_eq!(ui.radar_dots.len(), 3);
    assert_eq!(change, PoolChange { removed: 0, created: 3 });
    let one = vec![target_at(ONE, 0, 0)];
    let change = radar(&mut ui, Some(&craft), &one);
    assert_eq!(ui.radar_dots.len(), 1);
    assert_eq!(change, PoolChange { removed: 2, created: 0 });
    let four =
        vec![target_at(ONE, 0, 0), target_at(0, 0, ONE), target_at(0, ONE, 0), target_at(5, 5, 5)];
    let change = radar(&mut ui, Some(&craft), &four);
    assert_eq!(ui.radar_dots.len(), 4);
    assert_eq!(change, PoolChange { removed: 0, created: 3 });
    assert!(ui.targets.is_empty());
}

#[test]
fn a_pool_of_the_right_length_is_not_changed_in_length() {
    let mut ui = UiTargets::default();
    target_ui(&mut ui, &points(2), WIDTH, HEIGHT);
    let change = target_ui(&mut ui, &points(2), WIDTH, HEIGHT);
    assert_eq!(change, PoolChange { removed: 0, created: 0 });
    assert_eq!(ui.targets.len(), 2);
}

#[test]
fn reticles_take_the_points_in_order() {
    let mut ui = UiTargets::default();
    let projected = vec![
        Some(Vec2::new(10 * ONE, 20 * ONE)),
        None,
        Some(Vec2::new(-ONE, 20 * ONE)),
        Some(Vec2::new(30 * ONE, 40 * ONE)),
        Some(Vec2::new(30 * ONE, HEIGHT + 1)),
        Some(Vec2::new(50 * ONE, 60 * ONE)),
    ];
    target_ui(&mut ui, &projected, WIDTH, HEIGHT);
    assert_eq!(
        ui.targets,
        vec![
            UiTarget { left: 10 * ONE, bottom: 20 * ONE },
            UiTarget { left: 30 * ONE, bottom: 40 * ONE },
            UiTarget { left: 50 * ONE, bottom: 60 * ONE },
        ]
    );
}

#[test]
fn matching_is_by_place_in_the_pool() {
    let mut ui = UiTargets::default();
    let a = Some(Vec2::new(10 * ONE, 20 * ONE));
    let b = Some(Vec2::new(30 * ONE, 40 * ONE));
    target_ui(&mut ui, &vec![a, b], WIDTH, HEIGHT);
    target_ui(&mut ui, &vec![b, a], WIDTH, HEIGHT);
    assert_eq!(
        ui.targets,
        vec![
            UiTarget { left: 30 * ONE, bottom: 40 * ONE },
            UiTarget { left: 10 * ONE, bottom: 20 * ONE },
        ]
    );
    target_ui(&mut ui, &vec![None, a], WIDTH, HEIGHT);
    assert_eq!(ui.targets, vec![UiTarget { left: 10 * ONE, bottom: 20 * ONE }]);
}

#[test]
fn the_edges_of_the_screen_are_on_the_screen() {
    let mut ui = UiTargets::default();
    let projected = vec![
        Some(Vec2::new(0, 0)),
        Some(Vec2::new(WIDTH, HEIGHT)),
        Some(Vec2::new(WIDTH + 1, 0)),
        Some(Vec2::new(0, -1)),
        Some(Vec2::new(-1, 0)),
        Some(Vec2::new(0, HEIGHT + 1)),
    ];
    let change = target_ui(&mut ui, &projected, WIDTH, HEIGHT);
    assert_eq!(
        ui.targets,
        vec![UiTarget { left: 0, bottom: 0 }, UiTarget { left: WIDTH, bottom: HEIGHT }]
    );
    assert_eq!(change, PoolChange { removed: 0, created: 2 });
}

#[test]
fn nothing_to_mark_empties_the_pool() {
    let mut ui = UiTargets::default();
    target_ui(&mut ui, &points(3), WIDTH, HEIGHT);
    let change = target_ui(&mut ui, &vec![None, None], WIDTH, HEIGHT);
    assert!(ui.targets.is_empty());
    assert_eq!(change, PoolChange { removed: 3, created: 0 });
    let change = target_ui(&mut ui, &Vec::new(), WIDTH, HEIGHT);
    assert_eq!(change, PoolChange { removed: 0, created: 0 });
}

#[test]
fn reticles_and_dots_do_not_touch_each_other() {
    let mut ui = UiTargets::default();
    radar(&mut ui, Some(&level_craft()), &vec![target_at(100 * ONE, 0, 0)]);
    target_ui(&mut ui, &points(2), WIDTH, HEIGHT);
    assert_eq!(ui.radar_dots, vec![RadarDot { left: 50_000_000, bottom: 55_000_000 }]);
    radar(&mut ui, Some(&level_craft()), &Vec::new());
    assert_eq!(ui.targets.len(), 2);
    assert!(ui.radar_dots.is_empty());
}

#[test]
fn a_target_beyond_the_range_has_no_dot_and_gets_one_back() {
    let mut ui = UiTargets::default();
    let craft = level_craft();
    let beyond = vec![target_at(RADAR_RANGE + 1, 0, 0)];
    let change = radar(&mut ui, Some(&craft), &beyond);
    assert!(ui.radar_dots.is_empty());
    assert_eq!(change, PoolChange { removed: 0, created: 0 });
    let back = vec![target_at(RADAR_RANGE - ONE, 0, 0)];
    let change = radar(&mut ui, Some(&craft), &back);
    assert_eq!(ui.radar_dots, vec![RadarDot { left: 50_000_000, bottom: 99_950_000 }]);
    assert_eq!(change, PoolChange { removed: 0, created: 1 });
    let change = radar(&mut ui, Some(&craft), &beyond);
    assert!(ui.radar_dots.is_empty());
    assert_eq!(change, PoolChange { removed: 1, created: 0 });
}

#[test]
fn a_target_beyond_the_range_does_not_disturb_the_others() {
    let mut ui = UiTargets::default();
    let targets = vec![
        target_at(500 * ONE, 300 * ONE, -250 * ONE),
        target_at(1_000 * ONE, 0, 1_000 * ONE),
        target_at(1_000 * ONE + 1, 0, 0),
        target_at(0, 0, -1_000 * ONE - 1),
        target_at(0, 99_999 * ONE, 0),
    ];
    radar(&mut ui, Some(&level_craft()), &targets);
    assert_eq!(
        ui.radar_dots,
        vec![
            RadarDot { left: 62_500_000, bottom: 75_000_000 },
            RadarDot { left: 0, bottom: 100_000_000 },
            RadarDot { left: 50_000_000, bottom: 50_000_000 },
        ]
    );
}

#[test]
fn the_radar_turns_with_the_craft() {
    let mut ui = UiTargets::default();
    let craft = Transform { translation: Vec3::zero(), rotation: QUARTER_TURN_Y };
    let targets = vec![target_at(0, 0, -100 * ONE), target_at(100 * ONE, 0, 0)];
    radar(&mut ui, Some(&craft), &targets);
    assert_eq!(
        ui.radar_dots,
        vec![
            RadarDot { left: 50_000_000, bottom: 55_000_000 },
            RadarDot { left: 45_000_000, bottom: 50_000_000 },
        ]
    );
}

#[test]
fn the_radar_of_a_craft_on_its_way() {
    let mut ui = UiTargets::default();
    let craft = Transform {
        translation: Vec3::new(10 * ONE, 5 * ONE, -10 * ONE),
        rotation: Quat { x: 0, y: 258_819, z: 0, w: 965_926 },
    };
    let targets = vec![target_at(310 * ONE, 0, 190 * ONE), target_at(-700 * ONE, 0, 700 * ONE)];
    radar(&mut ui, Some(&craft), &targets);
    assert_eq!(
        ui.radar_dots,
        vec![
            RadarDot { left: 33_839_750, bottom: 57_990_375 },
            RadarDot { left: 37_006_113, bottom: 1_506_113 },
        ]
    );
}

#[test]
fn a_craft_that_points_straight_up_has_the_radar_of_the_world() {
    let mut ui = UiTargets::default();
    let craft = Transform { translation: Vec3::zero(), rotation: QUARTER_TURN_Z };
    radar(&mut ui, Some(&craft), &vec![target_at(500 * ONE, 300 * ONE, -250 * ONE)]);
    assert_eq!(ui.radar_dots, vec![RadarDot { left: 75_000_000, bottom: 37_500_000 }]);
}

#[test]
fn without_a_craft_the_radar_does_nothing() {
    let mut ui = UiTargets::default();
    radar(&mut ui, Some(&level_craft()), &vec![target_at(ONE, 0, 0), target_at(0, 0, ONE)]);
    let before = ui.radar_dots.clone();
    let change = radar(&mut ui, None, &vec![target_at(7 * ONE, 0, 0)]);
    assert_eq!(change, PoolChange { removed: 0, created: 0 });
    assert_eq!(ui.radar_dots, before);
}

#[test]
fn readout_of_speed_and_height() {
    let mut player = Player::default();
    player.velocity = 100_000_000;
    player.transform.translation = Vec3::new(0, 325 * ONE, 0);
    assert_eq!(text_update_system(Some(&player)), Some(SpeedText { speed: 2_500, height: 1_625 }));
    player.velocity = MAX_SPEED;
    player.transform.translation = Vec3::new(0, -1_999_999, 0);
    assert_eq!(text_update_system(Some(&player)), Some(SpeedText { speed: 18_750, height: -9 }));
    player.velocity = 123_456_789;
    assert_eq!(text_update_system(Some(&player)).unwrap().speed, 3_086);
}

#[test]
fn readout_of_a_height_beyond_the_display() {
    let mut player = Player::default();
    player.transform.translation = Vec3::new(0, 1_000_000_000_000_000, 0);
    assert_eq!(text_update_system(Some(&player)).unwrap().height, i32::MAX);
    player.transform.translation = Vec3::new(0, -1_000_000_000_000_000, 0);
    assert_eq!(text_update_system(Some(&player)).unwrap().height, i32::MIN);
}

#[test]
fn no_craft_no_readout() {
    assert_eq!(text_update_system(None), None);
}

/// Orientations about the vertical, all around the compass.
fn headings() -> Vec<Quat> {
    vec![
        Quat::identity(),
        QUARTER_TURN_Y,
        Quat { x: 0, y: 258_819, z: 0, w: 965_926 },
        Quat { x: 0, y: 382_683, z: 0, w: 923_880 },
        Quat { x: 0, y: -382_683, z: 0, w: 923_880 },
        Quat { x: 0, y: ONE, z: 0, w: 0 },
        Quat { x: 0, y: 923_880, z: 0, w: -382_683 },
        QUARTER_TURN_Z,
        Quat::new(300_000, 500_000, -200_000, 700_000),
    ]
}

#[test]
fn a_target_past_the_diagonal_of_the_radar_is_never_seen() {
    let far = 1_414_300 * 1_000;
    for rotation in headings() {
        assert!(rotation.is_rotation());
        let craft = Transform { translation: Vec3::new(5 * ONE, 0, -7 * ONE), rotation };
        for (dx, dz) in [(far, 0), (0, far), (-far, 0), (0, -far), (1_000_100_000, 1_000_100_000)] {
            let mut ui = UiTargets::default();
            radar(&mut ui, Some(&craft), &vec![target_at(5 * ONE + dx, 40 * ONE, -7 * ONE + dz)]);
            assert!(ui.radar_dots.is_empty());
        }
    }
}

#[test]
fn a_target_well_within_the_range_is_always_seen() {
    let near = 707_000 * 1_000;
    for rotation in headings() {
        let craft = Transform { translation: Vec3::new(5 * ONE, 0, -7 * ONE), rotation };
        let offsets = [(near, 0), (0, near), (-near, 0), (0, -near), (499_000_000, -499_000_000)];
        for (dx, dz) in offsets {
            let mut ui = UiTargets::default();
            radar(&mut ui, Some(&craft), &vec![target_at(5 * ONE + dx, -40 * ONE, -7 * ONE + dz)]);
            assert_eq!(ui.radar_dots.len(), 1);
            let dot = ui.radar_dots[0];
            assert!(0 <= dot.left && dot.left <= 100 * ONE);
            assert!(0 <= dot.bottom && dot.bottom <= 100 * ONE);
        }
    }
}
