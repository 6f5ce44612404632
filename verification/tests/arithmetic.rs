use ace_flight::fixed::{clamp_i128, isqrt_u128, ONE};
use ace_flight::rotation::{Quat, Transform, WORLD_LIMIT};
use ace_flight::vector::{mul_wide, Vec2, Vec3, COORD_LIMIT};

const QUARTER_TURN_Z: Quat = Quat { x: 0, y: 0, z: 707_107, w: 707_107 };
const QUARTER_TURN_Y: Quat = Quat { x: 0, y: 707_107, z: 0, w: 707_107 };

#[test]
fn isqrt_of_small_numbers() {
    assert_eq!(isqrt_u128(0), 0);
    assert_eq!(isqrt_u128(1), 1);
    assert_eq!(isqrt_u128(2), 1);
    assert_eq!(isqrt_u128(3), 1);
    assert_eq!(isqrt_u128(4), 2);
    assert_eq!(isqrt_u128(99), 9);
    assert_eq!(isqrt_u128(100), 10);
}

#[test]
fn isqrt_of_large_numbers() {
    assert_eq!(isqrt_u128(1_000_000_000_000), 1_000_000);
    assert_eq!(isqrt_u128(999_999_999_999), 999_999);
    assert_eq!(isqrt_u128(u128::MAX), u64::MAX);
    assert_eq!(isqrt_u128((u64::MAX as u128) * (u64::MAX as u128)), u64::MAX);
    assert_eq!(isqrt_u128((u64::MAX as u128) * (u64::MAX as u128) - 1), u64::MAX - 1);
}

#[test]
fn clamp_brings_into_range() {
    assert_eq!(clamp_i128(-5, 0, 10), 0);
    assert_eq!(clamp_i128(15, 0, 10), 10);
    assert_eq!(clamp_i128(7, 0, 10), 7);
    assert_eq!(clamp_i128(i128::MAX, -3, 3), 3);
    assert_eq!(clamp_i128(i128::MIN, -3, 3), -3);
}

#[test]
fn mul_wide_does_not_overflow() {
    assert_eq!(mul_wide(i64::MAX, i64::MAX), (i64::MAX as i128) * (i64::MAX as i128));
    assert_eq!(mul_wide(i64::MIN, i64::MIN), (i64::MIN as i128) * (i64::MIN as i128));
    assert_eq!(mul_wide(-3, 4), -12);
}

#[test]
fn vector_sum_difference_and_dot() {
    let a = Vec3::new(1, 2, 3);
    let b = Vec3::new(10, -20, 30);
    assert_eq!(a.plus(&b), Vec3 { x: 11, y: -18, z: 33 });
    assert_eq!(a.minus(&b), Vec3 { x: -9, y: 22, z: -27 });
    assert_eq!(a.dot(&b), 10 - 40 + 90);
    assert_eq!(a.len_sq(), 14);
    assert_eq!(Vec3::zero(), Vec3 { x: 0, y: 0, z: 0 });
    assert_eq!(Vec2::zero(), Vec2::new(0, 0));
}

#[test]
fn vector_length_is_rounded_down() {
    assert_eq!(Vec3::new(3 * ONE, 4 * ONE, 0).length(), 5 * ONE);
    assert_eq!(Vec3::new(1, 1, 0).length(), 1);
    assert_eq!(Vec3::new(0, 0, 0).length(), 0);
    assert_eq!(Vec3::new(100_000_000, -10_000_000, 0).length(), 100_498_756);
}

#[test]
fn normalize_gives_unit_length_or_zero() {
    assert_eq!(
        Vec3::new(3 * ONE, 4 * ONE, 0).normalize_or_zero(),
        Vec3 { x: 600_000, y: 800_000, z: 0 }
    );
    assert_eq!(Vec3::zero().normalize_or_zero(), Vec3::zero());
    assert_eq!(
        Vec3::new(100_000_000, -10_000_000, 5_000_000).normalize_or_zero(),
        Vec3 { x: 993_807, y: -99_380, z: 49_690 }
    );
    assert_eq!(Vec3::new(0, -7, 0).normalize_or_zero(), Vec3 { x: 0, y: -ONE, z: 0 });
}

#[test]
fn scaling_rounds_toward_zero() {
    assert_eq!(Vec3::new(3, -3, 1_000_001).scaled(500_000), Vec3 { x: 1, y: -1, z: 500_000 });
    assert_eq!(Vec3::new(7, -7, 0).scaled(ONE), Vec3 { x: 7, y: -7, z: 0 });
    assert_eq!(Vec3::new(7, -7, 0).scaled(-ONE), Vec3 { x: -7, y: 7, z: 0 });
}

#[test]
fn travel_is_direction_times_speed_times_time() {
    let forward = Vec3::new(ONE, 0, 0);
    assert_eq!(forward.travel(100_000_000, 16_667), Vec3 { x: 1_666_700, y: 0, z: 0 });
    assert_eq!(forward.travel(100_000_000, 0), Vec3::zero());
    assert_eq!(forward.travel(0, 16_667), Vec3::zero());
    let diagonal = Vec3::new(600_000, -800_000, 0);
    assert_eq!(
        diagonal.travel(400_000_000, 1_000_000),
        Vec3 { x: 240_000_000, y: -320_000_000, z: 0 }
    );
}

#[test]
fn is_within_checks_every_component() {
    assert!(Vec3::new(5, -5, 5).is_within(5));
    assert!(!Vec3::new(6, 0, 0).is_within(5));
    assert!(!Vec3::new(0, -6, 0).is_within(5));
    assert!(!Vec3::new(0, 0, 6).is_within(5));
    assert!(Vec3::new(COORD_LIMIT, 0, 0).is_within(COORD_LIMIT));
}

#[test]
fn identity_turns_nothing() {
    let v = Vec3::new(123_456, -789, 42 * ONE);
    assert_eq!(Quat::identity().rotate(&v), v);
    assert!(Quat::identity().is_rotation());
}

#[test]
fn quarter_turns_carry_the_axes() {
    assert!(QUARTER_TURN_Z.is_rotation());
    assert_eq!(QUARTER_TURN_Z.rotate(&Vec3::new(ONE, 0, 0)), Vec3 { x: 0, y: ONE, z: 0 });
    assert_eq!(QUARTER_TURN_Z.rotate(&Vec3::new(0, ONE, 0)), Vec3 { x: -ONE, y: 0, z: 0 });
    assert_eq!(QUARTER_TURN_Y.rotate(&Vec3::new(ONE, 0, 0)), Vec3 { x: 0, y: 0, z: -ONE });
}

#[test]
fn compose_with_identity_changes_nothing() {
    assert_eq!(QUARTER_TURN_Z.compose(&Quat::identity()), QUARTER_TURN_Z);
    assert_eq!(Quat::identity().compose(&QUARTER_TURN_Y), QUARTER_TURN_Y);
}

#[test]
fn two_quarter_turns_make_a_half_turn() {
    assert_eq!(QUARTER_TURN_Z.compose(&QUARTER_TURN_Z), Quat { x: 0, y: 0, z: ONE, w: 0 });
}

#[test]
fn new_settles_what_is_not_of_unit_length() {
    assert_eq!(Quat::new(0, 0, 707_107, 707_107), QUARTER_TURN_Z);
    assert_eq!(Quat::new(0, 0, 0, 2 * ONE), Quat { x: 0, y: 0, z: 0, w: 999_999 });
    assert_eq!(Quat::new(ONE, ONE, 0, 0), Quat { x: 707_106, y: 707_106, z: 0, w: 0 });
    assert_eq!(Quat::new(0, 0, 0, 0), Quat::identity());
    assert_eq!(Quat::new(i64::MAX, 0, 0, 0), Quat::identity());
    assert!(Quat::new(3, -4, 5, 6).is_rotation());
}

#[test]
fn is_rotation_rejects_other_lengths() {
    assert!(!Quat { x: 0, y: 0, z: 0, w: 0 }.is_rotation());
    assert!(!Quat { x: 0, y: 0, z: 0, w: 2 * ONE }.is_rotation());
    assert!(!Quat { x: ONE, y: ONE, z: 0, w: 0 }.is_rotation());
    assert!(!Quat { x: 0, y: 0, z: 0, w: 999_900 }.is_rotation());
    assert!(Quat { x: 0, y: 0, z: 0, w: 999_999 }.is_rotation());
    assert!(Quat { x: 0, y: 0, z: 0, w: -ONE }.is_rotation());
}

#[test]
fn quaternion_blend_at_the_ends() {
    assert_eq!(Quat::identity().lerp(&QUARTER_TURN_Z, 0), Quat::identity());
    assert_eq!(Quat::identity().lerp(&QUARTER_TURN_Z, ONE), QUARTER_TURN_Z);
}

#[test]
fn quaternion_blend_part_of_the_way() {
    assert_eq!(
        Quat::identity().lerp(&QUARTER_TURN_Z, 400_000),
        Quat { x: 0, y: 0, z: 305_100, w: 952_319 }
    );
}

#[test]
fn quaternion_blend_takes_the_shorter_arc() {
    let far = Quat { x: 0, y: 0, z: -707_107, w: -707_107 };
    assert_eq!(Quat::identity().lerp(&far, ONE), QUARTER_TURN_Z);
}

#[test]
fn transform_validity() {
    let good = Transform::from_translation(Vec3::new(WORLD_LIMIT, -WORLD_LIMIT, 0));
    assert!(good.is_valid());
    assert_eq!(good.rotation, Quat::identity());
    let far = Transform::from_translation(Vec3::new(WORLD_LIMIT + 1, 0, 0));
    assert!(!far.is_valid());
    let skew = Transform { translation: Vec3::zero(), rotation: Quat { x: 1, y: 2, z: 3, w: 4 } };
    assert!(!skew.is_valid());
}

/// A run of numbers that looks random and is the same every time.
fn numbers(seed: u64, count: usize) -> Vec<i64> {
    let mut state = seed;
    let mut out = Vec::new();
    for _ in 0..count {
        state = state
            .wrapping_mul(6_364_136_223_846_793_005)
            .wrapping_add(1_442_695_040_888_963_407);
        out.push(((state >> 33) % 2_000_001) as i64 - 1_000_000);
    }
    out
}

#[test]
fn normalized_vectors_are_of_unit_length_within_millionths() {
    let n = numbers(7, 3_000);
    for chunk in n.chunks(3) {
        let v = Vec3::new(chunk[0] * 37, chunk[1] * 37, chunk[2] * 37);
        if v.len_sq() == 0 {
            continue;
        }
        let unit = v.normalize_or_zero();
        let len_sq = unit.len_sq() as i128;
        assert!(len_sq >= 1_000_000_000_000 - 6_000_003);
        if v.length() >= ONE {
            assert!(len_sq <= 1_000_000_000_000 + 2_000_000);
        }
        assert!(unit.is_within(ONE));
    }
}

#[test]
fn short_vectors_normalize_to_something_no_shorter_than_one() {
    for (x, y, z) in [(1, 0, 0), (1, 1, 0), (1, 1, 1), (2, -1, 0), (-3, 2, 1), (0, 0, -1)] {
        let unit = Vec3::new(x, y, z).normalize_or_zero();
        assert!(unit.len_sq() as i128 >= 1_000_000_000_000 - 6_000_003);
        assert!(unit.is_within(ONE));
    }
}

#[test]
fn products_of_orientations_are_orientations_and_keep_turning() {
    let n = numbers(11, 800);
    let rotations: Vec<Quat> =
        n.chunks(4).map(|c| Quat::new(c[0], c[1], c[2], c[3])).collect();
    let mut turned = 0;
    for pair in rotations.windows(2) {
        assert!(pair[0].is_rotation());
        let product = pair[0].compose(&pair[1]);
        assert!(product.is_rotation());
        // The product turns the first axis as the two turn it one after the other.
        let direct = product.rotate(&Vec3::new(ONE, 0, 0));
        let stepwise = pair[0].rotate(&pair[1].rotate(&Vec3::new(ONE, 0, 0)));
        assert!(direct.minus(&stepwise).is_within(40));
        if product != Quat::identity() {
            turned += 1;
        }
    }
    assert_eq!(turned, rotations.len() - 1);
}

#[test]
fn blends_of_orientations_are_orientations() {
    let n = numbers(13, 400);
    let rotations: Vec<Quat> =
        n.chunks(4).map(|c| Quat::new(c[0], c[1], c[2], c[3])).collect();
    for pair in rotations.windows(2) {
        for t in [0, 1, 250_000, 500_000, 999_999, ONE] {
            let blend = pair[0].lerp(&pair[1], t);
            assert!(blend.is_rotation());
            assert_ne!(blend, Quat::identity());
        }
        assert_eq!(pair[0].lerp(&pair[1], 0), pair[0]);
    }
}

#[test]
fn a_rotated_vector_keeps_its_length_within_millionths() {
    let n = numbers(17, 400);
    let v = Vec3::new(3 * ONE, -4 * ONE, 12 * ONE);
    for c in n.chunks(4) {
        let q = Quat::new(c[0], c[1], c[2], c[3]);
        let turned = q.rotate(&v);
        let length = turned.length();
        assert!((length - 13 * ONE).abs() < 300);
    }
}
