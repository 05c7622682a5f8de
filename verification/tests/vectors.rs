use fps_sim::vector::{closer_than, times, within, Vec3, Wide3};

#[test]
fn zero_vector_has_zero_parts() {
    assert_eq!(Vec3::zero(), Vec3::new(0, 0, 0));
}

#[test]
fn length_of_three_four_five_triangle() {
    let v = Vec3::new(3000, 4000, 0);
    assert_eq!(v.length_squared(), 25_000_000);
    assert_eq!(v.length(), 5000);
}

#[test]
fn length_rounds_down() {
    assert_eq!(Vec3::new(1000, 1000, 1000).length(), 1732);
    assert_eq!(Vec3::new(1, 1, 1).length(), 1);
}

#[test]
fn distance_is_length_of_difference() {
    let a = Vec3::new(1000, 2000, 3000);
    let b = Vec3::new(4000, 6000, 3000);
    assert_eq!(a.distance(&b), 5000);
    assert_eq!(b.distance(&a), 5000);
    assert_eq!(a.distance(&a), 0);
}

#[test]
fn distance_between_far_corners_does_not_overflow() {
    let a = Vec3::new(i32::MIN, i32::MIN, i32::MIN);
    let b = Vec3::new(i32::MAX, i32::MAX, i32::MAX);
    assert_eq!(a.distance(&b), 7_439_101_571);
}

#[test]
fn offset_is_exact() {
    let a = Vec3::new(i32::MIN, 0, 5);
    let b = Vec3::new(i32::MAX, -7, 5);
    assert_eq!(a.offset_to(&b), Wide3 { x: 4_294_967_295, y: -7, z: 0 });
}

#[test]
fn normalize_gives_unit_vector() {
    assert_eq!(Vec3::new(3000, 4000, 0).normalize_or_zero(), Vec3::new(600_000, 800_000, 0));
    assert_eq!(Vec3::new(1, 0, 0).normalize_or_zero(), Vec3::new(1_000_000, 0, 0));
    assert_eq!(Vec3::new(0, -250, 0).normalize_or_zero(), Vec3::new(0, -1_000_000, 0));
    assert_eq!(Vec3::new(-5, 5, 5).normalize_or_zero(), Vec3::new(-577_350, 577_350, 577_350));
    assert_eq!(Vec3::new(2, 0, 1).normalize_or_zero(), Vec3::new(894_427, 0, 447_213));
    assert_eq!(Vec3::new(1, 1, 1).normalize_or_zero(), Vec3::new(577_350, 577_350, 577_350));
}

#[test]
fn normalize_zero_vector_yields_zero() {
    assert_eq!(Vec3::new(0, 0, 0).normalize_or_zero(), Vec3::new(0, 0, 0));
    assert_eq!((Wide3 { x: 0, y: 0, z: 0 }).normalize_or_zero(), Vec3::new(0, 0, 0));
}

#[test]
fn normalize_largest_vectors() {
    assert_eq!(
        Vec3::new(i32::MAX, i32::MIN, 0).normalize_or_zero(),
        Vec3::new(707_106, -707_106, 0)
    );
    let w = Wide3 { x: i64::MIN, y: i64::MIN, z: i64::MIN };
    assert_eq!(w.normalize_or_zero(), Vec3::new(-577_350, -577_350, -577_350));
    let v = Wide3 { x: i64::MAX, y: 0, z: 0 };
    assert_eq!(v.normalize_or_zero(), Vec3::new(1_000_000, 0, 0));
}

#[test]
fn wide_normalize_of_blend_vector() {
    let w = Wide3 { x: 700_000, y: 0, z: 300_000 };
    assert_eq!(w.length(), 761_577);
    assert_eq!(w.normalize_or_zero(), Vec3::new(919_145, 0, 393_919));
}

#[test]
fn plus_adds_and_saturates() {
    let a = Vec3::new(1, 2, 3);
    let b = Vec3::new(10, -20, 30);
    assert_eq!(a.plus(&b), Vec3::new(11, -18, 33));
    let big = Vec3::new(i32::MAX, i32::MIN, 0);
    assert_eq!(big.plus(&Vec3::new(1, -1, 0)), Vec3::new(i32::MAX, i32::MIN, 0));
}

#[test]
fn scaled_gives_a_direction_its_length() {
    let unit = Vec3::new(600_000, -800_000, 0);
    assert_eq!(unit.scaled(3000), Vec3::new(1800, -2400, 0));
    assert_eq!(unit.scaled(800), Vec3::new(480, -640, 0));
    assert_eq!(unit.scaled(0), Vec3::new(0, 0, 0));
    assert_eq!(Vec3::new(1, -1, 999_999).scaled(999), Vec3::new(0, 0, 998));
    assert_eq!(
        Vec3::new(i32::MAX, i32::MIN, 0).scaled(2_000_000),
        Vec3::new(i32::MAX, i32::MIN, 0)
    );
}

#[test]
fn times_is_exact_product() {
    assert_eq!(times(i32::MIN, i32::MIN), 1i128 << 62);
    assert_eq!(times(-3, 7), -21);
}

#[test]
fn unit_vectors_are_about_one_unit_long() {
    let mut x: i32 = -40;
    while x <= 40 {
        let mut z: i32 = -40;
        while z <= 40 {
            let unit = Vec3::new(x, 3, z).normalize_or_zero();
            let length = unit.length();
            assert!(999_996 <= length && length <= 1_000_000);
            assert!(unit.length_squared() <= 1_000_000_000_000);
            z += 7;
        }
        x += 7;
    }
}

#[test]
fn magnify_lengthens_short_vectors_only() {
    assert_eq!(
        (Wide3 { x: 1, y: -2, z: 3 }).magnify(),
        Wide3 { x: 1_000_000, y: -2_000_000, z: 3_000_000 }
    );
    let limit: i64 = 1 << 40;
    assert_eq!(
        (Wide3 { x: limit, y: 0, z: -limit }).magnify(),
        Wide3 { x: limit * 1_000_000, y: 0, z: -limit * 1_000_000 }
    );
    let long = Wide3 { x: limit + 1, y: 0, z: 0 };
    assert_eq!(long.magnify(), long);
}

#[test]
fn distance_squared_is_exact() {
    let a = Vec3::new(1000, 2000, 3000);
    let b = Vec3::new(4000, 6000, 3001);
    assert_eq!(a.distance_squared(&b), 25_000_001);
    assert_eq!(a.distance(&b), 5000);
    let lo = Vec3::new(i32::MIN, i32::MIN, i32::MIN);
    let hi = Vec3::new(i32::MAX, i32::MAX, i32::MAX);
    assert_eq!(lo.distance_squared(&hi), 3 * (u32::MAX as u128) * (u32::MAX as u128));
}

#[test]
fn within_includes_the_range_itself() {
    assert!(within(6_250_000, 2500));
    assert!(!within(6_250_001, 2500));
    assert!(within(0, 0));
    assert!(!within(1, 0));
    assert!(!within(0, -1));
    assert!(within(u32::MAX as u128, i32::MAX));
}

#[test]
fn closer_than_excludes_the_range_itself() {
    assert!(closer_than(6_249_999, 2500));
    assert!(!closer_than(6_250_000, 2500));
    assert!(!closer_than(0, 0));
    assert!(!closer_than(0, -5));
    assert!(closer_than(0, 1));
}
