use fps_sim::angle::{cos, reduce, sin};

#[test]
fn right_angles_are_exact() {
    assert_eq!(sin(0), 0);
    assert_eq!(cos(0), 1_000_000);
    assert_eq!(sin(90_000), 1_000_000);
    assert_eq!(cos(90_000), 0);
    assert_eq!(sin(180_000), 0);
    assert_eq!(cos(180_000), -1_000_000);
    assert_eq!(sin(270_000), -1_000_000);
    assert_eq!(cos(270_000), 0);
    assert_eq!(sin(360_000), 0);
    assert_eq!(cos(360_000), 1_000_000);
}

#[test]
fn whole_degrees_come_from_the_table() {
    assert_eq!(sin(30_000), 500_000);
    assert_eq!(cos(60_000), 500_000);
    assert_eq!(sin(45_000), 707_107);
    assert_eq!(cos(45_000), 707_107);
    assert_eq!(sin(1_000), 17_452);
    assert_eq!(sin(89_000), 999_848);
}

#[test]
fn parts_of_a_degree_are_interpolated() {
    assert_eq!(sin(30_500), 507_519);
    assert_eq!(sin(725_250), 91_499);
}

#[test]
fn negative_angles_mirror() {
    assert_eq!(sin(-45_000), -707_107);
    assert_eq!(cos(-45_000), 707_107);
    assert_eq!(sin(-90_000), -1_000_000);
    assert_eq!(cos(-180_000), -1_000_000);
}

#[test]
fn reduce_brings_into_one_turn() {
    assert_eq!(reduce(0), 0);
    assert_eq!(reduce(360_000), 0);
    assert_eq!(reduce(-1), 359_999);
    assert_eq!(reduce(725_250), 5_250);
    assert_eq!(reduce(i32::MIN), 276_352);
    assert_eq!(reduce(i32::MAX), 83_647);
}

#[test]
fn sines_are_periodic_and_bounded() {
    let mut a: i32 = -400_000;
    while a < 400_000 {
        let s = sin(a);
        let c = cos(a);
        assert!(-1_000_000 <= s && s <= 1_000_000);
        assert!(-1_000_000 <= c && c <= 1_000_000);
        assert_eq!(s, sin(a + 360_000));
        assert_eq!(c, sin(a + 90_000));
        let sum = (s as i64) * (s as i64) + (c as i64) * (c as i64);
        assert!((sum - 1_000_000_000_000).abs() < 200_000_000);
        a += 777;
    }
}
