use fps_sim::game::enemy::components::{advance_waypoint, get_current_waypoint, PatrolData};
use fps_sim::vector::Vec3;

#[test]
fn new_patrol_is_square_loop() {
    let patrol = PatrolData::new(Vec3::new(10000, 1000, 10000), 5000);
    let waypoints = patrol.waypoints();
    assert_eq!(waypoints.len(), 4);
    assert_eq!(waypoints[0], Vec3::new(15000, 1000, 15000));
    assert_eq!(waypoints[1], Vec3::new(15000, 1000, 5000));
    assert_eq!(waypoints[2], Vec3::new(5000, 1000, 5000));
    assert_eq!(waypoints[3], Vec3::new(5000, 1000, 15000));
    assert_eq!(patrol.current_index(), 0);
    assert_eq!(get_current_waypoint(&patrol), Vec3::new(15000, 1000, 15000));
}

#[test]
fn same_inputs_give_same_loop() {
    let a = PatrolData::new(Vec3::new(-3, 7, 11), 250);
    let b = PatrolData::new(Vec3::new(-3, 7, 11), 250);
    assert_eq!(a, b);
}

#[test]
fn zero_radius_loop_has_four_equal_corners() {
    let center = Vec3::new(1, 2, 3);
    let patrol = PatrolData::new(center, 0);
    assert_eq!(patrol.waypoints().len(), 4);
    for w in patrol.waypoints().iter() {
        assert_eq!(*w, center);
    }
}

#[test]
fn corners_are_held_to_the_stored_range() {
    let patrol = PatrolData::new(Vec3::new(i32::MAX, 0, i32::MIN), i32::MIN);
    let waypoints = patrol.waypoints();
    assert_eq!(waypoints[0], Vec3::new(-1, 0, i32::MIN));
    assert_eq!(waypoints[1], Vec3::new(-1, 0, 0));
    assert_eq!(waypoints[2], Vec3::new(i32::MAX, 0, 0));
    assert_eq!(waypoints[3], Vec3::new(i32::MAX, 0, i32::MIN));
}

#[test]
fn advance_moves_to_next_waypoint() {
    let mut patrol = PatrolData::new(Vec3::new(0, 0, 0), 1000);
    advance_waypoint(&mut patrol);
    assert_eq!(patrol.current_index(), 1);
    assert_eq!(get_current_waypoint(&patrol), Vec3::new(1000, 0, -1000));
    advance_waypoint(&mut patrol);
    assert_eq!(get_current_waypoint(&patrol), Vec3::new(-1000, 0, -1000));
    advance_waypoint(&mut patrol);
    assert_eq!(get_current_waypoint(&patrol), Vec3::new(-1000, 0, 1000));
}

#[test]
fn advance_wraps_after_last_waypoint() {
    let mut patrol = PatrolData::new(Vec3::new(0, 0, 0), 1000);
    advance_waypoint(&mut patrol);
    advance_waypoint(&mut patrol);
    advance_waypoint(&mut patrol);
    assert_eq!(patrol.current_index(), 3);
    advance_waypoint(&mut patrol);
    assert_eq!(patrol.current_index(), 0);
    assert_eq!(get_current_waypoint(&patrol), Vec3::new(1000, 0, 1000));
}

#[test]
fn advance_cycles_back_to_start() {
    let mut patrol = PatrolData::new(Vec3::new(0, 0, 0), 1000);
    let n = patrol.waypoints().len();
    for k in 0..n {
        assert_eq!(patrol.current_index(), k);
        advance_waypoint(&mut patrol);
    }
    assert_eq!(patrol.current_index(), 0);
}

#[test]
fn advance_leaves_waypoints_alone() {
    let mut patrol = PatrolData::new(Vec3::new(5, 6, 7), 10);
    let before = patrol.waypoints().clone();
    advance_waypoint(&mut patrol);
    assert_eq!(*patrol.waypoints(), before);
}

#[test]
fn clone_of_patrol_is_equal() {
    let mut patrol = PatrolData::new(Vec3::new(5, 6, 7), 10);
    advance_waypoint(&mut patrol);
    let copy = patrol.clone();
    assert_eq!(copy, patrol);
    assert_eq!(copy.current_index(), 1);
}
