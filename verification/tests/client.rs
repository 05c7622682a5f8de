use fps_sim::game::cursor::{Cursor, CursorGrabMode, CursorOptions};
use fps_sim::game::player::camera_controller::{
    update_camera_controller, CameraController, MouseMotion,
};
use fps_sim::game::player::input::PlayerInput;
use fps_sim::game::player::movement::{apply_local_movement, update_movement_input, MovementKeys};
use fps_sim::network::protocol::{MovementInput, RotationInput};
use fps_sim::vector::Vec2;

fn keys(forward: bool, backward: bool, left: bool, right: bool) -> MovementKeys {
    MovementKeys { forward, backward, left, right }
}

fn camera() -> CameraController {
    CameraController { rotation: Vec2 { x: 0, y: 0 }, rotation_lock: 88000, sensitivity: 35 }
}

fn motion(x: i32, y: i32) -> MouseMotion {
    MouseMotion { delta: Vec2 { x, y } }
}

#[test]
fn cursor_starts_free_and_locks_on_first_invert() {
    let mut cursor = Cursor::default();
    assert!(!cursor.locked());
    let mut options = CursorOptions { grab_mode: CursorGrabMode::Free, visible: true };
    cursor.invert_lock(&mut options);
    assert!(cursor.locked());
    assert_eq!(options, CursorOptions { grab_mode: CursorGrabMode::Locked, visible: false });
}

#[test]
fn cursor_is_freed_on_second_invert() {
    let mut cursor = Cursor::default();
    let mut options = CursorOptions { grab_mode: CursorGrabMode::Locked, visible: true };
    cursor.invert_lock(&mut options);
    cursor.invert_lock(&mut options);
    assert!(!cursor.locked());
    assert_eq!(options, CursorOptions { grab_mode: CursorGrabMode::Free, visible: true });
}

#[test]
fn keys_give_movement() {
    let mut input = PlayerInput::default();
    assert_eq!(input.movement, Vec2 { x: 0, y: 0 });
    update_movement_input(&keys(true, false, false, false), &mut input);
    assert_eq!(input.movement, Vec2 { x: 1000, y: 0 });
    update_movement_input(&keys(false, true, true, false), &mut input);
    assert_eq!(input.movement, Vec2 { x: -1000, y: -1000 });
    update_movement_input(&keys(false, false, false, true), &mut input);
    assert_eq!(input.movement, Vec2 { x: 0, y: 1000 });
}

#[test]
fn opposite_keys_cancel() {
    let mut input = PlayerInput { movement: Vec2 { x: 77, y: -77 } };
    update_movement_input(&keys(true, true, true, true), &mut input);
    assert_eq!(input.movement, Vec2 { x: 0, y: 0 });
    update_movement_input(&keys(false, false, false, false), &mut input);
    assert_eq!(input.movement, Vec2 { x: 0, y: 0 });
}

#[test]
fn movement_is_sent_while_there_is_a_camera() {
    let input = PlayerInput { movement: Vec2 { x: 1000, y: -1000 } };
    assert_eq!(apply_local_movement(&input, true), Some(MovementInput { forward: 1000, right: -1000 }));
    assert_eq!(apply_local_movement(&input, false), None);
    let still = PlayerInput::default();
    assert_eq!(apply_local_movement(&still, true), Some(MovementInput { forward: 0, right: 0 }));
}

#[test]
fn mouse_turns_the_camera() {
    let mut c = camera();
    let sent = update_camera_controller(&mut c, &vec![motion(3000, -2000)]);
    assert_eq!(c.rotation, Vec2 { x: 70, y: -105 });
    assert_eq!(sent, Some(RotationInput { yaw: -105, pitch: 70 }));
    assert_eq!(c.rotation_lock, 88000);
    assert_eq!(c.sensitivity, 35);
}

#[test]
fn still_mouse_sends_nothing() {
    let mut c = camera();
    c.rotation = Vec2 { x: 10, y: 20 };
    assert_eq!(update_camera_controller(&mut c, &vec![]), None);
    assert_eq!(c.rotation, Vec2 { x: 10, y: 20 });
}

#[test]
fn pitch_is_held_within_the_lock() {
    let mut c = camera();
    let sent = update_camera_controller(&mut c, &vec![motion(0, -3_000_000)]);
    assert_eq!(c.rotation, Vec2 { x: 88000, y: 0 });
    assert_eq!(sent, Some(RotationInput { yaw: 0, pitch: 88000 }));
    update_camera_controller(&mut c, &vec![motion(0, 6_000_000)]);
    assert_eq!(c.rotation.x, -88000);
}

#[test]
fn lock_is_applied_after_every_move() {
    let mut c = camera();
    update_camera_controller(&mut c, &vec![motion(0, -3_000_000), motion(1000, 1_000_000)]);
    assert_eq!(c.rotation, Vec2 { x: 53000, y: -35 });
}

#[test]
fn yaw_is_not_locked() {
    let mut c = camera();
    update_camera_controller(&mut c, &vec![motion(-20_000_000, 0)]);
    assert_eq!(c.rotation, Vec2 { x: 0, y: 700_000 });
}
