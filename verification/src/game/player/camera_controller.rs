//! The view of a client, turned by its mouse.

use vstd::prelude::*;
use crate::fixed::{divide, quotient, saturate, saturated};
use crate::network::protocol::RotationInput;
use crate::vector::{times, Vec2};

verus! {

/// The view of a client. `rotation.x` is the pitch and `rotation.y` the yaw,
/// in thousandths of a degree; the pitch is kept within `rotation_lock` of
/// level. `sensitivity` is the angle turned per step of the mouse.
#[derive(Clone, Copy, Debug, PartialEq, Eq, Structural)]
pub struct CameraController {
    pub rotation: Vec2,
    pub rotation_lock: i32,
    pub sensitivity: i32,
}

/// A move of the mouse, in thousandths of a step.
#[derive(Clone, Copy, Debug, PartialEq, Eq, Structural)]
pub struct MouseMotion {
    pub delta: Vec2,
}

/// `v` held between `-lock` and `lock`.
pub open spec fn locked(v: int, lock: int) -> int {
    if v < -lock {
        -lock
    } else if v > lock {
        lock
    } else {
        v
    }
}

/// The view after a move of the mouse: the yaw turned against the sideways
/// part of the move, the pitch against its upward part and held within the
/// lock.
pub open spec fn turned(camera: CameraController, motion: MouseMotion) -> CameraController {
    CameraController {
        rotation: Vec2 {
            x: locked(
                saturated(camera.rotation.x - quotient(motion.delta.y * camera.sensitivity, 1000)),
                camera.rotation_lock as int,
            ) as i32,
            y: saturated(
                camera.rotation.y - quotient(motion.delta.x * camera.sensitivity, 1000),
            ) as i32,
        },
        ..camera
    }
}

/// The view after the moves in `motions`, taken in order.
pub open spec fn turned_by(camera: CameraController, motions: Seq<MouseMotion>) -> CameraController
    decreases motions.len(),
{
    if motions.len() == 0 {
        camera
    } else {
        turned(turned_by(camera, motions.drop_last()), motions.last())
    }
}

/// The lock stays as it is whatever the mouse does.
pub proof fn lemma_lock_stays(camera: CameraController, motions: Seq<MouseMotion>)
    ensures
        turned_by(camera, motions).rotation_lock == camera.rotation_lock,
        turned_by(camera, motions).sensitivity == camera.sensitivity,
    decreases motions.len(),
{
    if motions.len() > 0 {
        lemma_lock_stays(camera, motions.drop_last());
    }
}

/// After any move of the mouse the pitch lies within the lock.
pub proof fn lemma_pitch_stays_locked(camera: CameraController, motions: Seq<MouseMotion>)
    requires
        camera.rotation_lock >= 0,
        motions.len() > 0,
    ensures
        -camera.rotation_lock <= turned_by(camera, motions).rotation.x <= camera.rotation_lock,
{
    lemma_lock_stays(camera, motions.drop_last());
}

fn turn(camera: &mut CameraController, motion: &MouseMotion)
    requires
        old(camera).rotation_lock >= 0,
    ensures
        *final(camera) == turned(*old(camera), *motion),
{
    let yaw: i32 = saturate(
        camera.rotation.y as i128 - divide(times(motion.delta.x, camera.sensitivity), 1000),
    );
    let pitch: i32 = saturate(
        camera.rotation.x as i128 - divide(times(motion.delta.y, camera.sensitivity), 1000),
    );
    camera.rotation.y = yaw;
    camera.rotation.x = if pitch < -camera.rotation_lock {
        -camera.rotation_lock
    } else if pitch > camera.rotation_lock {
        camera.rotation_lock
    } else {
        pitch
    };
}

/// Turns the view by the moves of the mouse since the last frame. Where the
/// mouse has moved, the new view is to be sent to the server.
pub fn update_camera_controller(camera: &mut CameraController, motions: &Vec<MouseMotion>) -> (sent:
    Option<RotationInput>)
    requires
        old(camera).rotation_lock >= 0,
    ensures
        *final(camera) == turned_by(*old(camera), motions@),
        sent == if motions.len() > 0 {
            Some(RotationInput { yaw: final(camera).rotation.y, pitch: final(camera).rotation.x })
        } else {
            None
        },
{
    let ghost start = *camera;
    let mut i: usize = 0;
    assert(motions@.take(0) =~= Seq::empty());
    while i < motions.len()
        invariant
            i <= motions.len(),
            camera.rotation_lock >= 0,
            *camera == turned_by(start, motions@.take(i as int)),
        decreases motions.len() - i,
    {
        turn(camera, &motions[i]);
        proof {
            let next = motions@.take(i + 1);
            assert(next.drop_last() =~= motions@.take(i as int));
            assert(next.last() == motions@[i as int]);
        }
        i += 1;
    }
    assert(motions@.take(motions.len() as int) =~= motions@);
    if motions.len() > 0 {
        Some(RotationInput { yaw: camera.rotation.y, pitch: camera.rotation.x })
    } else {
        None
    }
}

} // verus!
