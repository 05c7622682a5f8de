//! From the keys of a client to the velocity that its player is given.

use vstd::prelude::*;
use crate::angle::{cos, cosine, sin, sine};
use crate::game::player::input::PlayerInput;
use crate::network::protocol::MovementInput;
use crate::vector::{
    lemma_normalized_bounds, lemma_normalized_length, lemma_weighted_length, Vec2, Vec3, Vector,
    Wide3,
};

verus! {

/// Speed of a player that moves, in thousandths of a unit per second.
pub const MOVE_SPEED: i32 = 5000;

/// Where a player that looks along `yaw` wants to go: `forward` along its
/// forward axis `(-sin yaw, 0, -cos yaw)` and `right` along its right axis
/// `(cos yaw, 0, -sin yaw)`.
pub open spec fn wish(yaw: int, input: MovementInput) -> Vector {
    Vector {
        x: -sine(yaw) * input.forward + cosine(yaw) * input.right,
        y: 0,
        z: -cosine(yaw) * input.forward - sine(yaw) * input.right,
    }
}

/// The velocity for that wish: `MOVE_SPEED` along its direction, whatever its
/// length, cut to whole steps, and zero where nothing is wanted. Level with
/// the ground.
pub open spec fn target_velocity(yaw: int, input: MovementInput) -> Vec3 {
    wish(yaw, input).unit().weighted(MOVE_SPEED as int)
}

proof fn lemma_axis_product(s: int, f: int)
    requires
        -1000000 <= s <= 1000000,
        -0x8000_0000 <= f <= 0x8000_0000,
    ensures
        -1000000 * 0x8000_0000 <= s * f <= 1000000 * 0x8000_0000,
        -1000000 * 0x8000_0000 <= (-s) * f <= 1000000 * 0x8000_0000,
{
    assert(-1000000 * 0x8000_0000 <= s * f <= 1000000 * 0x8000_0000) by (nonlinear_arith)
        requires
            -1000000 <= s <= 1000000,
            -0x8000_0000 <= f <= 0x8000_0000,
    ;
    assert((-s) * f == -(s * f)) by (nonlinear_arith);
}

/// A vector with no height has a direction with no height, and stays without
/// height when that is weighted.
pub proof fn lemma_level_stays_level(v: Vector, k: int)
    requires
        v.y == 0,
    ensures
        v.unit().y == 0,
        v.unit().weighted(k).y == 0,
{
    let m = v.magnified();
    assert(m.y == 0);
    assert(0int * k == 0) by (nonlinear_arith);
    if m.length_up() != 0 {
        assert(0int / m.length_up() == 0) by (nonlinear_arith)
            requires
                m.length_up() != 0,
        ;
    }
}

/// Whatever a client asks for, its player is given no more than `MOVE_SPEED`:
/// to ask for forward and sideways at once makes a player no faster. A client
/// that asks for nothing is given no velocity.
pub proof fn lemma_speed_limit(yaw: int, input: MovementInput)
    ensures
        target_velocity(yaw, input)@.length_squared() <= MOVE_SPEED * MOVE_SPEED,
        input.forward == 0 && input.right == 0 ==> target_velocity(yaw, input)@ == Vector::zero(),
{
    let w = wish(yaw, input);
    lemma_normalized_bounds(w);
    lemma_normalized_length(w);
    lemma_weighted_length(w.unit()@, MOVE_SPEED as int);
    if input.forward == 0 && input.right == 0 {
        let s = sine(yaw);
        let c = cosine(yaw);
        let f = input.forward as int;
        let r = input.right as int;
        assert(w == Vector::zero()) by (nonlinear_arith)
            requires
                w.x == -s * f + c * r,
                w.y == 0,
                w.z == -c * f - s * r,
                f == 0,
                r == 0,
        ;
        assert(0int * MOVE_SPEED == 0);
    }
}

/// Computes the velocity that a player who looks along `yaw` is given for
/// `input`.
pub fn movement_velocity(yaw: i32, input: &MovementInput) -> (velocity: Vec3)
    ensures
        velocity == target_velocity(yaw as int, *input),
        velocity.y == 0,
        velocity@.length_squared() <= MOVE_SPEED * MOVE_SPEED,
{
    let s: i64 = sin(yaw) as i64;
    let c: i64 = cos(yaw) as i64;
    let forward: i64 = input.forward as i64;
    let right: i64 = input.right as i64;
    proof {
        lemma_axis_product(s as int, forward as int);
        lemma_axis_product(c as int, right as int);
        lemma_axis_product(c as int, forward as int);
        lemma_axis_product(s as int, right as int);
        lemma_level_stays_level(wish(yaw as int, *input), MOVE_SPEED as int);
        lemma_speed_limit(yaw as int, *input);
    }
    let wanted = Wide3 { x: (-s) * forward + c * right, y: 0, z: (-c) * forward - s * right };
    wanted.normalize_or_zero().scaled(MOVE_SPEED)
}

/// Which of the four movement keys are held down.
#[derive(Clone, Copy, Debug, PartialEq, Eq, Structural)]
pub struct MovementKeys {
    pub forward: bool,
    pub backward: bool,
    pub left: bool,
    pub right: bool,
}

/// One unit where the key is held, nothing where it is not.
pub open spec fn held(key: bool) -> int {
    if key {
        1000
    } else {
        0
    }
}

/// What the keys ask for: forward less backward, and right less left.
pub open spec fn asked(keys: MovementKeys) -> Vec2 {
    Vec2 {
        x: (held(keys.forward) - held(keys.backward)) as i32,
        y: (held(keys.right) - held(keys.left)) as i32,
    }
}

/// Takes down what the keys ask for.
pub fn update_movement_input(keys: &MovementKeys, input: &mut PlayerInput)
    ensures
        final(input).movement == asked(*keys),
{
    let mut movement = Vec2 { x: 0, y: 0 };
    if keys.forward {
        movement.x += 1000;
    }
    if keys.backward {
        movement.x -= 1000;
    }
    if keys.left {
        movement.y -= 1000;
    }
    if keys.right {
        movement.y += 1000;
    }
    input.movement = movement;
}

/// The message that tells the server what the keys ask for. It is sent in
/// every frame in which the client has a view, also where nothing is asked,
/// so that a player whose keys are let go stops.
pub fn apply_local_movement(input: &PlayerInput, has_camera: bool) -> (sent: Option<MovementInput>)
    ensures
        sent == if has_camera {
            Some(MovementInput { forward: input.movement.x, right: input.movement.y })
        } else {
            None
        },
{
    if has_camera {
        Some(MovementInput { forward: input.movement.x, right: input.movement.y })
    } else {
        None
    }
}

} // verus!
