//! What the keys of a client ask for.

use vstd::prelude::*;
use crate::vector::Vec2;

verus! {

/// The movement that the keys ask for, in thousandths: `x` is positive for
/// forward and negative for backward, `y` is positive for right and negative
/// for left.
#[derive(Clone, Copy, Debug, PartialEq, Eq, Structural)]
pub struct PlayerInput {
    pub movement: Vec2,
}

impl Default for PlayerInput {
    fn default() -> (input: PlayerInput)
        ensures
            input.movement == (Vec2 { x: 0, y: 0 }),
    {
        PlayerInput { movement: Vec2 { x: 0, y: 0 } }
    }
}

} // verus!
