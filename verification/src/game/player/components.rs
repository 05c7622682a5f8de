//! The parts of a player.

use vstd::prelude::*;
use crate::game::transform::Transform;
use crate::network::protocol::{Health, Player, PlayerPosition, PlayerRotation};
use crate::vector::Vec3;

verus! {

/// The velocity that the physics engine is asked to give a body, in
/// thousandths of a unit per second.
#[derive(Clone, Copy, Debug, PartialEq, Eq, Structural)]
pub struct Velocity {
    pub linvel: Vec3,
}

/// A player with all its parts.
#[derive(Clone, Copy, Debug, PartialEq, Eq, Structural)]
pub struct PlayerActor {
    pub player: Player,
    pub position: PlayerPosition,
    pub rotation: PlayerRotation,
    pub health: Health,
    pub transform: Transform,
    pub velocity: Velocity,
}

} // verus!
