//! Messages from clients and the records mirrored to them.
//!
//! A message names no actor. Who sent it is known from the connection that
//! delivered it and from nothing else.

use vstd::prelude::*;
use crate::vector::Vec3;

verus! {

pub const PORT: u16 = 5000;

pub const PROTOCOL_ID: u64 = 0;

/// Where a client says it looks, in thousandths of a degree.
#[derive(Clone, Copy, Debug, PartialEq, Eq, Structural)]
pub struct RotationInput {
    pub yaw: i32,
    pub pitch: i32,
}

/// Where a client wants to go, in thousandths: `forward` is negative for
/// backward, `right` is negative for left.
#[derive(Clone, Copy, Debug, PartialEq, Eq, Structural)]
pub struct MovementInput {
    pub forward: i32,
    pub right: i32,
}

/// A shot: the ray that the client fired along. The origin is a place, in
/// thousandths; the direction is a direction, in millionths.
#[derive(Clone, Copy, Debug, PartialEq, Eq, Structural)]
pub struct ShootEvent {
    pub origin: Vec3,
    pub direction: Vec3,
}

/// Identity of a player: `id` is the identifier of the connection that owns it.
#[derive(Clone, Copy, Debug, PartialEq, Eq, Structural)]
pub struct Player {
    pub id: u64,
    pub color_index: u8,
}

/// The entity that stands for a connected client.
#[derive(Clone, Copy, Debug, PartialEq, Eq, Structural)]
pub struct ClientEntity(pub u64);

/// Mirrored position of a player.
#[derive(Clone, Copy, Debug, PartialEq, Eq, Structural)]
pub struct PlayerPosition {
    pub x: i32,
    pub y: i32,
    pub z: i32,
}

/// Mirrored view direction of a player, in thousandths of a degree.
#[derive(Clone, Copy, Debug, PartialEq, Eq, Structural)]
pub struct PlayerRotation {
    pub yaw: i32,
    pub pitch: i32,
}

/// Hit points of a player, in thousandths.
#[derive(Clone, Copy, Debug, PartialEq, Eq, Structural)]
pub struct Health {
    pub current: i32,
    pub max: i32,
}

impl Health {
    /// The current value lies between nothing and the maximum.
    pub open spec fn wf(self) -> bool {
        0 <= self.current <= self.max
    }
}

/// Identity of an enemy, assigned when it is spawned.
#[derive(Clone, Copy, Debug, PartialEq, Eq, Structural)]
pub struct Enemy {
    pub id: u32,
}

/// Mirrored position of an enemy.
#[derive(Clone, Copy, Debug, PartialEq, Eq, Structural)]
pub struct EnemyPosition {
    pub x: i32,
    pub y: i32,
    pub z: i32,
}

} // verus!
