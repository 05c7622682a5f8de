//! Combat: what a shot asks of the physics engine, and what a hit does.

use vstd::prelude::*;
use crate::network::protocol::Health;
use crate::vector::Vec3;

verus! {

/// Hit points that one hit takes, in thousandths.
pub const DAMAGE_PER_HIT: i32 = 25000;

/// What a ray struck first.
#[derive(Clone, Copy, Debug, PartialEq, Eq, Structural)]
pub enum HitTarget {
    /// The enemy with this identifier.
    Enemy(u32),
    /// The player with this identifier.
    Player(u64),
    /// Something that is no actor.
    Scenery,
}

/// The nearest thing on a ray and how far along the ray it is.
#[derive(Clone, Copy, Debug, PartialEq, Eq, Structural)]
pub struct RayHit {
    pub target: HitTarget,
    pub distance: i32,
}

/// How far a shot reaches: as far as a scalar can say.
pub const SHOT_RANGE: i32 = 0x7fff_ffff;

/// A question for the physics engine: what does the ray from `origin` along
/// `direction` strike first within `max_distance`, the body of player
/// `exclude` left out?
#[derive(Clone, Copy, Debug, PartialEq, Eq, Structural)]
pub struct RayQuery {
    pub origin: Vec3,
    pub direction: Vec3,
    pub max_distance: i32,
    pub exclude: u64,
}

/// What became of a shot.
#[derive(Clone, Copy, Debug, PartialEq, Eq, Structural)]
pub enum ShotOutcome {
    /// Nobody is known to have fired it.
    Discarded,
    /// It struck no actor that it could harm.
    Missed,
    /// It struck an enemy. Enemies take no damage.
    HitEnemy { shooter: u64, enemy: u32, distance: i32 },
    /// It struck a player, who lives on with `health`.
    HitPlayer { shooter: u64, player: u64, distance: i32, health: Health },
    /// It struck a player, who is left with no health.
    KilledPlayer { shooter: u64, player: u64, distance: i32 },
}

/// The health of a player after one hit: less by `DAMAGE_PER_HIT`, and never
/// below nothing.
pub open spec fn damaged(health: Health) -> Health {
    Health {
        current: if health.current <= DAMAGE_PER_HIT {
            0
        } else {
            (health.current - DAMAGE_PER_HIT) as i32
        },
        max: health.max,
    }
}

/// Takes one hit off `health`.
pub fn apply_damage(health: Health) -> (after: Health)
    ensures
        after == damaged(health),
        health.wf() ==> after.wf(),
        after.current >= 0,
        after.max == health.max,
{
    if health.current <= DAMAGE_PER_HIT {
        Health { current: 0, max: health.max }
    } else {
        Health { current: health.current - DAMAGE_PER_HIT, max: health.max }
    }
}

} // verus!
