//! The three states of an enemy and the rules by which it changes state.
//!
//! The rules look at the current state and at the distance to the nearest
//! player, and at nothing else. With no player in the world an enemy patrols.
//! Whether a player is within a range is decided on the squares of the
//! distance and of the range, which are exact.

use vstd::prelude::*;
use crate::game::enemy::components::{EnemyMovement, EnemyState};
use crate::vector::{is_within, within};

verus! {

/// The state that an enemy in `state` takes when the square of the distance
/// to the nearest player is `nearest`. `None` says that there is no player.
pub open spec fn next_state(
    state: EnemyState,
    nearest: Option<int>,
    movement: EnemyMovement,
) -> EnemyState {
    match nearest {
        None => EnemyState::Patrol,
        Some(squared) => {
            let in_chase_range = is_within(squared, movement.chase_range as int);
            let in_attack_range = is_within(squared, movement.attack_range as int);
            match state {
                EnemyState::Patrol => if in_chase_range {
                    EnemyState::Chase
                } else {
                    EnemyState::Patrol
                },
                EnemyState::Chase => if in_attack_range {
                    EnemyState::Attack
                } else if !in_chase_range {
                    EnemyState::Patrol
                } else {
                    EnemyState::Chase
                },
                EnemyState::Attack => if !in_attack_range && in_chase_range {
                    EnemyState::Chase
                } else if !in_chase_range {
                    EnemyState::Patrol
                } else {
                    EnemyState::Attack
                },
            }
        },
    }
}

/// A measured square of a distance as a number without bounds.
pub open spec fn measured(nearest: Option<u128>) -> Option<int> {
    match nearest {
        Some(d) => Some(d as int),
        None => None,
    }
}

/// Decides the state of an enemy for this tick. `nearest` is the square of
/// the distance to the nearest player.
pub fn transition(state: EnemyState, nearest: Option<u128>, movement: &EnemyMovement) -> (next:
    EnemyState)
    ensures
        next == next_state(state, measured(nearest), *movement),
{
    let squared: u128 = match nearest {
        Some(d) => d,
        None => {
            return EnemyState::Patrol;
        },
    };
    let in_chase_range: bool = within(squared, movement.chase_range);
    let in_attack_range: bool = within(squared, movement.attack_range);
    match state {
        EnemyState::Patrol => {
            if in_chase_range {
                EnemyState::Chase
            } else {
                EnemyState::Patrol
            }
        },
        EnemyState::Chase => {
            if in_attack_range {
                EnemyState::Attack
            } else if !in_chase_range {
                EnemyState::Patrol
            } else {
                EnemyState::Chase
            }
        },
        EnemyState::Attack => {
            if !in_attack_range && in_chase_range {
                EnemyState::Chase
            } else if !in_chase_range {
                EnemyState::Patrol
            } else {
                EnemyState::Attack
            }
        },
    }
}

/// With no player in the world an enemy patrols, whatever it did before.
pub proof fn lemma_no_players_means_patrol(state: EnemyState, movement: EnemyMovement)
    ensures
        next_state(state, None, movement) == EnemyState::Patrol,
{
}

/// Beyond the chase range every enemy patrols; within the attack range a
/// chasing enemy attacks and an attacking enemy keeps attacking; in between a
/// chasing enemy keeps chasing and an attacking enemy falls back to chasing;
/// and a patrolling enemy starts to chase within the chase range.
pub proof fn lemma_bands(state: EnemyState, squared: int, movement: EnemyMovement)
    requires
        movement.wf(),
        0 <= squared,
    ensures
        !is_within(squared, movement.chase_range as int) ==> next_state(
            state,
            Some(squared),
            movement,
        ) == EnemyState::Patrol,
        is_within(squared, movement.attack_range as int) && state != EnemyState::Patrol
            ==> next_state(state, Some(squared), movement) == EnemyState::Attack,
        !is_within(squared, movement.attack_range as int) && is_within(
            squared,
            movement.chase_range as int,
        ) ==> next_state(state, Some(squared), movement) == EnemyState::Chase,
        is_within(squared, movement.chase_range as int) && state == EnemyState::Patrol
            ==> next_state(state, Some(squared), movement) == EnemyState::Chase,
{
    let attack = movement.attack_range as int;
    let chase = movement.chase_range as int;
    if is_within(squared, attack) {
        assert(attack * attack <= chase * chase) by (nonlinear_arith)
            requires
                0 <= attack < chase,
        ;
    }
}

} // verus!
