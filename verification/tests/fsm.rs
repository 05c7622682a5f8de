use fps_sim::game::enemy::components::{EnemyMovement, EnemyState};
use fps_sim::game::enemy::fsm::transition;

/// The square of a distance, as the state machine is handed it.
fn at(distance: u64) -> Option<u128> {
    Some((distance as u128) * (distance as u128))
}

fn params() -> EnemyMovement {
    EnemyMovement { chase_range: 4000, attack_range: 2500, patrol_speed: 2000, chase_speed: 4000 }
}

#[test]
fn default_movement_parameters() {
    assert_eq!(EnemyMovement::default(), params());
}

#[test]
fn no_players_forces_patrol_from_every_state() {
    let m = params();
    assert_eq!(transition(EnemyState::Patrol, None, &m), EnemyState::Patrol);
    assert_eq!(transition(EnemyState::Chase, None, &m), EnemyState::Patrol);
    assert_eq!(transition(EnemyState::Attack, None, &m), EnemyState::Patrol);
}

#[test]
fn chase_at_exactly_attack_range_attacks() {
    assert_eq!(transition(EnemyState::Chase, at(2500), &params()), EnemyState::Attack);
}

#[test]
fn chase_just_outside_attack_range_keeps_chasing() {
    assert_eq!(transition(EnemyState::Chase, at(2501), &params()), EnemyState::Chase);
}

#[test]
fn chase_at_exactly_chase_range_keeps_chasing() {
    assert_eq!(transition(EnemyState::Chase, at(4000), &params()), EnemyState::Chase);
}

#[test]
fn chase_beyond_chase_range_patrols() {
    assert_eq!(transition(EnemyState::Chase, at(4001), &params()), EnemyState::Patrol);
}

#[test]
fn patrol_at_exactly_chase_range_chases() {
    assert_eq!(transition(EnemyState::Patrol, at(4000), &params()), EnemyState::Chase);
}

#[test]
fn patrol_beyond_chase_range_keeps_patrolling() {
    assert_eq!(transition(EnemyState::Patrol, at(4001), &params()), EnemyState::Patrol);
}

#[test]
fn patrol_close_to_player_chases_first() {
    assert_eq!(transition(EnemyState::Patrol, at(0), &params()), EnemyState::Chase);
    assert_eq!(transition(EnemyState::Patrol, at(2500), &params()), EnemyState::Chase);
}

#[test]
fn attack_at_exactly_attack_range_keeps_attacking() {
    assert_eq!(transition(EnemyState::Attack, at(2500), &params()), EnemyState::Attack);
    assert_eq!(transition(EnemyState::Attack, at(0), &params()), EnemyState::Attack);
}

#[test]
fn attack_between_ranges_falls_back_to_chase() {
    assert_eq!(transition(EnemyState::Attack, at(2501), &params()), EnemyState::Chase);
    assert_eq!(transition(EnemyState::Attack, at(4000), &params()), EnemyState::Chase);
}

#[test]
fn attack_beyond_chase_range_patrols() {
    assert_eq!(transition(EnemyState::Attack, at(4001), &params()), EnemyState::Patrol);
    assert_eq!(transition(EnemyState::Attack, at(u64::MAX), &params()), EnemyState::Patrol);
}

#[test]
fn negative_ranges_are_never_reached() {
    let m = EnemyMovement { chase_range: -1, attack_range: -2, patrol_speed: 0, chase_speed: 0 };
    assert_eq!(transition(EnemyState::Patrol, at(0), &m), EnemyState::Patrol);
    assert_eq!(transition(EnemyState::Chase, at(0), &m), EnemyState::Patrol);
    assert_eq!(transition(EnemyState::Attack, at(0), &m), EnemyState::Patrol);
}

#[test]
fn ranges_are_compared_exactly() {
    let m = params();
    let just_beyond_attack = Some(2500u128 * 2500 + 1);
    assert_eq!(transition(EnemyState::Chase, just_beyond_attack, &m), EnemyState::Chase);
    assert_eq!(transition(EnemyState::Attack, just_beyond_attack, &m), EnemyState::Chase);
    let just_beyond_chase = Some(4000u128 * 4000 + 1);
    assert_eq!(transition(EnemyState::Patrol, just_beyond_chase, &m), EnemyState::Patrol);
    assert_eq!(transition(EnemyState::Chase, just_beyond_chase, &m), EnemyState::Patrol);
    assert_eq!(transition(EnemyState::Attack, just_beyond_chase, &m), EnemyState::Patrol);
    assert_eq!(transition(EnemyState::Attack, Some(u128::MAX), &m), EnemyState::Patrol);
}

#[test]
fn zero_ranges_reach_a_player_on_the_spot_only() {
    let m = EnemyMovement { chase_range: 0, attack_range: 0, patrol_speed: 0, chase_speed: 0 };
    assert_eq!(transition(EnemyState::Patrol, at(0), &m), EnemyState::Chase);
    assert_eq!(transition(EnemyState::Chase, at(0), &m), EnemyState::Attack);
    assert_eq!(transition(EnemyState::Chase, at(1), &m), EnemyState::Patrol);
}
