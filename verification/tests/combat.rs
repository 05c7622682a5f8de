use fps_sim::game::player::combat::{
    apply_damage, DAMAGE_PER_HIT, HitTarget, RayHit, RayQuery, SHOT_RANGE, ShotOutcome,
};
use fps_sim::game::player::components::{PlayerActor, Velocity};
use fps_sim::game::player::systems::{handle_shoot_events, raycast_for, resolve_shot, ShotReport};
use fps_sim::game::transform::Transform;
use fps_sim::game::world::state::World;
use fps_sim::network::connection::{ClientConnection, ClientId, FromClient};
use fps_sim::network::protocol::{Health, Player, PlayerPosition, PlayerRotation, ShootEvent};
use fps_sim::vector::Vec3;

fn player(id: u64, health: i32) -> PlayerActor {
    PlayerActor {
        player: Player { id, color_index: 0 },
        position: PlayerPosition { x: 0, y: 0, z: 0 },
        rotation: PlayerRotation { yaw: 0, pitch: 0 },
        health: Health { current: health, max: 100000 },
        transform: Transform::from_translation(Vec3::new(0, 1000, 0)),
        velocity: Velocity { linvel: Vec3::new(0, 0, 0) },
    }
}

fn arena() -> World {
    let mut world = World::new();
    world.players.push(player(100, 100000));
    world.players.push(player(200, 100000));
    world.clients.push(ClientConnection { entity: 1, network_id: 100 });
    world.clients.push(ClientConnection { entity: 2, network_id: 200 });
    world
}

fn shot(entity: u64, hit: Option<RayHit>) -> ShotReport {
    ShotReport {
        shot: FromClient {
            client_id: ClientId::Client(entity),
            message: ShootEvent { origin: Vec3::new(0, 1600, 0), direction: Vec3::new(0, 0, -1000) },
        },
        hit,
    }
}

fn hit_player(id: u64) -> Option<RayHit> {
    Some(RayHit { target: HitTarget::Player(id), distance: 7250 })
}

#[test]
fn damage_per_hit_is_twenty_five() {
    assert_eq!(DAMAGE_PER_HIT, 25000);
}

#[test]
fn damage_takes_one_hit_off() {
    let after = apply_damage(Health { current: 100000, max: 100000 });
    assert_eq!(after, Health { current: 75000, max: 100000 });
}

#[test]
fn damage_is_clamped_at_zero() {
    assert_eq!(apply_damage(Health { current: 25000, max: 100000 }).current, 0);
    assert_eq!(apply_damage(Health { current: 10000, max: 100000 }).current, 0);
    assert_eq!(apply_damage(Health { current: 0, max: 100000 }).current, 0);
    assert_eq!(apply_damage(Health { current: 25001, max: 100000 }).current, 1);
    assert_eq!(apply_damage(Health { current: i32::MIN, max: 5 }), Health { current: 0, max: 5 });
}

#[test]
fn hit_on_player_reduces_health_once_per_event() {
    let mut world = arena();
    let first = resolve_shot(&mut world, &shot(1, hit_player(200)));
    assert_eq!(world.players[1].health, Health { current: 75000, max: 100000 });
    assert_eq!(
        first,
        ShotOutcome::HitPlayer {
            shooter: 100,
            player: 200,
            distance: 7250,
            health: Health { current: 75000, max: 100000 },
        }
    );
    let second = resolve_shot(&mut world, &shot(1, hit_player(200)));
    assert_eq!(world.players[1].health, Health { current: 50000, max: 100000 });
    assert_eq!(
        second,
        ShotOutcome::HitPlayer {
            shooter: 100,
            player: 200,
            distance: 7250,
            health: Health { current: 50000, max: 100000 },
        }
    );
    assert_eq!(world.players[0].health, Health { current: 100000, max: 100000 });
}

#[test]
fn batch_of_two_identical_shots_counts_each_once() {
    let mut world = arena();
    let reports = vec![shot(1, hit_player(200)), shot(1, hit_player(200))];
    let outcomes = handle_shoot_events(&mut world, &reports);
    assert_eq!(outcomes.len(), 2);
    assert_eq!(world.players[1].health.current, 50000);
    assert_eq!(world.players[0].health.current, 100000);
}

#[test]
fn fourth_hit_kills_and_health_stays_at_zero() {
    let mut world = arena();
    let reports = vec![
        shot(1, hit_player(200)),
        shot(1, hit_player(200)),
        shot(1, hit_player(200)),
        shot(1, hit_player(200)),
        shot(1, hit_player(200)),
    ];
    let outcomes = handle_shoot_events(&mut world, &reports);
    assert_eq!(world.players[1].health, Health { current: 0, max: 100000 });
    assert!(matches!(outcomes[2], ShotOutcome::HitPlayer { health: Health { current: 25000, .. }, .. }));
    assert_eq!(outcomes[3], ShotOutcome::KilledPlayer { shooter: 100, player: 200, distance: 7250 });
    assert_eq!(outcomes[4], ShotOutcome::KilledPlayer { shooter: 100, player: 200, distance: 7250 });
}

#[test]
fn miss_changes_nothing() {
    let mut world = arena();
    let before = world.clone();
    assert_eq!(resolve_shot(&mut world, &shot(1, None)), ShotOutcome::Missed);
    assert_eq!(world, before);
}

#[test]
fn hit_on_scenery_changes_nothing() {
    let mut world = arena();
    let before = world.clone();
    let report = shot(2, Some(RayHit { target: HitTarget::Scenery, distance: 12 }));
    assert_eq!(resolve_shot(&mut world, &report), ShotOutcome::Missed);
    assert_eq!(world, before);
}

#[test]
fn hit_on_enemy_is_recorded_without_damage() {
    let mut world = arena();
    let before = world.clone();
    let report = shot(2, Some(RayHit { target: HitTarget::Enemy(3), distance: 4321 }));
    assert_eq!(
        resolve_shot(&mut world, &report),
        ShotOutcome::HitEnemy { shooter: 200, enemy: 3, distance: 4321 }
    );
    assert_eq!(world, before);
}

#[test]
fn shot_of_unknown_connection_is_discarded() {
    let mut world = arena();
    let before = world.clone();
    assert_eq!(resolve_shot(&mut world, &shot(9, hit_player(200))), ShotOutcome::Discarded);
    assert_eq!(world, before);
}

#[test]
fn shot_from_server_is_discarded() {
    let mut world = arena();
    let before = world.clone();
    let report = ShotReport {
        shot: FromClient {
            client_id: ClientId::Server,
            message: ShootEvent { origin: Vec3::new(0, 0, 0), direction: Vec3::new(0, 0, 1000) },
        },
        hit: hit_player(200),
    };
    assert_eq!(resolve_shot(&mut world, &report), ShotOutcome::Discarded);
    assert_eq!(world, before);
}

#[test]
fn shot_of_connection_without_player_is_discarded() {
    let mut world = arena();
    world.clients.push(ClientConnection { entity: 3, network_id: 300 });
    let before = world.clone();
    assert_eq!(resolve_shot(&mut world, &shot(3, hit_player(200))), ShotOutcome::Discarded);
    assert_eq!(world, before);
}

#[test]
fn shooter_cannot_hit_itself() {
    let mut world = arena();
    let before = world.clone();
    assert_eq!(resolve_shot(&mut world, &shot(1, hit_player(100))), ShotOutcome::Missed);
    assert_eq!(world, before);
}

#[test]
fn hit_on_player_that_is_gone_changes_nothing() {
    let mut world = arena();
    let before = world.clone();
    assert_eq!(resolve_shot(&mut world, &shot(1, hit_player(777))), ShotOutcome::Missed);
    assert_eq!(world, before);
}

#[test]
fn raycast_excludes_the_shooter() {
    let world = arena();
    let report = shot(2, None);
    assert_eq!(
        raycast_for(&world, &report.shot),
        Some(RayQuery {
            origin: Vec3::new(0, 1600, 0),
            direction: Vec3::new(0, 0, -1000),
            max_distance: SHOT_RANGE,
            exclude: 200,
        })
    );
    assert_eq!(SHOT_RANGE, i32::MAX);
}

#[test]
fn no_raycast_for_unknown_shooter() {
    let world = arena();
    assert_eq!(raycast_for(&world, &shot(9, None).shot), None);
}

#[test]
fn batch_of_shots_of_unknown_senders_changes_nothing() {
    let mut world = arena();
    let before = world.clone();
    let outcomes =
        handle_shoot_events(&mut world, &vec![shot(9, hit_player(200)), shot(7, hit_player(100))]);
    assert_eq!(outcomes, vec![ShotOutcome::Discarded, ShotOutcome::Discarded]);
    assert_eq!(world, before);
}
