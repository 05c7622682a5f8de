use fps_sim::game::enemy::components::{
    EnemyActor, EnemyMovement, EnemyState, EnemyVelocity, FlockingBehavior, PatrolData,
};
use fps_sim::game::enemy::systems::{
    enemy_flocking_system, enemy_fsm_system, enemy_movement_system, spawn_enemies_system,
    sync_transform_to_enemy_position,
};
use fps_sim::game::player::components::{PlayerActor, Velocity};
use fps_sim::game::player::systems::{
    handle_movement_input, handle_rotation_input, spawn_players_system, sync_transform_to_position,
};
use fps_sim::game::transform::Transform;
use fps_sim::game::world::state::{EnemySnapshot, PlayerSnapshot, World};
use fps_sim::game::world::tick::run_tick;
use fps_sim::network::connection::{ClientConnection, ClientId, FromClient};
use fps_sim::network::protocol::{
    Enemy, EnemyPosition, Health, MovementInput, Player, PlayerPosition, PlayerRotation,
    RotationInput,
};
use fps_sim::network::server::ServerEvent;
use fps_sim::vector::Vec3;

fn enemy(id: u32, at: Vec3, state: EnemyState) -> EnemyActor {
    EnemyActor {
        enemy: Enemy { id },
        position: EnemyPosition { x: at.x, y: at.y, z: at.z },
        transform: Transform::from_translation(at),
        state,
        patrol: PatrolData::new(Vec3::new(10000, 1000, 10000), 5000),
        movement: EnemyMovement { chase_range: 4000, attack_range: 2500, patrol_speed: 2000, chase_speed: 4000 },
        flocking: FlockingBehavior::default(),
        velocity: EnemyVelocity { velocity: Vec3::new(0, 0, 0) },
    }
}

fn player(id: u64, at: Vec3) -> PlayerActor {
    PlayerActor {
        player: Player { id, color_index: 0 },
        position: PlayerPosition { x: at.x, y: at.y, z: at.z },
        rotation: PlayerRotation { yaw: 0, pitch: 0 },
        health: Health { current: 100000, max: 100000 },
        transform: Transform::from_translation(at),
        velocity: Velocity { linvel: Vec3::new(0, 0, 0) },
    }
}

fn states(world: &World) -> Vec<EnemyState> {
    world.enemies.iter().map(|e| e.state).collect()
}

#[test]
fn without_players_every_enemy_patrols_after_fsm() {
    let mut world = World::new();
    world.enemies.push(enemy(1, Vec3::new(0, 1000, 0), EnemyState::Patrol));
    world.enemies.push(enemy(2, Vec3::new(5, 1000, 5), EnemyState::Chase));
    world.enemies.push(enemy(3, Vec3::new(9, 1000, 9), EnemyState::Attack));
    enemy_fsm_system(&mut world);
    assert_eq!(states(&world), vec![EnemyState::Patrol, EnemyState::Patrol, EnemyState::Patrol]);
}

#[test]
fn without_players_every_enemy_patrols_after_one_tick() {
    let mut world = World::new();
    world.enemies.push(enemy(1, Vec3::new(0, 1000, 0), EnemyState::Attack));
    world.enemies.push(enemy(2, Vec3::new(5, 1000, 5), EnemyState::Chase));
    run_tick(&mut world, &vec![], &vec![], &vec![], 16);
    assert_eq!(states(&world), vec![EnemyState::Patrol, EnemyState::Patrol]);
}

#[test]
fn enemy_at_exactly_attack_range_of_only_player_attacks() {
    let mut world = World::new();
    world.players.push(player(1, Vec3::new(0, 1000, 0)));
    world.enemies.push(enemy(1, Vec3::new(2500, 1000, 0), EnemyState::Chase));
    world.enemies.push(enemy(2, Vec3::new(1500, 1000, -2000), EnemyState::Chase));
    enemy_fsm_system(&mut world);
    assert_eq!(states(&world), vec![EnemyState::Attack, EnemyState::Attack]);
}

#[test]
fn enemy_at_exactly_chase_range_of_only_player() {
    let mut world = World::new();
    world.players.push(player(1, Vec3::new(0, 1000, 0)));
    world.enemies.push(enemy(1, Vec3::new(4000, 1000, 0), EnemyState::Chase));
    world.enemies.push(enemy(2, Vec3::new(0, 1000, -4000), EnemyState::Patrol));
    world.enemies.push(enemy(3, Vec3::new(-4000, 1000, 0), EnemyState::Attack));
    world.enemies.push(enemy(4, Vec3::new(4001, 1000, 0), EnemyState::Chase));
    enemy_fsm_system(&mut world);
    assert_eq!(
        states(&world),
        vec![EnemyState::Chase, EnemyState::Chase, EnemyState::Chase, EnemyState::Patrol]
    );
}

#[test]
fn fsm_reacts_to_the_nearest_player() {
    let mut world = World::new();
    world.players.push(player(1, Vec3::new(50000, 1000, 0)));
    world.players.push(player(2, Vec3::new(0, 1000, 3000)));
    world.enemies.push(enemy(1, Vec3::new(0, 1000, 0), EnemyState::Patrol));
    world.enemies.push(enemy(2, Vec3::new(50000, 1000, 1000), EnemyState::Chase));
    enemy_fsm_system(&mut world);
    assert_eq!(states(&world), vec![EnemyState::Chase, EnemyState::Attack]);
}

#[test]
fn fsm_changes_nothing_but_states() {
    let mut world = World::new();
    world.players.push(player(1, Vec3::new(0, 1000, 0)));
    world.enemies.push(enemy(1, Vec3::new(1000, 1000, 0), EnemyState::Patrol));
    let mut expected = world.clone();
    expected.enemies[0].state = EnemyState::Chase;
    enemy_fsm_system(&mut world);
    assert_eq!(world, expected);
}

#[test]
fn enemy_sync_copies_transform_into_position() {
    let mut world = World::new();
    world.enemies.push(enemy(1, Vec3::new(1, 2, 3), EnemyState::Patrol));
    world.enemies[0].transform.translation = Vec3::new(4, 5, 6);
    let mut expected = world.clone();
    expected.enemies[0].position = EnemyPosition { x: 4, y: 5, z: 6 };
    sync_transform_to_enemy_position(&mut world);
    assert_eq!(world, expected);
}

#[test]
fn tick_runs_the_stages_in_order() {
    let events = vec![ServerEvent::ClientConnected { client_id: 100 }];
    let rotations =
        vec![FromClient { client_id: ClientId::Client(1), message: RotationInput { yaw: 90000, pitch: 0 } }];
    let movements =
        vec![FromClient { client_id: ClientId::Client(1), message: MovementInput { forward: 1000, right: 0 } }];
    let mut world = World::new();
    world.clients.push(ClientConnection { entity: 1, network_id: 100 });
    let mut staged = world.clone();
    run_tick(&mut world, &events, &rotations, &movements, 50);

    spawn_players_system(&mut staged, &events);
    spawn_enemies_system(&mut staged);
    handle_rotation_input(&mut staged, &rotations);
    handle_movement_input(&mut staged, &movements);
    enemy_fsm_system(&mut staged);
    enemy_flocking_system(&mut staged);
    enemy_movement_system(&mut staged, 50);
    sync_transform_to_position(&mut staged);
    sync_transform_to_enemy_position(&mut staged);
    assert_eq!(world, staged);

    assert_eq!(world.players.len(), 1);
    assert_eq!(world.players[0].rotation.yaw, 90000);
    assert_eq!(world.players[0].velocity.linvel, Vec3::new(-5000, 0, 0));
    assert_eq!(world.enemies.len(), 3);
    assert_eq!(states(&world), vec![EnemyState::Patrol, EnemyState::Patrol, EnemyState::Patrol]);
    assert_eq!(world.enemies[0].transform.translation, Vec3::new(10092, 1000, 13037));
    assert_eq!(world.enemies[0].position, EnemyPosition { x: 10092, y: 1000, z: 13037 });
}

#[test]
fn enemies_hunt_a_player_over_several_ticks() {
    let mut world = World::new();
    world.players.push(player(1, Vec3::new(10000, 1000, 9000)));
    spawn_enemies_system(&mut world);
    run_tick(&mut world, &vec![], &vec![], &vec![], 100);
    assert_eq!(states(&world), vec![EnemyState::Chase, EnemyState::Chase, EnemyState::Chase]);
    for e in world.enemies.iter() {
        assert_eq!(e.transform.translation.y, 1000);
    }
    let far_before = world.enemies[0].transform.translation.distance(&Vec3::new(10000, 1000, 9000));
    run_tick(&mut world, &vec![], &vec![], &vec![], 100);
    let far_after = world.enemies[0].transform.translation.distance(&Vec3::new(10000, 1000, 9000));
    assert!(far_after < far_before);
    let mut ticks = 0;
    while ticks < 40 {
        run_tick(&mut world, &vec![], &vec![], &vec![], 100);
        ticks += 1;
    }
    for e in world.enemies.iter() {
        assert_ne!(e.state, EnemyState::Patrol);
        assert!(e.transform.translation.distance(&Vec3::new(10000, 1000, 9000)) <= 4000);
    }
}

#[test]
fn snapshot_shows_replicated_fields_only() {
    let mut world = World::new();
    world.players.push(player(9, Vec3::new(1, 2, 3)));
    world.players[0].rotation = PlayerRotation { yaw: 4, pitch: 5 };
    world.players[0].health = Health { current: 6, max: 7 };
    world.enemies.push(enemy(8, Vec3::new(10, 11, 12), EnemyState::Attack));
    let shown = world.snapshot();
    assert_eq!(
        shown.players,
        vec![PlayerSnapshot {
            player: Player { id: 9, color_index: 0 },
            position: PlayerPosition { x: 1, y: 2, z: 3 },
            rotation: PlayerRotation { yaw: 4, pitch: 5 },
            health: Health { current: 6, max: 7 },
        }]
    );
    assert_eq!(
        shown.enemies,
        vec![EnemySnapshot { enemy: Enemy { id: 8 }, position: EnemyPosition { x: 10, y: 11, z: 12 } }]
    );
}

#[test]
fn new_world_is_well_formed() {
    assert!(World::new().is_well_formed());
}

#[test]
fn world_stays_well_formed_through_ticks() {
    let mut world = World::new();
    world.clients.push(ClientConnection { entity: 1, network_id: 100 });
    world.clients.push(ClientConnection { entity: 2, network_id: 200 });
    let events = vec![
        ServerEvent::ClientConnected { client_id: 100 },
        ServerEvent::ClientConnected { client_id: 200 },
        ServerEvent::ClientConnected { client_id: 100 },
    ];
    let movements =
        vec![FromClient { client_id: ClientId::Client(2), message: MovementInput { forward: -1000, right: 1000 } }];
    run_tick(&mut world, &events, &vec![], &movements, 16);
    assert!(world.is_well_formed());
    assert_eq!(world.players.len(), 2);
    let mut ticks = 0;
    while ticks < 200 {
        world.players[0].transform.translation = Vec3::new(10000 + ticks * 10, 1000, 9000);
        run_tick(&mut world, &vec![], &vec![], &movements, 16);
        assert!(world.is_well_formed());
        for e in world.enemies.iter() {
            assert!(e.patrol.current_index() < e.patrol.waypoints().len());
            assert_eq!(e.transform.translation.y, 1000);
        }
        ticks += 1;
    }
}

#[test]
fn health_out_of_range_is_not_well_formed() {
    let mut world = World::new();
    world.players.push(player(1, Vec3::new(0, 0, 0)));
    assert!(world.is_well_formed());
    world.players[0].health = Health { current: 100001, max: 100000 };
    assert!(!world.is_well_formed());
    world.players[0].health = Health { current: -1, max: 100000 };
    assert!(!world.is_well_formed());
    world.players[0].health = Health { current: 0, max: 0 };
    assert!(world.is_well_formed());
}

#[test]
fn shared_identifier_is_not_well_formed() {
    let mut world = World::new();
    world.players.push(player(1, Vec3::new(0, 0, 0)));
    world.players.push(player(2, Vec3::new(0, 0, 0)));
    world.players.push(player(1, Vec3::new(5, 5, 5)));
    assert!(!world.is_well_formed());
    world.players.truncate(2);
    assert!(world.is_well_formed());
    world.enemies.push(enemy(7, Vec3::new(0, 1000, 0), EnemyState::Patrol));
    world.enemies.push(enemy(8, Vec3::new(0, 1000, 0), EnemyState::Patrol));
    assert!(world.is_well_formed());
    world.enemies.push(enemy(7, Vec3::new(9, 1000, 9), EnemyState::Chase));
    assert!(!world.is_well_formed());
}

#[test]
fn tick_hands_out_the_snapshot_of_the_world_it_leaves() {
    let mut world = World::new();
    world.players.push(player(9, Vec3::new(1, 2, 3)));
    world.players[0].transform.translation = Vec3::new(7, 8, 9);
    let shown = run_tick(&mut world, &vec![], &vec![], &vec![], 20);
    assert_eq!(shown, world.snapshot());
    assert_eq!(shown.players[0].position, PlayerPosition { x: 7, y: 8, z: 9 });
    assert_eq!(shown.enemies.len(), 3);
    assert_eq!(shown.enemies[0].enemy, Enemy { id: 1 });
}

#[test]
fn attack_range_not_below_chase_range_is_not_well_formed() {
    let mut world = World::new();
    world.enemies.push(enemy(1, Vec3::new(0, 1000, 0), EnemyState::Patrol));
    assert!(world.is_well_formed());
    world.enemies[0].movement.attack_range = 4000;
    assert!(!world.is_well_formed());
}
