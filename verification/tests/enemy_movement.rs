use fps_sim::game::enemy::components::{
    EnemyActor, EnemyMovement, EnemyState, EnemyVelocity, FlockingBehavior, PatrolData,
};
use fps_sim::game::enemy::movement::{blend, move_enemy, step};
use fps_sim::game::enemy::systems::enemy_movement_system;
use fps_sim::game::player::components::{PlayerActor, Velocity};
use fps_sim::game::transform::Transform;
use fps_sim::game::world::state::World;
use fps_sim::network::protocol::{
    Enemy, EnemyPosition, Health, Player, PlayerPosition, PlayerRotation,
};
use fps_sim::vector::{Vec3, Wide3};

fn enemy(at: Vec3, state: EnemyState, steering: Vec3) -> EnemyActor {
    EnemyActor {
        enemy: Enemy { id: 1 },
        position: EnemyPosition { x: 0, y: 0, z: 0 },
        transform: Transform::from_translation(at),
        state,
        patrol: PatrolData::new(Vec3::new(10000, 1000, 10000), 5000),
        movement: EnemyMovement::default(),
        flocking: FlockingBehavior::default(),
        velocity: EnemyVelocity { velocity: steering },
    }
}

fn player(id: u64, at: Vec3) -> PlayerActor {
    PlayerActor {
        player: Player { id, color_index: 0 },
        position: PlayerPosition { x: 0, y: 0, z: 0 },
        rotation: PlayerRotation { yaw: 0, pitch: 0 },
        health: Health { current: 100000, max: 100000 },
        transform: Transform::from_translation(at),
        velocity: Velocity { linvel: Vec3::new(0, 0, 0) },
    }
}

#[test]
fn step_moves_by_speed_times_time() {
    let arrived = step(&Vec3::new(0, 1000, 0), &Vec3::new(1_000_000, 0, 0), 2000, 16);
    assert_eq!(arrived, Vec3::new(32, 1000, 0));
    let diagonal = step(&Vec3::new(0, 0, 0), &Vec3::new(-707_106, 0, 707_106), 4000, 33);
    assert_eq!(diagonal, Vec3::new(-93, 0, 93));
}

#[test]
fn step_of_no_time_or_no_speed_stays() {
    let at = Vec3::new(5, 6, 7);
    assert_eq!(step(&at, &Vec3::new(1_000_000, 0, 0), 4000, 0), at);
    assert_eq!(step(&at, &Vec3::new(1_000_000, 0, 0), 0, 1000), at);
    assert_eq!(step(&at, &Vec3::new(0, 0, 0), 4000, 1000), at);
}

#[test]
fn step_is_held_to_the_stored_range() {
    let at = Vec3::new(i32::MAX - 10, 0, i32::MIN + 10);
    let arrived = step(&at, &Vec3::new(1_000_000, 0, -1_000_000), i32::MAX, u32::MAX);
    assert_eq!(arrived, Vec3::new(i32::MAX, 0, i32::MIN));
}

#[test]
fn blend_direction_with_steering() {
    let blended = blend(&Vec3::new(1_000_000, 0, 0), &Vec3::new(0, 0, 1000));
    assert_eq!(blended, Vec3::new(919_145, 0, 393_919));
    assert_eq!(blended, (Wide3 { x: 700, y: 0, z: 300 }).normalize_or_zero());
    assert_eq!(blend(&Vec3::new(1_000_000, 0, 0), &Vec3::new(0, 0, 5000)), blended);
}

#[test]
fn blend_ignores_steering_at_or_below_threshold() {
    let direction = Vec3::new(600_000, 0, 800_000);
    assert_eq!(blend(&direction, &Vec3::new(0, 0, 0)), direction);
    assert_eq!(blend(&direction, &Vec3::new(0, 0, -100)), direction);
    assert_eq!(blend(&direction, &Vec3::new(60, 0, 80)), direction);
}

#[test]
fn blend_counts_steering_just_above_threshold() {
    assert_eq!(
        blend(&Vec3::new(600_000, 0, 800_000), &Vec3::new(100, 0, 1)),
        Vec3::new(787_752, 0, 615_991)
    );
}

#[test]
fn blend_lets_the_player_dominate() {
    assert_eq!(
        blend(&Vec3::new(1_000_000, 0, 0), &Vec3::new(-5000, 0, 0)),
        Vec3::new(1_000_000, 0, 0)
    );
}

#[test]
fn blend_of_no_direction_follows_steering() {
    assert_eq!(blend(&Vec3::new(0, 0, 0), &Vec3::new(0, 300, 0)), Vec3::new(0, 1_000_000, 0));
}

#[test]
fn patrol_walks_toward_waypoint() {
    let mut e = enemy(Vec3::new(10000, 1000, 13000), EnemyState::Patrol, Vec3::new(0, 0, 0));
    move_enemy(&mut e, &vec![], 16);
    assert_eq!(e.transform.translation, Vec3::new(10029, 1000, 13011));
    assert_eq!(e.patrol.current_index(), 0);
    assert_eq!(e.state, EnemyState::Patrol);
}

#[test]
fn patrol_ignores_players_and_steering() {
    let mut e = enemy(Vec3::new(10000, 1000, 13000), EnemyState::Patrol, Vec3::new(0, 0, -900));
    move_enemy(&mut e, &vec![Vec3::new(10000, 1000, 12000)], 16);
    assert_eq!(e.transform.translation, Vec3::new(10029, 1000, 13011));
    assert_eq!(e.transform.forward, Vec3::new(0, 0, -1000000));
}

#[test]
fn patrol_advances_when_waypoint_reached() {
    let mut e = enemy(Vec3::new(14800, 1000, 14900), EnemyState::Patrol, Vec3::new(0, 0, 0));
    move_enemy(&mut e, &vec![], 100);
    assert_eq!(e.patrol.current_index(), 1);
    assert_eq!(e.transform.translation, Vec3::new(14978, 1000, 14989));
}

#[test]
fn patrol_on_waypoint_advances_and_stays() {
    let mut e = enemy(Vec3::new(15000, 1000, 15000), EnemyState::Patrol, Vec3::new(0, 0, 0));
    move_enemy(&mut e, &vec![], 100);
    assert_eq!(e.patrol.current_index(), 1);
    assert_eq!(e.transform.translation, Vec3::new(15000, 1000, 15000));
}

#[test]
fn patrol_arrival_threshold_is_strict() {
    let mut near = enemy(Vec3::new(15000, 1000, 14501), EnemyState::Patrol, Vec3::new(0, 0, 0));
    move_enemy(&mut near, &vec![], 50);
    assert_eq!(near.patrol.current_index(), 1);
    assert_eq!(near.transform.translation, Vec3::new(15000, 1000, 14601));
    let mut far = enemy(Vec3::new(15000, 1000, 14500), EnemyState::Patrol, Vec3::new(0, 0, 0));
    move_enemy(&mut far, &vec![], 50);
    assert_eq!(far.patrol.current_index(), 0);
    assert_eq!(far.transform.translation, Vec3::new(15000, 1000, 14600));
}

#[test]
fn patrol_is_put_back_on_the_ground() {
    let mut e = enemy(Vec3::new(10000, 7000, 13000), EnemyState::Patrol, Vec3::new(0, 0, 0));
    move_enemy(&mut e, &vec![], 1000);
    assert_eq!(e.transform.translation, Vec3::new(11240, 1000, 13496));
}

#[test]
fn chase_runs_toward_player_and_faces_it() {
    let mut e = enemy(Vec3::new(0, 1000, 0), EnemyState::Chase, Vec3::new(0, 0, 0));
    move_enemy(&mut e, &vec![Vec3::new(3000, 1000, 4000)], 100);
    assert_eq!(e.transform.translation, Vec3::new(240, 1000, 320));
    assert_eq!(e.transform.forward, Vec3::new(600000, 0, 800000));
    assert_eq!(e.patrol.current_index(), 0);
}

#[test]
fn chase_is_nudged_by_steering() {
    let mut e = enemy(Vec3::new(0, 1000, 0), EnemyState::Chase, Vec3::new(0, 0, 1000));
    move_enemy(&mut e, &vec![Vec3::new(10000, 1000, 0)], 1000);
    assert_eq!(e.transform.translation, Vec3::new(3676, 1000, 1575));
    assert_eq!(e.transform.forward, Vec3::new(970_358, 0, -241_669));
    assert_eq!(e.velocity.velocity, Vec3::new(0, 0, 1000));
}

#[test]
fn chase_with_small_steering_runs_straight() {
    let mut e = enemy(Vec3::new(0, 1000, 0), EnemyState::Chase, Vec3::new(0, 0, 100));
    move_enemy(&mut e, &vec![Vec3::new(10000, 1000, 0)], 1000);
    assert_eq!(e.transform.translation, Vec3::new(4000, 1000, 0));
    assert_eq!(e.transform.forward, Vec3::new(1000000, 0, 0));
}

#[test]
fn chase_picks_nearest_player() {
    let mut e = enemy(Vec3::new(0, 1000, 0), EnemyState::Chase, Vec3::new(0, 0, 0));
    move_enemy(&mut e, &vec![Vec3::new(0, 1000, -9000), Vec3::new(-6000, 1000, 0)], 250);
    assert_eq!(e.transform.translation, Vec3::new(-1000, 1000, 0));
    assert_eq!(e.transform.forward, Vec3::new(-1000000, 0, 0));
}

#[test]
fn attack_holds_still_and_faces_player() {
    let mut e = enemy(Vec3::new(0, 1000, 0), EnemyState::Attack, Vec3::new(800, 0, 0));
    move_enemy(&mut e, &vec![Vec3::new(0, 1000, 2000)], 1000);
    assert_eq!(e.transform.translation, Vec3::new(0, 1000, 0));
    assert_eq!(e.transform.forward, Vec3::new(0, 0, 1000000));
}

#[test]
fn hunting_without_players_only_grounds() {
    let mut e = enemy(Vec3::new(7, 9000, 8), EnemyState::Chase, Vec3::new(0, 0, 1000));
    move_enemy(&mut e, &vec![], 1000);
    assert_eq!(e.transform.translation, Vec3::new(7, 1000, 8));
    assert_eq!(e.transform.forward, Vec3::new(0, 0, -1000000));
}

#[test]
fn player_straight_above_does_not_turn_enemy() {
    let mut e = enemy(Vec3::new(0, 1000, 0), EnemyState::Chase, Vec3::new(0, 0, 0));
    move_enemy(&mut e, &vec![Vec3::new(0, 5000, 0)], 250);
    assert_eq!(e.transform.translation, Vec3::new(0, 1000, 0));
    assert_eq!(e.transform.forward, Vec3::new(0, 0, -1000000));
}

#[test]
fn player_on_the_spot_does_not_turn_enemy() {
    let mut e = enemy(Vec3::new(0, 1000, 0), EnemyState::Chase, Vec3::new(0, 0, 0));
    e.transform.forward = Vec3::new(1_000_000, 0, 0);
    move_enemy(&mut e, &vec![Vec3::new(0, 1000, 0)], 250);
    assert_eq!(e.transform.translation, Vec3::new(0, 1000, 0));
    assert_eq!(e.transform.forward, Vec3::new(1000000, 0, 0));
}

#[test]
fn enemy_that_arrives_on_player_keeps_facing() {
    let mut e = enemy(Vec3::new(0, 1000, 0), EnemyState::Chase, Vec3::new(0, 0, 0));
    move_enemy(&mut e, &vec![Vec3::new(1000, 1000, 0)], 250);
    assert_eq!(e.transform.translation, Vec3::new(1000, 1000, 0));
    assert_eq!(e.transform.forward, Vec3::new(0, 0, -1000000));
}

#[test]
fn movement_system_moves_every_enemy_from_old_positions() {
    let mut world = World::new();
    world.players.push(player(7, Vec3::new(3000, 1000, 4000)));
    world.enemies.push(enemy(Vec3::new(0, 1000, 0), EnemyState::Chase, Vec3::new(0, 0, 0)));
    world.enemies.push(enemy(Vec3::new(10000, 1000, 13000), EnemyState::Patrol, Vec3::new(0, 0, 0)));
    world.enemies.push(enemy(Vec3::new(3000, 1000, 6000), EnemyState::Attack, Vec3::new(0, 0, 0)));
    let players_before = world.players.clone();
    enemy_movement_system(&mut world, 100);
    assert_eq!(world.enemies[0].transform.translation, Vec3::new(240, 1000, 320));
    assert_eq!(world.enemies[1].transform.translation, Vec3::new(10185, 1000, 13074));
    assert_eq!(world.enemies[2].transform.translation, Vec3::new(3000, 1000, 6000));
    assert_eq!(world.enemies[2].transform.forward, Vec3::new(0, 0, -1000000));
    assert_eq!(world.enemies[0].position, EnemyPosition { x: 0, y: 0, z: 0 });
    assert_eq!(world.players, players_before);
}

#[test]
fn chase_step_is_cut_once_after_the_blend() {
    // Enemy at (0, 1, 0), player at (10, 1, 0), chase speed 4, half a second:
    // two units along normalize(0.7, 0, 0.3), which is (1.83830, 0.78784).
    let mut e = enemy(Vec3::new(0, 1000, 0), EnemyState::Chase, Vec3::new(0, 0, 1000));
    move_enemy(&mut e, &vec![Vec3::new(10000, 1000, 0)], 500);
    assert_eq!(e.transform.translation, Vec3::new(1838, 1000, 787));
    let mut longer = enemy(Vec3::new(0, 1000, 0), EnemyState::Chase, Vec3::new(0, 0, 5000));
    move_enemy(&mut longer, &vec![Vec3::new(10000, 1000, 0)], 500);
    assert_eq!(longer.transform.translation, Vec3::new(1838, 1000, 787));
}

#[test]
fn step_is_no_longer_than_speed_allows() {
    let mut x: i32 = -30;
    while x <= 30 {
        let mut z: i32 = -30;
        while z <= 30 {
            let direction = Vec3::new(x, 1, z).normalize_or_zero();
            let arrived = step(&Vec3::new(0, 0, 0), &direction, 4000, 500);
            assert!(arrived.length_squared() <= 2000 * 2000);
            assert!(arrived.length() >= 1998);
            z += 7;
        }
        x += 7;
    }
}

fn unit_in_floats(v: [f64; 3]) -> [f64; 3] {
    let l = (v[0] * v[0] + v[1] * v[1] + v[2] * v[2]).sqrt();
    if l == 0.0 {
        [0.0, 0.0, 0.0]
    } else {
        [v[0] / l, v[1] / l, v[2] / l]
    }
}

#[test]
fn chase_step_is_within_a_step_of_the_same_move_in_floats() {
    let mut seed: u64 = 2024;
    let mut next = |span: i32| -> i32 {
        seed = seed.wrapping_mul(6364136223846793005).wrapping_add(1442695040888963407);
        ((seed >> 33) % (2 * span as u64 + 1)) as i32 - span
    };
    for _ in 0..2000 {
        let at = Vec3::new(next(20000), 1000, next(20000));
        let target = Vec3::new(next(20000), 1000, next(20000));
        let steering = Vec3::new(next(4000), 0, next(4000));
        let dt: u32 = (next(500) + 500) as u32;
        let mut e = enemy(at, EnemyState::Chase, steering);
        move_enemy(&mut e, &vec![target], dt);

        let toward = unit_in_floats([(target.x - at.x) as f64, 0.0, (target.z - at.z) as f64]);
        let long = (steering.x as i64).pow(2) + (steering.z as i64).pow(2) > 100 * 100;
        let heading = if long {
            let s = unit_in_floats([steering.x as f64, 0.0, steering.z as f64]);
            unit_in_floats([0.7 * toward[0] + 0.3 * s[0], 0.0, 0.7 * toward[2] + 0.3 * s[2]])
        } else {
            toward
        };
        let length = 4.0 * dt as f64;
        let x = at.x as f64 + heading[0] * length;
        let z = at.z as f64 + heading[2] * length;
        let now = e.transform.translation;
        assert!((now.x as f64 - x).abs() < 1.05, "{:?} {:?} {:?} {} {:?}", at, target, steering, dt, now);
        assert_eq!(now.y, 1000);
        assert!((now.z as f64 - z).abs() < 1.05, "{:?} {:?} {:?} {} {:?}", at, target, steering, dt, now);
    }
}
