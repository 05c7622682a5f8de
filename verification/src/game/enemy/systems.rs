//! The stages that advance the enemies, one call per tick.

use vstd::prelude::*;
use crate::game::enemy::components::{
    square_loop, EnemyActor, EnemyMovement, EnemyState, EnemyVelocity, EnemyView, FlockingBehavior,
    PatrolData, PatrolView,
};
use crate::game::enemy::flocking::{flocking_force, steering, FlockMember};
use crate::game::enemy::fsm::{next_state, transition};
use crate::game::enemy::invariants::{
    is_isolated, is_steered_within_weights, is_within_a_step, lemma_enemy_stages_keep_wf,
    lemma_isolated_enemy_is_not_steered, lemma_movement_is_bounded, lemma_no_players_all_patrol,
    lemma_steering_is_bounded,
};
use crate::game::enemy::movement::{enemy_moved, move_enemy};
use crate::game::enemy::targeting::{nearest_distance_squared, nearest_target};
use crate::game::player::components::PlayerActor;
use crate::game::transform::Transform;
use crate::game::world::state::{World, WorldView};
use crate::network::protocol::{Enemy, EnemyPosition};
use crate::vector::{Vec3, Vector};

verus! {

/// Distance of each enemy of the first cluster from the middle of the cluster.
pub const SPAWN_RADIUS: i32 = 3000;

/// Half-width of the square that the first cluster patrols.
pub const PATROL_RADIUS: i32 = 5000;

/// The middle of the first cluster.
pub open spec fn cluster_center() -> Vec3 {
    Vec3 { x: 10000, y: 1000, z: 10000 }
}

/// Where the enemy with identifier `id` stands relative to the middle of the
/// cluster: the three enemies form a triangle, the first to the north, the
/// second to the south-west and the third to the south-east.
pub open spec fn spawn_offset(id: int) -> Vector {
    if id == 1 {
        Vector { x: 0, y: 0, z: SPAWN_RADIUS as int }
    } else if id == 2 {
        Vector { x: -(SPAWN_RADIUS * 866 / 1000), y: 0, z: -(SPAWN_RADIUS * 500 / 1000) }
    } else {
        Vector { x: SPAWN_RADIUS * 866 / 1000, y: 0, z: -(SPAWN_RADIUS * 500 / 1000) }
    }
}

/// Where the enemy with identifier `id` is spawned.
pub open spec fn spawn_point(id: int) -> Vec3 {
    cluster_center()@.plus(spawn_offset(id)).stored()
}

/// The enemy with identifier `id` as it is spawned: on patrol round the
/// cluster, standing still, with the standard parameters.
pub open spec fn spawned_enemy(id: int) -> EnemyView {
    let at = spawn_point(id);
    EnemyView {
        enemy: Enemy { id: id as u32 },
        position: EnemyPosition { x: at.x, y: at.y, z: at.z },
        transform: Transform::at(at),
        state: EnemyState::Patrol,
        patrol: PatrolView {
            waypoints: square_loop(cluster_center(), PATROL_RADIUS as int),
            current: 0,
        },
        movement: EnemyMovement::standard(),
        flocking: FlockingBehavior::standard(),
        velocity: EnemyVelocity::still(),
    }
}

/// The enemies of a world that had none: the first cluster.
pub open spec fn first_cluster() -> Seq<EnemyView> {
    seq![spawned_enemy(1), spawned_enemy(2), spawned_enemy(3)]
}

/// The world after the spawner has run: a world without enemies has the first
/// cluster, a world with an enemy is as it was.
pub open spec fn after_enemy_spawn(w: WorldView) -> WorldView {
    if w.enemies.len() > 0 {
        w
    } else {
        WorldView { enemies: first_cluster(), ..w }
    }
}

fn spawn_enemy(id: u32, offset: Vec3) -> (actor: EnemyActor)
    requires
        1 <= id <= 3,
        offset@ == spawn_offset(id as int),
    ensures
        actor@ == spawned_enemy(id as int),
{
    let center = Vec3::new(10000, 1000, 10000);
    let at = center.plus(&offset);
    EnemyActor {
        enemy: Enemy { id },
        position: EnemyPosition { x: at.x, y: at.y, z: at.z },
        transform: Transform::from_translation(at),
        state: EnemyState::Patrol,
        patrol: PatrolData::new(center, PATROL_RADIUS),
        movement: EnemyMovement::default(),
        flocking: FlockingBehavior::default(),
        velocity: EnemyVelocity::default(),
    }
}

/// Spawns the first cluster of three enemies, unless the world has an enemy
/// already.
pub fn spawn_enemies_system(world: &mut World)
    ensures
        final(world)@ == after_enemy_spawn(old(world)@),
        old(world)@.wf() ==> final(world)@.wf(),
{
    proof {
        if old(world)@.wf() {
            lemma_enemy_stages_keep_wf(old(world)@, 0);
        }
    }
    if world.enemies.len() > 0 {
        return;
    }
    world.enemies.push(spawn_enemy(1, Vec3::new(0, 0, 3000)));
    world.enemies.push(spawn_enemy(2, Vec3::new(-2598, 0, -1500)));
    world.enemies.push(spawn_enemy(3, Vec3::new(2598, 0, -1500)));
    assert(world@.enemies =~= first_cluster());
}

/// Where the players are, in the order of the store.
pub open spec fn player_positions(players: Seq<PlayerActor>) -> Seq<Vec3> {
    players.map_values(|p: PlayerActor| p.transform.translation)
}

/// Takes down where the players are.
pub fn collect_player_positions(world: &World) -> (targets: Vec<Vec3>)
    ensures
        targets@ == player_positions(world@.players),
{
    let mut targets: Vec<Vec3> = Vec::new();
    let mut i: usize = 0;
    while i < world.players.len()
        invariant
            i <= world.players.len(),
            targets.len() == i,
            forall|k: int| 0 <= k < i ==> targets[k] == world.players[k].transform.translation,
        decreases world.players.len() - i,
    {
        targets.push(world.players[i].transform.translation);
        i += 1;
    }
    assert(targets@ =~= player_positions(world@.players));
    targets
}

/// The enemy in the state that the rules give it, with the players at
/// `targets`.
pub open spec fn with_next_state(e: EnemyView, targets: Seq<Vec3>) -> EnemyView {
    EnemyView {
        state: next_state(
            e.state,
            nearest_distance_squared(e.transform.translation, targets),
            e.movement,
        ),
        ..e
    }
}

fn update_state(enemy: &mut EnemyActor, targets: &Vec<Vec3>)
    ensures
        final(enemy)@ == with_next_state(old(enemy)@, targets@),
{
    let nearest: Option<u128> = match nearest_target(&enemy.transform.translation, targets) {
        Some((_, d)) => Some(d),
        None => None,
    };
    enemy.state = transition(enemy.state, nearest, &enemy.movement);
}

/// The world after the states of the enemies have been decided: every enemy
/// is in the state that the rules give it for where it and the players stood
/// before. Nothing else has changed.
pub open spec fn after_fsm(w: WorldView) -> WorldView {
    WorldView {
        enemies: w.enemies.map_values(
            |e: EnemyView| with_next_state(e, player_positions(w.players)),
        ),
        ..w
    }
}

/// Decides the state of every enemy for this tick, from where the players
/// and the enemy stood when the tick began.
pub fn enemy_fsm_system(world: &mut World)
    ensures
        final(world)@ == after_fsm(old(world)@),
        old(world)@.wf() ==> final(world)@.wf(),
        old(world)@.players.len() == 0 ==> forall|i: int|
            0 <= i < final(world)@.enemies.len() ==> (#[trigger] final(world)@.enemies[i]).state
                == EnemyState::Patrol,
{
    proof {
        if old(world)@.players.len() == 0 {
            lemma_no_players_all_patrol(old(world)@);
        }
        if old(world)@.wf() {
            lemma_enemy_stages_keep_wf(old(world)@, 0);
        }
    }
    let ghost start = world@;
    let targets: Vec<Vec3> = collect_player_positions(world);
    let mut i: usize = 0;
    while i < world.enemies.len()
        invariant
            i <= world.enemies.len(),
            world.players@ == start.players,
            world.clients@ == start.clients,
            world.player_count == start.player_count,
            world.enemies.len() == start.enemies.len(),
            targets@ == player_positions(start.players),
            forall|k: int|
                0 <= k < i ==> world.enemies[k]@ == with_next_state(start.enemies[k], targets@),
            forall|k: int| i <= k < world.enemies.len() ==> world.enemies[k]@ == start.enemies[k],
        decreases world.enemies.len() - i,
    {
        update_state(&mut world.enemies[i], &targets);
        i += 1;
    }
    assert(world@.enemies =~= start.enemies.map_values(
        |e: EnemyView| with_next_state(e, player_positions(start.players)),
    ));
}

/// What flocking reads of the enemies, in the order of the store.
pub open spec fn flock_snapshot(enemies: Seq<EnemyView>) -> Seq<FlockMember> {
    enemies.map_values(
        |e: EnemyView|
            FlockMember { position: e.transform.translation, velocity: e.velocity.velocity },
    )
}

/// Takes the snapshot that the forces of this tick are computed from.
pub fn collect_flock(world: &World) -> (snapshot: Vec<FlockMember>)
    ensures
        snapshot@ == flock_snapshot(world@.enemies),
{
    let mut snapshot: Vec<FlockMember> = Vec::new();
    let mut i: usize = 0;
    while i < world.enemies.len()
        invariant
            i <= world.enemies.len(),
            snapshot.len() == i,
            forall|k: int|
                0 <= k < i ==> snapshot[k] == (FlockMember {
                    position: world.enemies[k].transform.translation,
                    velocity: world.enemies[k].velocity.velocity,
                }),
        decreases world.enemies.len() - i,
    {
        snapshot.push(
            FlockMember {
                position: world.enemies[i].transform.translation,
                velocity: world.enemies[i].velocity.velocity,
            },
        );
        i += 1;
    }
    assert(snapshot@ =~= flock_snapshot(world@.enemies));
    snapshot
}

/// Enemy `me` with the steering vector for this tick: that of the flock for an
/// enemy that chases, zero for one that patrols or attacks.
pub open spec fn steered(e: EnemyView, me: int, snapshot: Seq<FlockMember>) -> EnemyView {
    EnemyView {
        velocity: EnemyVelocity {
            velocity: if e.state == EnemyState::Chase {
                steering(snapshot, me, e.flocking)
            } else {
                Vector::zero().stored()
            },
        },
        ..e
    }
}

fn steer(enemy: &mut EnemyActor, me: usize, snapshot: &Vec<FlockMember>)
    requires
        me < snapshot.len(),
    ensures
        final(enemy)@ == steered(old(enemy)@, me as int, snapshot@),
{
    if enemy.state == EnemyState::Chase {
        enemy.velocity.velocity = flocking_force(snapshot, me, &enemy.flocking);
    } else {
        enemy.velocity.velocity = Vec3::zero();
    }
}

/// The world after flocking: every enemy has its steering vector for this
/// tick, computed from where all enemies stood and how they were steered
/// before. Nothing else has changed.
pub open spec fn after_flocking(w: WorldView) -> WorldView {
    WorldView {
        enemies: Seq::new(
            w.enemies.len(),
            |i: int| steered(w.enemies[i], i, flock_snapshot(w.enemies)),
        ),
        ..w
    }
}

/// Computes the steering vector of every enemy for this tick, from where the
/// enemies stood and how they were steered when the tick began. The vector
/// replaces that of the last tick.
pub fn enemy_flocking_system(world: &mut World)
    ensures
        final(world)@ == after_flocking(old(world)@),
        old(world)@.wf() ==> final(world)@.wf(),
        forall|me: int|
            0 <= me < old(world)@.enemies.len() && is_isolated(old(world)@, me) ==> (
            #[trigger] final(world)@.enemies[me]).velocity.velocity == (Vec3 { x: 0, y: 0, z: 0 }),
        forall|me: int|
            0 <= me < final(world)@.enemies.len() ==> is_steered_within_weights(
                #[trigger] final(world)@.enemies[me],
            ),
{
    proof {
        assert forall|me: int|
            0 <= me < old(world)@.enemies.len() implies is_steered_within_weights(
            #[trigger] after_flocking(old(world)@).enemies[me],
        ) by {
            lemma_steering_is_bounded(old(world)@, me);
        }
        assert forall|me: int|
            0 <= me < old(world)@.enemies.len() && is_isolated(old(world)@, me) implies (
        #[trigger] after_flocking(old(world)@).enemies[me]).velocity.velocity == (Vec3 {
            x: 0,
            y: 0,
            z: 0,
        }) by {
            lemma_isolated_enemy_is_not_steered(old(world)@, me);
        }
        if old(world)@.wf() {
            lemma_enemy_stages_keep_wf(old(world)@, 0);
        }
    }
    let ghost start = world@;
    let snapshot: Vec<FlockMember> = collect_flock(world);
    let mut i: usize = 0;
    while i < world.enemies.len()
        invariant
            i <= world.enemies.len(),
            world.players@ == start.players,
            world.clients@ == start.clients,
            world.player_count == start.player_count,
            world.enemies.len() == start.enemies.len(),
            snapshot@ == flock_snapshot(start.enemies),
            forall|k: int|
                0 <= k < i ==> world.enemies[k]@ == steered(start.enemies[k], k, snapshot@),
            forall|k: int| i <= k < world.enemies.len() ==> world.enemies[k]@ == start.enemies[k],
        decreases world.enemies.len() - i,
    {
        steer(&mut world.enemies[i], i, &snapshot);
        i += 1;
    }
    assert(world@.enemies =~= Seq::new(
        start.enemies.len(),
        |i: int| steered(start.enemies[i], i, flock_snapshot(start.enemies)),
    ));
}

/// The world after the enemies have moved for `dt` thousandths of a second.
/// Nothing but the enemies has changed.
pub open spec fn after_movement(w: WorldView, dt: int) -> WorldView {
    WorldView {
        enemies: w.enemies.map_values(
            |e: EnemyView| enemy_moved(e, player_positions(w.players), dt),
        ),
        ..w
    }
}

/// Moves every enemy for one tick of `dt` thousandths of a second.
pub fn enemy_movement_system(world: &mut World, dt: u32)
    ensures
        final(world)@ == after_movement(old(world)@, dt as int),
        old(world)@.wf() ==> final(world)@.wf(),
        forall|me: int|
            0 <= me < old(world)@.enemies.len() ==> is_within_a_step(
                old(world)@.enemies[me],
                #[trigger] final(world)@.enemies[me],
                dt as int,
            ),
{
    proof {
        assert forall|me: int| 0 <= me < old(world)@.enemies.len() implies is_within_a_step(
            old(world)@.enemies[me],
            #[trigger] after_movement(old(world)@, dt as int).enemies[me],
            dt as int,
        ) by {
            lemma_movement_is_bounded(old(world)@, dt as int, me);
        }
        if old(world)@.wf() {
            lemma_enemy_stages_keep_wf(old(world)@, dt as int);
        }
    }
    let ghost start = world@;
    let targets: Vec<Vec3> = collect_player_positions(world);
    let mut i: usize = 0;
    while i < world.enemies.len()
        invariant
            i <= world.enemies.len(),
            world.players@ == start.players,
            world.clients@ == start.clients,
            world.player_count == start.player_count,
            world.enemies.len() == start.enemies.len(),
            targets@ == player_positions(start.players),
            forall|k: int|
                0 <= k < i ==> world.enemies[k]@ == enemy_moved(
                    start.enemies[k],
                    targets@,
                    dt as int,
                ),
            forall|k: int| i <= k < world.enemies.len() ==> world.enemies[k]@ == start.enemies[k],
        decreases world.enemies.len() - i,
    {
        move_enemy(&mut world.enemies[i], &targets, dt);
        i += 1;
    }
    assert(world@.enemies =~= start.enemies.map_values(
        |e: EnemyView| enemy_moved(e, player_positions(start.players), dt as int),
    ));
}

/// The enemy with its mirrored position brought up to where it is.
pub open spec fn position_synced(e: EnemyView) -> EnemyView {
    EnemyView {
        position: EnemyPosition {
            x: e.transform.translation.x,
            y: e.transform.translation.y,
            z: e.transform.translation.z,
        },
        ..e
    }
}

/// The world with the mirrored position of every enemy brought up to where
/// the enemy is.
pub open spec fn after_enemy_sync(w: WorldView) -> WorldView {
    WorldView { enemies: w.enemies.map_values(|e: EnemyView| position_synced(e)), ..w }
}

/// Copies where every enemy is into the position that is mirrored to the
/// clients.
pub fn sync_transform_to_enemy_position(world: &mut World)
    ensures
        final(world)@ == after_enemy_sync(old(world)@),
        old(world)@.wf() ==> final(world)@.wf(),
{
    proof {
        if old(world)@.wf() {
            lemma_enemy_stages_keep_wf(old(world)@, 0);
        }
    }
    let ghost start = world@;
    let mut i: usize = 0;
    while i < world.enemies.len()
        invariant
            i <= world.enemies.len(),
            world.players@ == start.players,
            world.clients@ == start.clients,
            world.player_count == start.player_count,
            world.enemies.len() == start.enemies.len(),
            forall|k: int| 0 <= k < i ==> world.enemies[k]@ == position_synced(start.enemies[k]),
            forall|k: int| i <= k < world.enemies.len() ==> world.enemies[k]@ == start.enemies[k],
        decreases world.enemies.len() - i,
    {
        let at: Vec3 = world.enemies[i].transform.translation;
        world.enemies[i].position = EnemyPosition { x: at.x, y: at.y, z: at.z };
        i += 1;
    }
    assert(world@.enemies =~= start.enemies.map_values(|e: EnemyView| position_synced(e)));
}

} // verus!
