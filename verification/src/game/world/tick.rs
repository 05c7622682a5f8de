//! One tick of the simulation: the stages in their fixed order.
//!
//! First the players of new connections and the first enemies are spawned.
//! Then what the clients sent is applied. Then the enemies decide their state,
//! are steered by their flock and move, each stage from what the stage before
//! it left behind. Last the positions that are mirrored to the clients are
//! brought up. A tick always runs to its end.

use vstd::prelude::*;
use crate::game::enemy::components::{EnemyState, EnemyView};
use crate::game::enemy::invariants::{lemma_enemy_stages_keep_wf, lemma_no_players_all_patrol};
use crate::game::enemy::systems::{
    after_enemy_spawn, after_enemy_sync, after_flocking, after_fsm, after_movement,
    enemy_flocking_system, enemy_fsm_system, enemy_movement_system, spawn_enemies_system,
    sync_transform_to_enemy_position,
};
use crate::game::player::components::PlayerActor;
use crate::game::player::invariants::{
    lemma_events_keep_players, lemma_events_keep_wf, lemma_movements_drive_only,
    lemma_movements_keep_wf, lemma_player_sync_keeps_wf, lemma_rotations_keep_wf,
    lemma_rotations_turn_only,
};
use crate::game::player::systems::{
    after_player_sync, events_applied, handle_movement_input, handle_rotation_input,
    movements_applied, rotations_applied, spawn_players_system, sync_transform_to_position,
};
use crate::game::world::state::{shown_enemy, shown_player, Snapshot, World, WorldView};
use crate::network::connection::FromClient;
use crate::network::protocol::{MovementInput, RotationInput};
use crate::network::server::ServerEvent;

verus! {

/// The world after the actors that are due have been spawned and the messages
/// of the clients have been applied: first the looks, then the wishes to move.
pub open spec fn after_inputs(
    w: WorldView,
    events: Seq<ServerEvent>,
    rotations: Seq<FromClient<RotationInput>>,
    movements: Seq<FromClient<MovementInput>>,
) -> WorldView {
    movements_applied(
        rotations_applied(after_enemy_spawn(events_applied(w, events)), rotations),
        movements,
    )
}

/// The world after the enemies have decided their state, have been steered
/// and have moved for `dt` thousandths of a second.
pub open spec fn after_enemy_stages(w: WorldView, dt: int) -> WorldView {
    after_movement(after_flocking(after_fsm(w)), dt)
}

/// The world after one tick.
pub open spec fn after_tick(
    w: WorldView,
    events: Seq<ServerEvent>,
    rotations: Seq<FromClient<RotationInput>>,
    movements: Seq<FromClient<MovementInput>>,
    dt: int,
) -> WorldView {
    after_enemy_sync(
        after_player_sync(after_enemy_stages(after_inputs(w, events, rotations, movements), dt)),
    )
}

/// What holds of the store at all times still holds after a tick.
pub proof fn lemma_tick_keeps_wf(
    w: WorldView,
    events: Seq<ServerEvent>,
    rotations: Seq<FromClient<RotationInput>>,
    movements: Seq<FromClient<MovementInput>>,
    dt: int,
)
    requires
        w.wf(),
    ensures
        after_tick(w, events, rotations, movements, dt).wf(),
{
    lemma_events_keep_wf(w, events);
    let a = events_applied(w, events);
    lemma_enemy_stages_keep_wf(a, dt);
    let b = after_enemy_spawn(a);
    lemma_rotations_keep_wf(b, rotations);
    let c = rotations_applied(b, rotations);
    lemma_movements_keep_wf(c, movements);
    let d = movements_applied(c, movements);
    lemma_enemy_stages_keep_wf(d, dt);
    let e = after_fsm(d);
    lemma_enemy_stages_keep_wf(e, dt);
    let f = after_flocking(e);
    lemma_enemy_stages_keep_wf(f, dt);
    let g = after_movement(f, dt);
    lemma_player_sync_keeps_wf(g);
    let h = after_player_sync(g);
    lemma_enemy_stages_keep_wf(h, dt);
}

/// In a world without players, to which none connects, every enemy patrols
/// after one tick, whatever it did before and whatever the clients sent.
pub proof fn lemma_tick_without_players(
    w: WorldView,
    rotations: Seq<FromClient<RotationInput>>,
    movements: Seq<FromClient<MovementInput>>,
    dt: int,
)
    requires
        w.players.len() == 0,
    ensures
        forall|i: int|
            0 <= i < after_tick(w, Seq::empty(), rotations, movements, dt).enemies.len() ==> (
            #[trigger] after_tick(w, Seq::empty(), rotations, movements, dt).enemies[i]).state
                == EnemyState::Patrol,
{
    let a = after_enemy_spawn(events_applied(w, Seq::empty()));
    lemma_rotations_keep_wf(a, rotations);
    let b = rotations_applied(a, rotations);
    lemma_movements_keep_wf(b, movements);
    let c = movements_applied(b, movements);
    assert(c.players.len() == 0);
    lemma_no_players_all_patrol(c);
    let d = after_fsm(c);
    let e = after_flocking(d);
    let f = after_movement(e, dt);
    let g = after_enemy_sync(after_player_sync(f));
    assert forall|i: int| 0 <= i < g.enemies.len() implies (#[trigger] g.enemies[i]).state
        == EnemyState::Patrol by {
        assert(d.enemies[i].state == EnemyState::Patrol);
        assert(e.enemies[i].state == d.enemies[i].state);
        assert(f.enemies[i].state == e.enemies[i].state);
    }
}

/// A tick leaves the players to the physics engine and to combat: of a player
/// that was there it changes the rotation, the level part of the velocity and
/// the mirrored position, and nothing else. Its health, the place where it
/// stands and the vertical part of its velocity are as they were.
pub proof fn lemma_tick_leaves_players(
    w: WorldView,
    events: Seq<ServerEvent>,
    rotations: Seq<FromClient<RotationInput>>,
    movements: Seq<FromClient<MovementInput>>,
    dt: int,
)
    ensures
        after_tick(w, events, rotations, movements, dt).players.len() >= w.players.len(),
        forall|k: int|
            0 <= k < w.players.len() ==> {
                let after = #[trigger] after_tick(w, events, rotations, movements, dt).players[k];
                let before = w.players[k];
                &&& after == PlayerActor {
                    rotation: after.rotation,
                    velocity: after.velocity,
                    position: after.position,
                    ..before
                }
                &&& after.velocity.linvel.y == before.velocity.linvel.y
            },
{
    lemma_events_keep_players(w, events);
    let a = after_enemy_spawn(events_applied(w, events));
    lemma_rotations_turn_only(a, rotations);
    let b = rotations_applied(a, rotations);
    lemma_movements_drive_only(b, movements);
    let c = movements_applied(b, movements);
    let d = after_enemy_stages(c, dt);
    assert(d.players == c.players);
    let e = after_enemy_sync(after_player_sync(d));
    assert forall|k: int| 0 <= k < w.players.len() implies {
        let after = #[trigger] e.players[k];
        let before = w.players[k];
        &&& after == PlayerActor {
            rotation: after.rotation,
            velocity: after.velocity,
            position: after.position,
            ..before
        }
        &&& after.velocity.linvel.y == before.velocity.linvel.y
    } by {
        assert(a.players[k] == w.players[k]);
        let turned = b.players[k];
        assert(turned == PlayerActor { rotation: turned.rotation, ..a.players[k] });
        let driven = c.players[k];
        assert(driven == PlayerActor { velocity: driven.velocity, ..b.players[k] });
    }
}

/// Advances the world by one tick of `dt` thousandths of a second, and hands
/// out what the clients are to be shown of it.
pub fn run_tick(
    world: &mut World,
    events: &Vec<ServerEvent>,
    rotations: &Vec<FromClient<RotationInput>>,
    movements: &Vec<FromClient<MovementInput>>,
    dt: u32,
) -> (shown: Snapshot)
    ensures
        final(world)@ == after_tick(old(world)@, events@, rotations@, movements@, dt as int),
        old(world)@.wf() ==> final(world)@.wf(),
        shown.players@ == final(world)@.players.map_values(|p: PlayerActor| shown_player(p)),
        shown.enemies@ == final(world)@.enemies.map_values(|e: EnemyView| shown_enemy(e)),
        old(world)@.players.len() == 0 && events.len() == 0 ==> forall|i: int|
            0 <= i < final(world)@.enemies.len() ==> (#[trigger] final(world)@.enemies[i]).state
                == EnemyState::Patrol,
{
    proof {
        if old(world)@.wf() {
            lemma_tick_keeps_wf(old(world)@, events@, rotations@, movements@, dt as int);
        }
        if old(world)@.players.len() == 0 && events.len() == 0 {
            assert(events@ =~= Seq::empty());
            lemma_tick_without_players(old(world)@, rotations@, movements@, dt as int);
        }
    }
    spawn_players_system(world, events);
    spawn_enemies_system(world);
    handle_rotation_input(world, rotations);
    handle_movement_input(world, movements);
    enemy_fsm_system(world);
    enemy_flocking_system(world);
    enemy_movement_system(world, dt);
    sync_transform_to_position(world);
    sync_transform_to_enemy_position(world);
    world.snapshot()
}

} // verus!
