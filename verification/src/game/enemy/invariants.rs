//! What holds of the enemies at all times.
//!
//! With no player in the world every enemy patrols. An enemy without
//! neighbors is not steered. No stage takes an enemy off its patrol path or
//! gives two enemies one identifier.

use vstd::prelude::*;
use crate::game::enemy::components::{lemma_advanced, EnemyState, EnemyView};
use crate::game::enemy::flocking::{
    is_neighbor, lemma_isolated_is_not_steered, lemma_steering_length, weights_together,
};
use crate::game::enemy::movement::{lemma_enemy_step_length, pace};
use crate::game::enemy::systems::{
    after_enemy_spawn, after_enemy_sync, after_flocking, after_fsm, after_movement, flock_snapshot,
    player_positions,
};
use crate::game::enemy::targeting::distance_squared;
use crate::game::world::state::WorldView;
use crate::vector::{is_closer_than, Vec3};

verus! {

/// With no player in the world every enemy patrols once the states have been
/// decided, whatever it did before.
pub proof fn lemma_no_players_all_patrol(w: WorldView)
    requires
        w.players.len() == 0,
    ensures
        after_fsm(w).enemies.len() == w.enemies.len(),
        forall|i: int|
            0 <= i < w.enemies.len() ==> (#[trigger] after_fsm(w).enemies[i]).state
                == EnemyState::Patrol,
{
}

/// No other enemy stands closer to enemy `me` than its neighbor range.
pub open spec fn is_isolated(w: WorldView, me: int) -> bool {
    forall|j: int|
        0 <= j < w.enemies.len() && j != me ==> !is_closer_than(
            distance_squared(
                w.enemies[me].transform.translation,
                (#[trigger] w.enemies[j]).transform.translation,
            ),
            w.enemies[me].flocking.neighbor_range as int,
        )
}

/// After flocking the steering vector of an isolated enemy is the zero vector,
/// whatever state the enemy is in and however it was steered before.
pub proof fn lemma_isolated_enemy_is_not_steered(w: WorldView, me: int)
    requires
        0 <= me < w.enemies.len(),
        is_isolated(w, me),
    ensures
        after_flocking(w).enemies[me].velocity.velocity == (Vec3 { x: 0, y: 0, z: 0 }),
{
    let snapshot = flock_snapshot(w.enemies);
    let params = w.enemies[me].flocking;
    assert forall|j: int| 0 <= j < snapshot.len() && j != me implies !is_neighbor(
        snapshot[me],
        #[trigger] snapshot[j],
        params,
    ) by {
        assert(snapshot[j].position == w.enemies[j].transform.translation);
    }
    lemma_isolated_is_not_steered(snapshot, me, params);
}

/// The steering vector of enemy `me` is no longer than its three weights
/// together.
pub open spec fn is_steered_within_weights(e: EnemyView) -> bool {
    e.velocity.velocity@.length_squared() <= weights_together(e.flocking) * weights_together(
        e.flocking,
    )
}

/// After flocking no enemy is steered by a vector longer than its three
/// weights together.
pub proof fn lemma_steering_is_bounded(w: WorldView, me: int)
    requires
        0 <= me < w.enemies.len(),
    ensures
        is_steered_within_weights(after_flocking(w).enemies[me]),
{
    let e = w.enemies[me];
    lemma_steering_length(flock_snapshot(w.enemies), me, e.flocking);
    let reach = weights_together(e.flocking);
    assert(0 <= reach * reach) by (nonlinear_arith);
    let after = after_flocking(w).enemies[me].velocity.velocity@;
    if e.state != EnemyState::Chase {
        assert(after.length_squared() == 0) by (nonlinear_arith)
            requires
                after.x == 0 && after.y == 0 && after.z == 0,
                after.length_squared() == after.x * after.x + after.y * after.y + after.z * after.z,
        ;
    }
}

/// Enemy `to` is no further from where enemy `from` stands, level with the
/// ground, than the speed of `from` allows in `dt`.
pub open spec fn is_within_a_step(from: EnemyView, to: EnemyView, dt: int) -> bool {
    let a = from.transform.translation;
    let b = to.transform.translation;
    ((b.x - a.x) * (b.x - a.x) + (b.z - a.z) * (b.z - a.z)) * 1000000 <= (pace(from) * dt) * (pace(
        from,
    ) * dt)
}

/// No enemy gets further in a tick, level with the ground, than its speed
/// allows.
pub proof fn lemma_movement_is_bounded(w: WorldView, dt: int, me: int)
    requires
        0 <= me < w.enemies.len(),
    ensures
        is_within_a_step(w.enemies[me], after_movement(w, dt).enemies[me], dt),
{
    lemma_enemy_step_length(w.enemies[me], player_positions(w.players), dt);
}

/// A world that differs from a well-formed one only in its enemies, and in
/// them neither in who they are, nor in their ranges, nor in a patrol path
/// that has lost its waypoint, is well-formed.
proof fn lemma_same_enemies_keep_wf(w: WorldView, after: WorldView)
    requires
        w.wf(),
        after.players == w.players,
        after.enemies.len() == w.enemies.len(),
        forall|k: int|
            0 <= k < w.enemies.len() ==> (#[trigger] after.enemies[k]).enemy == w.enemies[k].enemy
                && after.enemies[k].movement == w.enemies[k].movement
                && after.enemies[k].patrol.wf(),
    ensures
        after.wf(),
{
    assert forall|i: int| 0 <= i < after.enemies.len() implies (
    #[trigger] after.enemies[i]).movement.wf() by {
        assert(w.enemies[i].movement.wf());
    }
    assert forall|i: int, j: int| 0 <= i < j < after.enemies.len() implies (
    #[trigger] after.enemies[i]).enemy.id != (#[trigger] after.enemies[j]).enemy.id by {
        assert(w.enemies[i].enemy.id != w.enemies[j].enemy.id);
    }
}

/// What holds of the store at all times still holds after each stage that
/// works on the enemies: the spawner, the decision of states, flocking, the
/// move and the mirroring of positions.
pub proof fn lemma_enemy_stages_keep_wf(w: WorldView, dt: int)
    requires
        w.wf(),
    ensures
        after_enemy_spawn(w).wf(),
        after_fsm(w).wf(),
        after_flocking(w).wf(),
        after_movement(w, dt).wf(),
        after_enemy_sync(w).wf(),
{
    let decided = after_fsm(w);
    assert forall|k: int| 0 <= k < w.enemies.len() implies (#[trigger] decided.enemies[k]).enemy
        == w.enemies[k].enemy && decided.enemies[k].movement == w.enemies[k].movement
        && decided.enemies[k].patrol.wf() by {
        assert(w.enemies[k].patrol.wf());
    }
    lemma_same_enemies_keep_wf(w, decided);

    let steered = after_flocking(w);
    assert forall|k: int| 0 <= k < w.enemies.len() implies (#[trigger] steered.enemies[k]).enemy
        == w.enemies[k].enemy && steered.enemies[k].movement == w.enemies[k].movement
        && steered.enemies[k].patrol.wf() by {
        assert(w.enemies[k].patrol.wf());
    }
    lemma_same_enemies_keep_wf(w, steered);

    let moved = after_movement(w, dt);
    assert forall|k: int| 0 <= k < w.enemies.len() implies (#[trigger] moved.enemies[k]).enemy
        == w.enemies[k].enemy && moved.enemies[k].movement == w.enemies[k].movement
        && moved.enemies[k].patrol.wf() by {
        assert(w.enemies[k].patrol.wf());
        lemma_advanced(w.enemies[k].patrol);
    }
    lemma_same_enemies_keep_wf(w, moved);

    let synced = after_enemy_sync(w);
    assert forall|k: int| 0 <= k < w.enemies.len() implies (#[trigger] synced.enemies[k]).enemy
        == w.enemies[k].enemy && synced.enemies[k].movement == w.enemies[k].movement
        && synced.enemies[k].patrol.wf() by {
        assert(w.enemies[k].patrol.wf());
    }
    lemma_same_enemies_keep_wf(w, synced);
}

} // verus!
