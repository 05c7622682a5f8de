//! What holds of the players whatever the clients send.
//!
//! A message touches the player of its sender and nothing else; a message of
//! an unknown sender touches nothing at all. Health stays between nothing and
//! the maximum, and no two players share an identifier.

use vstd::prelude::*;
use crate::game::player::combat::{damaged, HitTarget, RayHit, ShotOutcome};
use crate::game::player::components::PlayerActor;
use crate::game::player::systems::{
    after_player_sync, connected, events_applied, movement_applied, movements_applied, player_ids,
    player_index, ray_query, rotation_applied, rotations_applied, sender_index, shot_applied,
    shot_outcome, shots_applied, victim_index, ShotReport,
};
use crate::game::world::state::WorldView;
use crate::network::connection::{
    lemma_first_index, lemma_first_index_none, network_id_of, ClientId, FromClient,
};
use crate::network::protocol::{MovementInput, RotationInput, ShootEvent};
use crate::network::server::ServerEvent;

verus! {

/// Nobody is known to have sent what `client` delivered: the connection
/// table has no row for `client`, or no player has the identifier that the
/// table gives.
pub open spec fn is_unknown_sender(w: WorldView, client: ClientId) -> bool {
    match network_id_of(w.clients, client) {
        Some(id) => forall|k: int|
            0 <= k < w.players.len() ==> (#[trigger] w.players[k]).player.id != id,
        None => true,
    }
}

/// The place of a known sender is a place in the store.
pub proof fn lemma_sender_index(w: WorldView, client: ClientId)
    ensures
        sender_index(w, client) matches Some(i) ==> 0 <= i < w.players.len(),
{
    if let Some(id) = network_id_of(w.clients, client) {
        lemma_first_index(player_ids(w.players), id);
    }
}

/// A sender is unknown exactly where no place in the store is found for it.
pub proof fn lemma_unknown_sender(w: WorldView, client: ClientId)
    ensures
        is_unknown_sender(w, client) <==> sender_index(w, client) is None,
{
    if let Some(id) = network_id_of(w.clients, client) {
        let ids = player_ids(w.players);
        lemma_first_index(ids, id);
        if is_unknown_sender(w, client) {
            assert forall|k: int| 0 <= k < ids.len() implies ids[k] != id by {
                assert(ids[k] == w.players[k].player.id);
            }
            lemma_first_index_none(ids, id);
        } else {
            let k = choose|k: int|
                0 <= k < w.players.len() && (#[trigger] w.players[k]).player.id == id;
            assert(ids[k] == id);
        }
    }
}

/// A message of an unknown sender changes nothing anywhere in the world, be
/// it a look, a wish to move or a shot, and no ray is cast for its shot.
pub proof fn lemma_unknown_sender_changes_nothing(
    w: WorldView,
    client: ClientId,
    rotation: RotationInput,
    movement: MovementInput,
    shot: ShootEvent,
    hit: Option<RayHit>,
)
    requires
        is_unknown_sender(w, client),
    ensures
        rotation_applied(w, FromClient { client_id: client, message: rotation }) == w,
        movement_applied(w, FromClient { client_id: client, message: movement }) == w,
        shot_applied(
            w,
            ShotReport { shot: FromClient { client_id: client, message: shot }, hit },
        ) == w,
        ray_query(w, FromClient { client_id: client, message: shot }) is None,
{
    lemma_unknown_sender(w, client);
}

/// Nobody is known to have sent any of the messages.
pub open spec fn all_from_unknown<T>(w: WorldView, inputs: Seq<FromClient<T>>) -> bool {
    forall|k: int| 0 <= k < inputs.len() ==> is_unknown_sender(w, (#[trigger] inputs[k]).client_id)
}

/// Nobody is known to have fired any of the shots.
pub open spec fn all_shots_from_unknown(w: WorldView, reports: Seq<ShotReport>) -> bool {
    forall|k: int|
        0 <= k < reports.len() ==> is_unknown_sender(w, (#[trigger] reports[k]).shot.client_id)
}

/// A batch of wishes to move, all of unknown senders, changes nothing
/// anywhere in the world.
pub proof fn lemma_unknown_senders_change_nothing(
    w: WorldView,
    inputs: Seq<FromClient<MovementInput>>,
)
    requires
        all_from_unknown(w, inputs),
    ensures
        movements_applied(w, inputs) == w,
    decreases inputs.len(),
{
    if inputs.len() > 0 {
        assert(is_unknown_sender(w, inputs[inputs.len() - 1].client_id));
        assert forall|k: int| 0 <= k < inputs.drop_last().len() implies is_unknown_sender(
            w,
            (#[trigger] inputs.drop_last()[k]).client_id,
        ) by {
            assert(inputs.drop_last()[k] == inputs[k]);
        }
        lemma_unknown_senders_change_nothing(w, inputs.drop_last());
        lemma_unknown_sender(w, inputs.last().client_id);
    }
}

/// A batch of looks, all of unknown senders, changes nothing anywhere in the
/// world.
pub proof fn lemma_unknown_lookers_change_nothing(
    w: WorldView,
    inputs: Seq<FromClient<RotationInput>>,
)
    requires
        all_from_unknown(w, inputs),
    ensures
        rotations_applied(w, inputs) == w,
    decreases inputs.len(),
{
    if inputs.len() > 0 {
        assert(is_unknown_sender(w, inputs[inputs.len() - 1].client_id));
        assert forall|k: int| 0 <= k < inputs.drop_last().len() implies is_unknown_sender(
            w,
            (#[trigger] inputs.drop_last()[k]).client_id,
        ) by {
            assert(inputs.drop_last()[k] == inputs[k]);
        }
        lemma_unknown_lookers_change_nothing(w, inputs.drop_last());
        lemma_unknown_sender(w, inputs.last().client_id);
    }
}

/// A batch of shots, all of unknown senders, changes nothing anywhere in the
/// world.
pub proof fn lemma_unknown_shooters_change_nothing(w: WorldView, reports: Seq<ShotReport>)
    requires
        all_shots_from_unknown(w, reports),
    ensures
        shots_applied(w, reports) == w,
    decreases reports.len(),
{
    if reports.len() > 0 {
        assert(is_unknown_sender(w, reports[reports.len() - 1].shot.client_id));
        assert forall|k: int| 0 <= k < reports.drop_last().len() implies is_unknown_sender(
            w,
            (#[trigger] reports.drop_last()[k]).shot.client_id,
        ) by {
            assert(reports.drop_last()[k] == reports[k]);
        }
        lemma_unknown_shooters_change_nothing(w, reports.drop_last());
        lemma_unknown_sender(w, reports.last().shot.client_id);
    }
}

/// Every shot of a batch of shots of unknown senders is discarded.
pub proof fn lemma_unknown_shooters_are_discarded(w: WorldView, reports: Seq<ShotReport>)
    requires
        all_shots_from_unknown(w, reports),
    ensures
        forall|k: int|
            0 <= k < reports.len() ==> shot_outcome(
                shots_applied(w, #[trigger] reports.take(k)),
                reports[k],
            ) == ShotOutcome::Discarded,
{
    assert forall|k: int| 0 <= k < reports.len() implies shot_outcome(
        shots_applied(w, #[trigger] reports.take(k)),
        reports[k],
    ) == ShotOutcome::Discarded by {
        let before = reports.take(k);
        assert forall|j: int| 0 <= j < before.len() implies is_unknown_sender(
            w,
            (#[trigger] before[j]).shot.client_id,
        ) by {
            assert(before[j] == reports[j]);
        }
        lemma_unknown_shooters_change_nothing(w, before);
        assert(is_unknown_sender(w, reports[k].shot.client_id));
        lemma_unknown_sender(w, reports[k].shot.client_id);
    }
}

/// A wish to move changes nothing but the velocity of the sender, and of that
/// velocity it leaves the vertical part as it was.
pub proof fn lemma_movement_is_level(w: WorldView, input: FromClient<MovementInput>)
    ensures
        movement_applied(w, input).enemies == w.enemies,
        movement_applied(w, input).clients == w.clients,
        movement_applied(w, input).player_count == w.player_count,
        movement_applied(w, input).players.len() == w.players.len(),
        forall|k: int|
            0 <= k < w.players.len() ==> {
                let after = #[trigger] movement_applied(w, input).players[k];
                let before = w.players[k];
                &&& after.velocity.linvel.y == before.velocity.linvel.y
                &&& after == PlayerActor { velocity: after.velocity, ..before }
                &&& sender_index(w, input.client_id) != Some(k) ==> after == before
            },
{
    lemma_sender_index(w, input.client_id);
}

/// A look changes nothing but the rotation of the sender.
pub proof fn lemma_rotation_frame(w: WorldView, input: FromClient<RotationInput>)
    ensures
        rotation_applied(w, input).enemies == w.enemies,
        rotation_applied(w, input).clients == w.clients,
        rotation_applied(w, input).player_count == w.player_count,
        rotation_applied(w, input).players.len() == w.players.len(),
        forall|k: int|
            0 <= k < w.players.len() ==> {
                let after = #[trigger] rotation_applied(w, input).players[k];
                let before = w.players[k];
                &&& after == PlayerActor { rotation: after.rotation, ..before }
                &&& sender_index(w, input.client_id) != Some(k) ==> after == before
            },
{
    lemma_sender_index(w, input.client_id);
}

/// A shot changes nothing but the health of one player, and that by one hit.
/// Health that was between nothing and the maximum stays there.
pub proof fn lemma_shot_frame(w: WorldView, report: ShotReport)
    ensures
        shot_applied(w, report).enemies == w.enemies,
        shot_applied(w, report).clients == w.clients,
        shot_applied(w, report).player_count == w.player_count,
        shot_applied(w, report).players.len() == w.players.len(),
        victim_index(w, report) matches Some(v) ==> 0 <= v < w.players.len(),
        forall|k: int|
            0 <= k < w.players.len() ==> {
                let after = #[trigger] shot_applied(w, report).players[k];
                let before = w.players[k];
                &&& after == PlayerActor { health: after.health, ..before }
                &&& victim_index(w, report) == Some(k) ==> after.health == damaged(before.health)
                &&& victim_index(w, report) != Some(k) ==> after == before
                &&& before.health.wf() ==> after.health.wf()
            },
{
    lemma_sender_index(w, report.shot.client_id);
    if let Some(hit) = report.hit {
        if let HitTarget::Player(id) = hit.target {
            lemma_first_index(player_ids(w.players), id);
        }
    }
}

/// A world that differs from a well-formed one only in its players, and in
/// them neither in who they are nor in health that has left its range, is
/// well-formed.
proof fn lemma_same_players_keep_wf(w: WorldView, after: WorldView)
    requires
        w.wf(),
        after.enemies == w.enemies,
        after.players.len() == w.players.len(),
        forall|k: int|
            0 <= k < w.players.len() ==> (#[trigger] after.players[k]).player == w.players[k].player
                && after.players[k].health.wf(),
    ensures
        after.wf(),
{
    assert forall|i: int, j: int| 0 <= i < j < after.players.len() implies (
    #[trigger] after.players[i]).player.id != (#[trigger] after.players[j]).player.id by {
        assert(w.players[i].player.id != w.players[j].player.id);
    }
}

/// What holds of the store at all times still holds after a look has been
/// applied.
pub proof fn lemma_rotation_keeps_wf(w: WorldView, input: FromClient<RotationInput>)
    requires
        w.wf(),
    ensures
        rotation_applied(w, input).wf(),
{
    lemma_rotation_frame(w, input);
    let after = rotation_applied(w, input);
    assert forall|k: int| 0 <= k < w.players.len() implies (#[trigger] after.players[k]).player
        == w.players[k].player && after.players[k].health.wf() by {
        assert(w.players[k].health.wf());
    }
    lemma_same_players_keep_wf(w, after);
}

/// What holds of the store at all times still holds after a wish to move has
/// been applied.
pub proof fn lemma_movement_keeps_wf(w: WorldView, input: FromClient<MovementInput>)
    requires
        w.wf(),
    ensures
        movement_applied(w, input).wf(),
{
    lemma_movement_is_level(w, input);
    let after = movement_applied(w, input);
    assert forall|k: int| 0 <= k < w.players.len() implies (#[trigger] after.players[k]).player
        == w.players[k].player && after.players[k].health.wf() by {
        assert(w.players[k].health.wf());
    }
    lemma_same_players_keep_wf(w, after);
}

/// What holds of the store at all times still holds after a shot has been
/// applied.
pub proof fn lemma_shot_keeps_wf(w: WorldView, report: ShotReport)
    requires
        w.wf(),
    ensures
        shot_applied(w, report).wf(),
{
    lemma_shot_frame(w, report);
    let after = shot_applied(w, report);
    assert forall|k: int| 0 <= k < w.players.len() implies (#[trigger] after.players[k]).player
        == w.players[k].player && after.players[k].health.wf() by {
        assert(w.players[k].health.wf());
    }
    lemma_same_players_keep_wf(w, after);
}

/// What holds of the store at all times still holds after the mirrored
/// positions of the players have been brought up.
pub proof fn lemma_player_sync_keeps_wf(w: WorldView)
    requires
        w.wf(),
    ensures
        after_player_sync(w).wf(),
{
    let after = after_player_sync(w);
    assert forall|k: int| 0 <= k < w.players.len() implies (#[trigger] after.players[k]).player
        == w.players[k].player && after.players[k].health.wf() by {
        assert(w.players[k].health.wf());
    }
    lemma_same_players_keep_wf(w, after);
}

/// What holds of the store at all times still holds after a client has
/// connected: the player that is spawned has full health, and an identifier
/// that no other player has.
pub proof fn lemma_connection_keeps_wf(w: WorldView, client_id: u64)
    requires
        w.wf(),
    ensures
        connected(w, client_id).wf(),
{
    let ids = player_ids(w.players);
    lemma_first_index(ids, client_id);
    let after = connected(w, client_id);
    if player_index(w.players, client_id) is None {
        assert forall|i: int, j: int| 0 <= i < j < after.players.len() implies (
        #[trigger] after.players[i]).player.id != (#[trigger] after.players[j]).player.id by {
            if j < w.players.len() {
                assert(w.players[i].player.id != w.players[j].player.id);
            } else {
                assert(ids[i] == w.players[i].player.id);
            }
        }
        assert forall|i: int| 0 <= i < after.players.len() implies (
        #[trigger] after.players[i]).health.wf() by {
            if i < w.players.len() {
                assert(w.players[i].health.wf());
            }
        }
    }
}

/// What holds of the store at all times still holds after a batch of events
/// of the transport.
pub proof fn lemma_events_keep_wf(w: WorldView, events: Seq<ServerEvent>)
    requires
        w.wf(),
    ensures
        events_applied(w, events).wf(),
    decreases events.len(),
{
    if events.len() > 0 {
        lemma_events_keep_wf(w, events.drop_last());
        if let ServerEvent::ClientConnected { client_id } = events.last() {
            lemma_connection_keeps_wf(events_applied(w, events.drop_last()), client_id);
        }
    }
}

/// What holds of the store at all times still holds after a batch of looks.
/// The batch changes no enemy, adds no player and takes none away.
pub proof fn lemma_rotations_keep_wf(w: WorldView, inputs: Seq<FromClient<RotationInput>>)
    ensures
        rotations_applied(w, inputs).enemies == w.enemies,
        rotations_applied(w, inputs).players.len() == w.players.len(),
        w.wf() ==> rotations_applied(w, inputs).wf(),
    decreases inputs.len(),
{
    if inputs.len() > 0 {
        lemma_rotations_keep_wf(w, inputs.drop_last());
        let before = rotations_applied(w, inputs.drop_last());
        lemma_rotation_frame(before, inputs.last());
        if w.wf() {
            lemma_rotation_keeps_wf(before, inputs.last());
        }
    }
}

/// What holds of the store at all times still holds after a batch of wishes
/// to move. The batch changes no enemy, adds no player and takes none away.
pub proof fn lemma_movements_keep_wf(w: WorldView, inputs: Seq<FromClient<MovementInput>>)
    ensures
        movements_applied(w, inputs).enemies == w.enemies,
        movements_applied(w, inputs).players.len() == w.players.len(),
        w.wf() ==> movements_applied(w, inputs).wf(),
    decreases inputs.len(),
{
    if inputs.len() > 0 {
        lemma_movements_keep_wf(w, inputs.drop_last());
        let before = movements_applied(w, inputs.drop_last());
        lemma_movement_is_level(before, inputs.last());
        if w.wf() {
            lemma_movement_keeps_wf(before, inputs.last());
        }
    }
}

/// What holds of the store at all times still holds after a batch of shots.
/// The batch changes no enemy, adds no player and takes none away.
pub proof fn lemma_shots_keep_wf(w: WorldView, reports: Seq<ShotReport>)
    ensures
        shots_applied(w, reports).enemies == w.enemies,
        shots_applied(w, reports).players.len() == w.players.len(),
        w.wf() ==> shots_applied(w, reports).wf(),
    decreases reports.len(),
{
    if reports.len() > 0 {
        lemma_shots_keep_wf(w, reports.drop_last());
        let before = shots_applied(w, reports.drop_last());
        lemma_shot_frame(before, reports.last());
        if w.wf() {
            lemma_shot_keeps_wf(before, reports.last());
        }
    }
}

/// A batch of events of the transport leaves every player that was there as
/// it was, in its place, and leaves the enemies as they were.
pub proof fn lemma_events_keep_players(w: WorldView, events: Seq<ServerEvent>)
    ensures
        events_applied(w, events).enemies == w.enemies,
        events_applied(w, events).clients == w.clients,
        events_applied(w, events).players.len() >= w.players.len(),
        forall|k: int|
            0 <= k < w.players.len() ==> events_applied(w, events).players[k] == w.players[k],
    decreases events.len(),
{
    if events.len() > 0 {
        lemma_events_keep_players(w, events.drop_last());
    }
}

/// A batch of looks changes nothing of any player but its rotation.
pub proof fn lemma_rotations_turn_only(w: WorldView, inputs: Seq<FromClient<RotationInput>>)
    ensures
        rotations_applied(w, inputs).enemies == w.enemies,
        rotations_applied(w, inputs).clients == w.clients,
        rotations_applied(w, inputs).players.len() == w.players.len(),
        forall|k: int|
            0 <= k < w.players.len() ==> {
                let after = #[trigger] rotations_applied(w, inputs).players[k];
                after == PlayerActor { rotation: after.rotation, ..w.players[k] }
            },
    decreases inputs.len(),
{
    if inputs.len() > 0 {
        lemma_rotations_turn_only(w, inputs.drop_last());
        let before = rotations_applied(w, inputs.drop_last());
        lemma_rotation_frame(before, inputs.last());
        assert forall|k: int| 0 <= k < w.players.len() implies {
            let after = #[trigger] rotations_applied(w, inputs).players[k];
            after == PlayerActor { rotation: after.rotation, ..w.players[k] }
        } by {
            let middle = before.players[k];
            assert(middle == PlayerActor { rotation: middle.rotation, ..w.players[k] });
        }
    }
}

/// A batch of wishes to move changes nothing of any player but its velocity,
/// and of that it leaves the vertical part as it was.
pub proof fn lemma_movements_drive_only(w: WorldView, inputs: Seq<FromClient<MovementInput>>)
    ensures
        movements_applied(w, inputs).enemies == w.enemies,
        movements_applied(w, inputs).clients == w.clients,
        movements_applied(w, inputs).players.len() == w.players.len(),
        forall|k: int|
            0 <= k < w.players.len() ==> {
                let after = #[trigger] movements_applied(w, inputs).players[k];
                &&& after == PlayerActor { velocity: after.velocity, ..w.players[k] }
                &&& after.velocity.linvel.y == w.players[k].velocity.linvel.y
            },
    decreases inputs.len(),
{
    if inputs.len() > 0 {
        lemma_movements_drive_only(w, inputs.drop_last());
        let before = movements_applied(w, inputs.drop_last());
        lemma_movement_is_level(before, inputs.last());
        assert forall|k: int| 0 <= k < w.players.len() implies {
            let after = #[trigger] movements_applied(w, inputs).players[k];
            &&& after == PlayerActor { velocity: after.velocity, ..w.players[k] }
            &&& after.velocity.linvel.y == w.players[k].velocity.linvel.y
        } by {
            let middle = before.players[k];
            assert(middle == PlayerActor { velocity: middle.velocity, ..w.players[k] });
        }
    }
}

} // verus!
