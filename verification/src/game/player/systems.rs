//! The stages that apply what clients send, one call per batch of messages.

use vstd::prelude::*;
use crate::angle::{cos, cosine, lemma_sine_periodic, sin, sine, QUARTER_TURN};
use crate::fixed::{divide, quotient};
use crate::game::player::combat::{
    apply_damage, damaged, HitTarget, RayHit, RayQuery, SHOT_RANGE, ShotOutcome,
};
use crate::game::player::components::{PlayerActor, Velocity};
use crate::game::player::invariants::{
    all_from_unknown, all_shots_from_unknown, is_unknown_sender, lemma_connection_keeps_wf,
    lemma_events_keep_wf, lemma_movement_keeps_wf, lemma_movements_keep_wf,
    lemma_player_sync_keeps_wf, lemma_rotation_keeps_wf, lemma_rotations_keep_wf,
    lemma_shot_keeps_wf, lemma_shots_keep_wf, lemma_unknown_lookers_change_nothing,
    lemma_unknown_sender, lemma_unknown_senders_change_nothing,
    lemma_unknown_shooters_are_discarded, lemma_unknown_shooters_change_nothing,
};
use crate::game::player::movement::{movement_velocity, target_velocity};
use crate::game::transform::Transform;
use crate::game::world::state::{PlayerCount, World, WorldView};
use crate::network::connection::{
    first_index, lemma_first_index_is, lemma_first_index_none, network_id_of, resolve_sender,
    ClientId, FromClient,
};
use crate::network::protocol::{
    Health, MovementInput, Player, PlayerPosition, PlayerRotation, RotationInput, ShootEvent,
};
use crate::network::server::ServerEvent;
use crate::vector::{Vec3, Vector};

verus! {

/// The identifiers of the players, in order.
pub open spec fn player_ids(players: Seq<PlayerActor>) -> Seq<u64> {
    players.map_values(|p: PlayerActor| p.player.id)
}

/// The place of the first player with identifier `id`, if there is one.
pub open spec fn player_index(players: Seq<PlayerActor>, id: u64) -> Option<int> {
    first_index(player_ids(players), id)
}

/// The place of the player that sent what `client` delivered: the player whose
/// identifier the connection table gives for `client`. `None` where the table
/// has no row for `client` or no player has that identifier.
pub open spec fn sender_index(w: WorldView, client: ClientId) -> Option<int> {
    match network_id_of(w.clients, client) {
        Some(id) => player_index(w.players, id),
        None => None,
    }
}

/// Finds the first player with identifier `id`.
pub fn find_player(players: &Vec<PlayerActor>, id: u64) -> (found: Option<usize>)
    ensures
        match found {
            Some(i) => player_index(players@, id) == Some(i as int) && i < players.len()
                && players[i as int].player.id == id,
            None => player_index(players@, id) is None,
        },
{
    let ghost keys = player_ids(players@);
    let mut i: usize = 0;
    while i < players.len()
        invariant
            i <= players.len(),
            keys == player_ids(players@),
            forall|j: int| 0 <= j < i ==> keys[j] != id,
        decreases players.len() - i,
    {
        assert(keys[i as int] == players@[i as int].player.id);
        if players[i].player.id == id {
            proof {
                lemma_first_index_is(keys, id, i as int);
            }
            return Some(i);
        }
        i += 1;
    }
    proof {
        lemma_first_index_none(keys, id);
    }
    None
}

/// Finds the player that sent what `client` delivered.
pub fn find_sender(world: &World, client: ClientId) -> (found: Option<usize>)
    ensures
        match found {
            Some(i) => sender_index(world@, client) == Some(i as int) && i < world.players.len(),
            None => sender_index(world@, client) is None,
        },
{
    match resolve_sender(&world.clients, client) {
        Some(id) => find_player(&world.players, id),
        None => None,
    }
}

/// A shot together with what the physics engine found on its ray.
#[derive(Debug, PartialEq, Eq)]
pub struct ShotReport {
    pub shot: FromClient<ShootEvent>,
    pub hit: Option<RayHit>,
}

/// The question that a shot puts to the physics engine: the ray of the shot,
/// the shooter's own body left out. `None` where nobody is known to have
/// fired the shot, which is then dropped.
pub open spec fn ray_query(w: WorldView, shot: FromClient<ShootEvent>) -> Option<RayQuery> {
    match sender_index(w, shot.client_id) {
        Some(s) => Some(
            RayQuery {
                origin: shot.message.origin,
                direction: shot.message.direction,
                max_distance: SHOT_RANGE,
                exclude: w.players[s].player.id,
            },
        ),
        None => None,
    }
}

/// Says which ray to cast for a shot, if any.
pub fn raycast_for(world: &World, shot: &FromClient<ShootEvent>) -> (query: Option<RayQuery>)
    ensures
        query == ray_query(world@, *shot),
{
    match find_sender(world, shot.client_id) {
        Some(s) => Some(
            RayQuery {
                origin: shot.message.origin,
                direction: shot.message.direction,
                max_distance: SHOT_RANGE,
                exclude: world.players[s].player.id,
            },
        ),
        None => None,
    }
}

/// The place of the player that a shot harms: the player that the ray struck,
/// where the shooter is known and is not that player.
pub open spec fn victim_index(w: WorldView, report: ShotReport) -> Option<int> {
    match (sender_index(w, report.shot.client_id), report.hit) {
        (Some(s), Some(hit)) => match hit.target {
            HitTarget::Player(id) => if id != w.players[s].player.id {
                player_index(w.players, id)
            } else {
                None
            },
            _ => None,
        },
        _ => None,
    }
}

/// The world after a shot: the player that it harms has taken one hit, and
/// nothing else has changed.
pub open spec fn shot_applied(w: WorldView, report: ShotReport) -> WorldView {
    match victim_index(w, report) {
        Some(v) => WorldView {
            players: w.players.update(
                v,
                PlayerActor { health: damaged(w.players[v].health), ..w.players[v] },
            ),
            ..w
        },
        None => w,
    }
}

/// What becomes of a shot in the world `w`.
pub open spec fn shot_outcome(w: WorldView, report: ShotReport) -> ShotOutcome {
    match (sender_index(w, report.shot.client_id), report.hit) {
        (None, _) => ShotOutcome::Discarded,
        (Some(s), None) => ShotOutcome::Missed,
        (Some(s), Some(hit)) => {
            let shooter = w.players[s].player.id;
            match hit.target {
                HitTarget::Enemy(enemy) => ShotOutcome::HitEnemy {
                    shooter,
                    enemy,
                    distance: hit.distance,
                },
                HitTarget::Player(player) => match victim_index(w, report) {
                    Some(v) => {
                        let health = damaged(w.players[v].health);
                        if health.current == 0 {
                            ShotOutcome::KilledPlayer { shooter, player, distance: hit.distance }
                        } else {
                            ShotOutcome::HitPlayer {
                                shooter,
                                player,
                                distance: hit.distance,
                                health,
                            }
                        }
                    },
                    None => ShotOutcome::Missed,
                },
                HitTarget::Scenery => ShotOutcome::Missed,
            }
        },
    }
}

/// The world after the shots in `reports`, taken in order.
pub open spec fn shots_applied(w: WorldView, reports: Seq<ShotReport>) -> WorldView
    decreases reports.len(),
{
    if reports.len() == 0 {
        w
    } else {
        shot_applied(shots_applied(w, reports.drop_last()), reports.last())
    }
}

/// Resolves one shot: finds the shooter by the connection that delivered the
/// shot, and takes one hit off the player that the ray struck.
pub fn resolve_shot(world: &mut World, report: &ShotReport) -> (outcome: ShotOutcome)
    ensures
        final(world)@ == shot_applied(old(world)@, *report),
        old(world)@.wf() ==> final(world)@.wf(),
        outcome == shot_outcome(old(world)@, *report),
        is_unknown_sender(old(world)@, report.shot.client_id) ==> final(world)@ == old(world)@
            && outcome == ShotOutcome::Discarded,
{
    proof {
        lemma_unknown_sender(old(world)@, report.shot.client_id);
        if old(world)@.wf() {
            lemma_shot_keeps_wf(old(world)@, *report);
        }
    }
    let shooter_at: usize = match find_sender(world, report.shot.client_id) {
        Some(s) => s,
        None => {
            return ShotOutcome::Discarded;
        },
    };
    let shooter: u64 = world.players[shooter_at].player.id;
    let hit: RayHit = match report.hit {
        Some(hit) => hit,
        None => {
            return ShotOutcome::Missed;
        },
    };
    match hit.target {
        HitTarget::Enemy(enemy) => ShotOutcome::HitEnemy { shooter, enemy, distance: hit.distance },
        HitTarget::Scenery => ShotOutcome::Missed,
        HitTarget::Player(player) => {
            if player == shooter {
                return ShotOutcome::Missed;
            }
            match find_player(&world.players, player) {
                None => ShotOutcome::Missed,
                Some(v) => {
                    let mut victim: PlayerActor = world.players[v];
                    victim.health = apply_damage(victim.health);
                    world.players.set(v, victim);
                    assert(world@.enemies == old(world)@.enemies);
                    if victim.health.current == 0 {
                        ShotOutcome::KilledPlayer { shooter, player, distance: hit.distance }
                    } else {
                        ShotOutcome::HitPlayer {
                            shooter,
                            player,
                            distance: hit.distance,
                            health: victim.health,
                        }
                    }
                },
            }
        },
    }
}

/// Resolves a batch of shots in the order in which they arrived. Each shot is
/// applied once, to the world that the shots before it left behind.
pub fn handle_shoot_events(world: &mut World, reports: &Vec<ShotReport>) -> (outcomes: Vec<
    ShotOutcome,
>)
    ensures
        final(world)@ == shots_applied(old(world)@, reports@),
        old(world)@.wf() ==> final(world)@.wf(),
        outcomes.len() == reports.len(),
        forall|k: int|
            0 <= k < reports.len() ==> #[trigger] outcomes[k] == shot_outcome(
                shots_applied(old(world)@, reports@.take(k)),
                reports[k],
            ),
        all_shots_from_unknown(old(world)@, reports@) ==> final(world)@ == old(world)@ && forall|
            k: int,
        | 0 <= k < reports.len() ==> #[trigger] outcomes[k] == ShotOutcome::Discarded,
{
    proof {
        if old(world)@.wf() {
            lemma_shots_keep_wf(old(world)@, reports@);
        }
        if all_shots_from_unknown(old(world)@, reports@) {
            lemma_unknown_shooters_change_nothing(old(world)@, reports@);
            lemma_unknown_shooters_are_discarded(old(world)@, reports@);
        }
    }
    let ghost start = world@;
    let mut outcomes: Vec<ShotOutcome> = Vec::new();
    let mut i: usize = 0;
    assert(reports@.take(0) =~= Seq::empty());
    while i < reports.len()
        invariant
            i <= reports.len(),
            outcomes.len() == i,
            world@ == shots_applied(start, reports@.take(i as int)),
            forall|k: int|
                0 <= k < i ==> #[trigger] outcomes[k] == shot_outcome(
                    shots_applied(start, reports@.take(k)),
                    reports[k],
                ),
        decreases reports.len() - i,
    {
        let outcome = resolve_shot(world, &reports[i]);
        outcomes.push(outcome);
        proof {
            let next = reports@.take(i + 1);
            assert(next.drop_last() =~= reports@.take(i as int));
            assert(next.last() == reports@[i as int]);
        }
        i += 1;
    }
    assert(reports@.take(reports.len() as int) =~= reports@);
    outcomes
}

/// Distance of a spawned player from the middle of the world.
pub const PLAYER_SPAWN_RADIUS: i32 = 3000;

/// Height from which a spawned player drops to the ground.
pub const PLAYER_SPAWN_HEIGHT: i32 = 5000;

/// Health of a spawned player.
pub const FULL_HEALTH: i32 = 100000;

/// Where the player is spawned that comes after `count` others: on a circle
/// round the middle of the world, a quarter of a turn on from the player
/// before it.
pub open spec fn player_spawn_point(count: int) -> Vec3 {
    let angle = count * QUARTER_TURN;
    (Vector {
        x: quotient(cosine(angle) * PLAYER_SPAWN_RADIUS, 1000000),
        y: PLAYER_SPAWN_HEIGHT as int,
        z: quotient(sine(angle) * PLAYER_SPAWN_RADIUS, 1000000),
    }).stored()
}

/// The player of the client `client_id` as it is spawned after `count`
/// others: in full health, looking straight ahead, at rest.
pub open spec fn spawned_player(client_id: u64, count: u32) -> PlayerActor {
    let at = player_spawn_point(count as int);
    PlayerActor {
        player: Player { id: client_id, color_index: (count % 256) as u8 },
        position: PlayerPosition { x: at.x, y: at.y, z: at.z },
        rotation: PlayerRotation { yaw: 0, pitch: 0 },
        health: Health { current: FULL_HEALTH, max: FULL_HEALTH },
        transform: Transform::at(at),
        velocity: Velocity { linvel: Vector::zero().stored() },
    }
}

/// The count of players after one more; after the largest count comes zero.
pub open spec fn counted_on(count: PlayerCount) -> PlayerCount {
    if count.0 == u32::MAX {
        PlayerCount(0)
    } else {
        PlayerCount((count.0 + 1) as u32)
    }
}

/// The world after the client `client_id` has connected: it has a player for
/// that client. A client that has a player already gets no second one.
pub open spec fn connected(w: WorldView, client_id: u64) -> WorldView {
    if player_index(w.players, client_id) is Some {
        w
    } else {
        WorldView {
            players: w.players.push(spawned_player(client_id, w.player_count.0)),
            player_count: counted_on(w.player_count),
            ..w
        }
    }
}

/// The world after an event of the transport. Only a connection changes it.
pub open spec fn event_applied(w: WorldView, event: ServerEvent) -> WorldView {
    match event {
        ServerEvent::ClientConnected { client_id } => connected(w, client_id),
        ServerEvent::ClientDisconnected { .. } => w,
    }
}

/// The world after the events in `events`, taken in order.
pub open spec fn events_applied(w: WorldView, events: Seq<ServerEvent>) -> WorldView
    decreases events.len(),
{
    if events.len() == 0 {
        w
    } else {
        event_applied(events_applied(w, events.drop_last()), events.last())
    }
}

proof fn lemma_spawn_coordinate(s: int)
    requires
        -1000000 <= s <= 1000000,
    ensures
        -3000000000 <= s * 3000 <= 3000000000,
        -3000 <= quotient(s * 3000, 1000000) <= 3000,
{
}

fn spawn_point(count: u32) -> (at: Vec3)
    ensures
        at == player_spawn_point(count as int),
{
    let angle: i32 = (count % 4) as i32 * 90000;
    proof {
        lemma_sine_periodic(count * QUARTER_TURN, angle as int);
        lemma_sine_periodic(count * QUARTER_TURN + QUARTER_TURN, angle + QUARTER_TURN);
    }
    let c: i128 = cos(angle) as i128;
    let s: i128 = sin(angle) as i128;
    proof {
        lemma_spawn_coordinate(c as int);
        lemma_spawn_coordinate(s as int);
    }
    Vec3 {
        x: divide(c * 3000, 1000000) as i32,
        y: PLAYER_SPAWN_HEIGHT,
        z: divide(s * 3000, 1000000) as i32,
    }
}

/// Spawns the player of a client that has connected.
pub fn connect_player(world: &mut World, client_id: u64)
    ensures
        final(world)@ == connected(old(world)@, client_id),
        old(world)@.wf() ==> final(world)@.wf(),
{
    proof {
        if old(world)@.wf() {
            lemma_connection_keeps_wf(old(world)@, client_id);
        }
    }
    if find_player(&world.players, client_id).is_some() {
        return;
    }
    let count: u32 = world.player_count.0;
    let at: Vec3 = spawn_point(count);
    world.players.push(
        PlayerActor {
            player: Player { id: client_id, color_index: (count % 256) as u8 },
            position: PlayerPosition { x: at.x, y: at.y, z: at.z },
            rotation: PlayerRotation { yaw: 0, pitch: 0 },
            health: Health { current: FULL_HEALTH, max: FULL_HEALTH },
            transform: Transform::from_translation(at),
            velocity: Velocity { linvel: Vec3::zero() },
        },
    );
    world.player_count = if count == u32::MAX {
        PlayerCount(0)
    } else {
        PlayerCount(count + 1)
    };
    assert(world@.enemies == old(world)@.enemies);
}

/// Spawns a player for every client that the transport reports as connected.
pub fn spawn_players_system(world: &mut World, events: &Vec<ServerEvent>)
    ensures
        final(world)@ == events_applied(old(world)@, events@),
        old(world)@.wf() ==> final(world)@.wf(),
{
    proof {
        if old(world)@.wf() {
            lemma_events_keep_wf(old(world)@, events@);
        }
    }
    let ghost start = world@;
    let mut i: usize = 0;
    assert(events@.take(0) =~= Seq::empty());
    while i < events.len()
        invariant
            i <= events.len(),
            world@ == events_applied(start, events@.take(i as int)),
        decreases events.len() - i,
    {
        match events[i] {
            ServerEvent::ClientConnected { client_id } => {
                connect_player(world, client_id);
            },
            ServerEvent::ClientDisconnected { .. } => {},
        }
        proof {
            let next = events@.take(i + 1);
            assert(next.drop_last() =~= events@.take(i as int));
            assert(next.last() == events@[i as int]);
        }
        i += 1;
    }
    assert(events@.take(events.len() as int) =~= events@);
}

/// The world after a client has said where it looks: its player looks there,
/// and nothing else has changed. A message of an unknown sender changes
/// nothing.
pub open spec fn rotation_applied(w: WorldView, input: FromClient<RotationInput>) -> WorldView {
    match sender_index(w, input.client_id) {
        Some(i) => WorldView {
            players: w.players.update(
                i,
                PlayerActor {
                    rotation: PlayerRotation { yaw: input.message.yaw, pitch: input.message.pitch },
                    ..w.players[i]
                },
            ),
            ..w
        },
        None => w,
    }
}

/// The world after the messages in `inputs`, taken in order.
pub open spec fn rotations_applied(
    w: WorldView,
    inputs: Seq<FromClient<RotationInput>>,
) -> WorldView
    decreases inputs.len(),
{
    if inputs.len() == 0 {
        w
    } else {
        rotation_applied(rotations_applied(w, inputs.drop_last()), inputs.last())
    }
}

/// Applies one message that says where a client looks.
pub fn apply_rotation_input(world: &mut World, input: &FromClient<RotationInput>)
    ensures
        final(world)@ == rotation_applied(old(world)@, *input),
        is_unknown_sender(old(world)@, input.client_id) ==> final(world)@ == old(world)@,
        old(world)@.wf() ==> final(world)@.wf(),
{
    proof {
        lemma_unknown_sender(old(world)@, input.client_id);
        if old(world)@.wf() {
            lemma_rotation_keeps_wf(old(world)@, *input);
        }
    }
    match find_sender(world, input.client_id) {
        Some(i) => {
            let mut player: PlayerActor = world.players[i];
            player.rotation = PlayerRotation { yaw: input.message.yaw, pitch: input.message.pitch };
            world.players.set(i, player);
            assert(world@.enemies == old(world)@.enemies);
        },
        None => {},
    }
}

/// Applies a batch of messages that say where clients look, in the order in
/// which they arrived.
pub fn handle_rotation_input(world: &mut World, inputs: &Vec<FromClient<RotationInput>>)
    ensures
        final(world)@ == rotations_applied(old(world)@, inputs@),
        old(world)@.wf() ==> final(world)@.wf(),
        all_from_unknown(old(world)@, inputs@) ==> final(world)@ == old(world)@,
{
    proof {
        if old(world)@.wf() {
            lemma_rotations_keep_wf(old(world)@, inputs@);
        }
        if all_from_unknown(old(world)@, inputs@) {
            lemma_unknown_lookers_change_nothing(old(world)@, inputs@);
        }
    }
    let ghost start = world@;
    let mut i: usize = 0;
    assert(inputs@.take(0) =~= Seq::empty());
    while i < inputs.len()
        invariant
            i <= inputs.len(),
            world@ == rotations_applied(start, inputs@.take(i as int)),
        decreases inputs.len() - i,
    {
        apply_rotation_input(world, &inputs[i]);
        proof {
            let next = inputs@.take(i + 1);
            assert(next.drop_last() =~= inputs@.take(i as int));
            assert(next.last() == inputs@[i as int]);
        }
        i += 1;
    }
    assert(inputs@.take(inputs.len() as int) =~= inputs@);
}

/// The player with the velocity that it is given for `input`: level with the
/// ground by where it looks and what it wants, its vertical velocity as it
/// was.
pub open spec fn player_driven(player: PlayerActor, input: MovementInput) -> PlayerActor {
    let wanted = target_velocity(player.rotation.yaw as int, input);
    PlayerActor {
        velocity: Velocity {
            linvel: Vec3 { x: wanted.x, y: player.velocity.linvel.y, z: wanted.z },
        },
        ..player
    }
}

/// The world after a client has said where it wants to go: its player has the
/// velocity for that, and nothing else has changed. A message of an unknown
/// sender changes nothing.
pub open spec fn movement_applied(w: WorldView, input: FromClient<MovementInput>) -> WorldView {
    match sender_index(w, input.client_id) {
        Some(i) => WorldView {
            players: w.players.update(i, player_driven(w.players[i], input.message)),
            ..w
        },
        None => w,
    }
}

/// The world after the messages in `inputs`, taken in order.
pub open spec fn movements_applied(
    w: WorldView,
    inputs: Seq<FromClient<MovementInput>>,
) -> WorldView
    decreases inputs.len(),
{
    if inputs.len() == 0 {
        w
    } else {
        movement_applied(movements_applied(w, inputs.drop_last()), inputs.last())
    }
}

/// Applies one message that says where a client wants to go.
pub fn apply_movement_input(world: &mut World, input: &FromClient<MovementInput>)
    ensures
        final(world)@ == movement_applied(old(world)@, *input),
        is_unknown_sender(old(world)@, input.client_id) ==> final(world)@ == old(world)@,
        old(world)@.wf() ==> final(world)@.wf(),
{
    proof {
        lemma_unknown_sender(old(world)@, input.client_id);
        if old(world)@.wf() {
            lemma_movement_keeps_wf(old(world)@, *input);
        }
    }
    match find_sender(world, input.client_id) {
        Some(i) => {
            let mut player: PlayerActor = world.players[i];
            let wanted: Vec3 = movement_velocity(player.rotation.yaw, &input.message);
            player.velocity.linvel.x = wanted.x;
            player.velocity.linvel.z = wanted.z;
            world.players.set(i, player);
            assert(world@.enemies == old(world)@.enemies);
        },
        None => {},
    }
}

/// Applies a batch of messages that say where clients want to go, in the
/// order in which they arrived.
pub fn handle_movement_input(world: &mut World, inputs: &Vec<FromClient<MovementInput>>)
    ensures
        final(world)@ == movements_applied(old(world)@, inputs@),
        old(world)@.wf() ==> final(world)@.wf(),
        all_from_unknown(old(world)@, inputs@) ==> final(world)@ == old(world)@,
{
    proof {
        if old(world)@.wf() {
            lemma_movements_keep_wf(old(world)@, inputs@);
        }
        if all_from_unknown(old(world)@, inputs@) {
            lemma_unknown_senders_change_nothing(old(world)@, inputs@);
        }
    }
    let ghost start = world@;
    let mut i: usize = 0;
    assert(inputs@.take(0) =~= Seq::empty());
    while i < inputs.len()
        invariant
            i <= inputs.len(),
            world@ == movements_applied(start, inputs@.take(i as int)),
        decreases inputs.len() - i,
    {
        apply_movement_input(world, &inputs[i]);
        proof {
            let next = inputs@.take(i + 1);
            assert(next.drop_last() =~= inputs@.take(i as int));
            assert(next.last() == inputs@[i as int]);
        }
        i += 1;
    }
    assert(inputs@.take(inputs.len() as int) =~= inputs@);
}

/// The player with its mirrored position brought up to where the physics
/// engine has put it.
pub open spec fn position_synced(player: PlayerActor) -> PlayerActor {
    PlayerActor {
        position: PlayerPosition {
            x: player.transform.translation.x,
            y: player.transform.translation.y,
            z: player.transform.translation.z,
        },
        ..player
    }
}

/// The world with the mirrored position of every player brought up to where
/// the player is.
pub open spec fn after_player_sync(w: WorldView) -> WorldView {
    WorldView { players: w.players.map_values(|p: PlayerActor| position_synced(p)), ..w }
}

/// Copies where every player is into the position that is mirrored to the
/// clients.
pub fn sync_transform_to_position(world: &mut World)
    ensures
        final(world)@ == after_player_sync(old(world)@),
        old(world)@.wf() ==> final(world)@.wf(),
{
    proof {
        if old(world)@.wf() {
            lemma_player_sync_keeps_wf(old(world)@);
        }
    }
    let ghost start = world@;
    let mut i: usize = 0;
    while i < world.players.len()
        invariant
            i <= world.players.len(),
            world@.enemies == start.enemies,
            world.clients@ == start.clients,
            world.player_count == start.player_count,
            world.players.len() == start.players.len(),
            forall|k: int| 0 <= k < i ==> world.players[k] == position_synced(start.players[k]),
            forall|k: int| i <= k < world.players.len() ==> world.players[k] == start.players[k],
        decreases world.players.len() - i,
    {
        let mut player: PlayerActor = world.players[i];
        let at: Vec3 = player.transform.translation;
        player.position = PlayerPosition { x: at.x, y: at.y, z: at.z };
        world.players.set(i, player);
        i += 1;
    }
    assert(world@.players =~= start.players.map_values(|p: PlayerActor| position_synced(p)));
}

} // verus!
