//! The actor store and the connection table.

use vstd::prelude::*;
use crate::game::enemy::components::{EnemyActor, EnemyView};
use crate::game::player::components::PlayerActor;
use crate::network::connection::ClientConnection;
use crate::network::protocol::{
    Enemy, EnemyPosition, Health, Player, PlayerPosition, PlayerRotation,
};

verus! {

/// How many players have been spawned so far. The next player is placed by
/// this number.
#[derive(Clone, Copy, Debug, PartialEq, Eq, Structural)]
pub struct PlayerCount(pub u32);

/// Everything the simulation owns: the actors, the connection table and the
/// count of players spawned.
#[derive(Debug, PartialEq, Eq)]
pub struct World {
    pub players: Vec<PlayerActor>,
    pub enemies: Vec<EnemyActor>,
    pub clients: Vec<ClientConnection>,
    pub player_count: PlayerCount,
}

/// The model of the simulation context.
pub struct WorldView {
    pub players: Seq<PlayerActor>,
    pub enemies: Seq<EnemyView>,
    pub clients: Seq<ClientConnection>,
    pub player_count: PlayerCount,
}

/// What the clients are shown of a player.
#[derive(Clone, Copy, Debug, PartialEq, Eq, Structural)]
pub struct PlayerSnapshot {
    pub player: Player,
    pub position: PlayerPosition,
    pub rotation: PlayerRotation,
    pub health: Health,
}

/// What the clients are shown of an enemy. Its state, its patrol path and its
/// flocking are the server's own and are never sent.
#[derive(Clone, Copy, Debug, PartialEq, Eq, Structural)]
pub struct EnemySnapshot {
    pub enemy: Enemy,
    pub position: EnemyPosition,
}

/// What is handed to the transport once per tick.
#[derive(Debug, PartialEq, Eq)]
pub struct Snapshot {
    pub players: Vec<PlayerSnapshot>,
    pub enemies: Vec<EnemySnapshot>,
}

/// What the clients are shown of `player`.
pub open spec fn shown_player(player: PlayerActor) -> PlayerSnapshot {
    PlayerSnapshot {
        player: player.player,
        position: player.position,
        rotation: player.rotation,
        health: player.health,
    }
}

/// What the clients are shown of `enemy`.
pub open spec fn shown_enemy(enemy: EnemyView) -> EnemySnapshot {
    EnemySnapshot { enemy: enemy.enemy, position: enemy.position }
}

impl WorldView {
    /// What holds of the store at all times: every patrol path heads for one
    /// of its waypoints, every enemy attacks from nearer than it starts to
    /// chase, no player has less than no health or more than its maximum, and
    /// no two actors of a kind share an identifier.
    pub open spec fn wf(self) -> bool {
        &&& forall|i: int| 0 <= i < self.enemies.len() ==> (#[trigger] self.enemies[i]).patrol.wf()
        &&& forall|i: int|
            0 <= i < self.enemies.len() ==> (#[trigger] self.enemies[i]).movement.wf()
        &&& forall|i: int| 0 <= i < self.players.len() ==> (#[trigger] self.players[i]).health.wf()
        &&& forall|i: int, j: int|
            0 <= i < j < self.players.len() ==> (#[trigger] self.players[i]).player.id != (
            #[trigger] self.players[j]).player.id
        &&& forall|i: int, j: int|
            0 <= i < j < self.enemies.len() ==> (#[trigger] self.enemies[i]).enemy.id != (
            #[trigger] self.enemies[j]).enemy.id
    }
}

impl View for World {
    type V = WorldView;

    open spec fn view(&self) -> WorldView {
        WorldView {
            players: self.players@,
            enemies: self.enemies@.map_values(|e: EnemyActor| e@),
            clients: self.clients@,
            player_count: self.player_count,
        }
    }
}

impl World {
    /// A world without actors or connections.
    pub fn new() -> (world: World)
        ensures
            world@.players.len() == 0,
            world@.enemies.len() == 0,
            world@.clients.len() == 0,
            world@.player_count == PlayerCount(0),
            world@.wf(),
    {
        World {
            players: Vec::new(),
            enemies: Vec::new(),
            clients: Vec::new(),
            player_count: PlayerCount(0),
        }
    }

    /// Says whether the store is as it should be at all times: health within
    /// its range, attack ranges below chase ranges, and no identifier used
    /// twice.
    pub fn is_well_formed(&self) -> (ok: bool)
        ensures
            ok == self@.wf(),
    {
        let ghost w = self@;
        let mut i: usize = 0;
        while i < self.players.len()
            invariant
                i <= self.players.len(),
                w == self@,
                forall|k: int| 0 <= k < i ==> (#[trigger] w.players[k]).health.wf(),
                forall|k: int, j: int|
                    0 <= k < j < i ==> (#[trigger] w.players[k]).player.id != (
                    #[trigger] w.players[j]).player.id,
            decreases self.players.len() - i,
        {
            let p: PlayerActor = self.players[i];
            if p.health.current < 0 || p.health.current > p.health.max {
                assert(!w.players[i as int].health.wf());
                return false;
            }
            let mut j: usize = 0;
            while j < i
                invariant
                    j <= i < self.players.len(),
                    w == self@,
                    p == self.players[i as int],
                    forall|k: int|
                        0 <= k < j ==> (#[trigger] w.players[k]).player.id != p.player.id,
                decreases i - j,
            {
                if self.players[j].player.id == p.player.id {
                    assert(w.players[j as int].player.id == w.players[i as int].player.id);
                    return false;
                }
                j += 1;
            }
            i += 1;
        }
        let mut m: usize = 0;
        while m < self.enemies.len()
            invariant
                m <= self.enemies.len(),
                w == self@,
                forall|k: int|
                    0 <= k < self.players.len() ==> (#[trigger] w.players[k]).health.wf(),
                forall|k: int, j: int|
                    0 <= k < j < self.players.len() ==> (#[trigger] w.players[k]).player.id != (
                    #[trigger] w.players[j]).player.id,
                forall|k: int| 0 <= k < m ==> (#[trigger] w.enemies[k]).patrol.wf(),
                forall|k: int| 0 <= k < m ==> (#[trigger] w.enemies[k]).movement.wf(),
                forall|k: int, j: int|
                    0 <= k < j < m ==> (#[trigger] w.enemies[k]).enemy.id != (
                    #[trigger] w.enemies[j]).enemy.id,
            decreases self.enemies.len() - m,
        {
            let id: u32 = self.enemies[m].enemy.id;
            let _ = self.enemies[m].patrol.current_index();
            assert(w.enemies[m as int] == self.enemies[m as int]@);
            if self.enemies[m].movement.attack_range >= self.enemies[m].movement.chase_range {
                assert(!w.enemies[m as int].movement.wf());
                return false;
            }
            let mut j: usize = 0;
            while j < m
                invariant
                    j <= m < self.enemies.len(),
                    w == self@,
                    id == self.enemies[m as int].enemy.id,
                    forall|k: int| 0 <= k < j ==> (#[trigger] w.enemies[k]).enemy.id != id,
                decreases m - j,
            {
                if self.enemies[j].enemy.id == id {
                    assert(w.enemies[j as int].enemy.id == w.enemies[m as int].enemy.id);
                    return false;
                }
                j += 1;
            }
            m += 1;
        }
        true
    }

    /// The mirrored records of all actors, in the order of the store.
    pub fn snapshot(&self) -> (shown: Snapshot)
        ensures
            shown.players@ == self@.players.map_values(|p: PlayerActor| shown_player(p)),
            shown.enemies@ == self@.enemies.map_values(|e: EnemyView| shown_enemy(e)),
    {
        let mut players: Vec<PlayerSnapshot> = Vec::new();
        let mut i: usize = 0;
        while i < self.players.len()
            invariant
                i <= self.players.len(),
                players.len() == i,
                forall|k: int| 0 <= k < i ==> players[k] == shown_player(self.players[k]),
            decreases self.players.len() - i,
        {
            let p: PlayerActor = self.players[i];
            players.push(
                PlayerSnapshot {
                    player: p.player,
                    position: p.position,
                    rotation: p.rotation,
                    health: p.health,
                },
            );
            i += 1;
        }
        let mut enemies: Vec<EnemySnapshot> = Vec::new();
        let mut j: usize = 0;
        while j < self.enemies.len()
            invariant
                j <= self.enemies.len(),
                enemies.len() == j,
                forall|k: int| 0 <= k < j ==> enemies[k] == shown_enemy(self.enemies[k]@),
            decreases self.enemies.len() - j,
        {
            enemies.push(
                EnemySnapshot { enemy: self.enemies[j].enemy, position: self.enemies[j].position },
            );
            j += 1;
        }
        assert(players@ =~= self@.players.map_values(|p: PlayerActor| shown_player(p)));
        assert(enemies@ =~= self@.enemies.map_values(|e: EnemyView| shown_enemy(e)));
        Snapshot { players, enemies }
    }
}

impl Clone for World {
    fn clone(&self) -> (copy: World)
        ensures
            copy@ == self@,
    {
        let mut players: Vec<PlayerActor> = Vec::new();
        let mut i: usize = 0;
        while i < self.players.len()
            invariant
                i <= self.players.len(),
                players.len() == i,
                forall|k: int| 0 <= k < i ==> players[k] == self.players[k],
            decreases self.players.len() - i,
        {
            players.push(self.players[i]);
            i += 1;
        }
        let mut enemies: Vec<EnemyActor> = Vec::new();
        let mut j: usize = 0;
        while j < self.enemies.len()
            invariant
                j <= self.enemies.len(),
                enemies.len() == j,
                forall|k: int| 0 <= k < j ==> enemies[k]@ == self.enemies[k]@,
            decreases self.enemies.len() - j,
        {
            enemies.push(self.enemies[j].clone());
            j += 1;
        }
        let mut clients: Vec<ClientConnection> = Vec::new();
        let mut k: usize = 0;
        while k < self.clients.len()
            invariant
                k <= self.clients.len(),
                clients.len() == k,
                forall|n: int| 0 <= n < k ==> clients[n] == self.clients[n],
            decreases self.clients.len() - k,
        {
            clients.push(self.clients[k]);
            k += 1;
        }
        let copy = World { players, enemies, clients, player_count: self.player_count };
        assert(copy@.players =~= self@.players);
        assert(copy@.enemies =~= self@.enemies);
        assert(copy@.clients =~= self@.clients);
        copy
    }
}

} // verus!
