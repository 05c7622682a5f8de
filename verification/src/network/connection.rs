//! The connection table: which connection stands for which client.
//!
//! The sender of a message is looked up here, by the connection that delivered
//! the message. Nothing inside a message is ever asked who sent it.

use vstd::prelude::*;

verus! {

/// Who delivered a message: the server itself, or the entity of a connected
/// client.
#[derive(Clone, Copy, Debug, PartialEq, Eq, Structural)]
pub enum ClientId {
    Server,
    Client(u64),
}

/// A message together with the connection that delivered it.
#[derive(Debug, PartialEq, Eq)]
pub struct FromClient<T> {
    pub client_id: ClientId,
    pub message: T,
}

/// One row of the connection table: the entity of a connected client and the
/// network identifier that the transport gave it.
#[derive(Clone, Copy, Debug, PartialEq, Eq, Structural)]
pub struct ClientConnection {
    pub entity: u64,
    pub network_id: u64,
}

/// `i` is the first place in `keys` that holds `key`.
pub open spec fn is_first_index(keys: Seq<u64>, key: u64, i: int) -> bool {
    &&& 0 <= i < keys.len()
    &&& keys[i] == key
    &&& forall|j: int| 0 <= j < i ==> keys[j] != key
}

/// The first place in `keys` that holds `key`, if any does.
pub open spec fn first_index(keys: Seq<u64>, key: u64) -> Option<int> {
    if exists|i: int| is_first_index(keys, key, i) {
        Some(choose|i: int| is_first_index(keys, key, i))
    } else {
        None
    }
}

/// `first_index` is `Some(i)` exactly for the first place that holds the key,
/// and `None` exactly where no place holds it.
pub proof fn lemma_first_index(keys: Seq<u64>, key: u64)
    ensures
        match first_index(keys, key) {
            Some(i) => is_first_index(keys, key, i),
            None => forall|j: int| 0 <= j < keys.len() ==> keys[j] != key,
        },
{
    if !exists|i: int| is_first_index(keys, key, i) {
        assert forall|j: int| 0 <= j < keys.len() implies keys[j] != key by {
            lemma_no_key_before(keys, key, j + 1);
        }
    }
}

proof fn lemma_no_key_before(keys: Seq<u64>, key: u64, n: int)
    requires
        0 <= n <= keys.len(),
        !exists|i: int| is_first_index(keys, key, i),
    ensures
        forall|j: int| 0 <= j < n ==> keys[j] != key,
    decreases n,
{
    if n > 0 {
        lemma_no_key_before(keys, key, n - 1);
        if keys[n - 1] == key {
            assert(is_first_index(keys, key, n - 1));
        }
    }
}

/// The first place that holds the key is the only first place.
pub proof fn lemma_first_index_is(keys: Seq<u64>, key: u64, i: int)
    requires
        is_first_index(keys, key, i),
    ensures
        first_index(keys, key) == Some(i),
{
    let c = choose|k: int| is_first_index(keys, key, k);
    assert(is_first_index(keys, key, c));
    if c < i {
        assert(keys[c] != key);
    } else if i < c {
        assert(keys[i] != key);
    }
}

/// No place holds the key.
pub proof fn lemma_first_index_none(keys: Seq<u64>, key: u64)
    requires
        forall|j: int| 0 <= j < keys.len() ==> keys[j] != key,
    ensures
        first_index(keys, key) is None,
{
}

/// The entities of the rows, in order.
pub open spec fn entities(clients: Seq<ClientConnection>) -> Seq<u64> {
    clients.map_values(|c: ClientConnection| c.entity)
}

/// The network identifier of the client that `client` stands for: that of the
/// first row for its entity. `None` for the server and for an entity without a
/// row.
pub open spec fn network_id_of(clients: Seq<ClientConnection>, client: ClientId) -> Option<u64> {
    match client {
        ClientId::Server => None,
        ClientId::Client(entity) => match first_index(entities(clients), entity) {
            Some(i) => Some(clients[i].network_id),
            None => None,
        },
    }
}

/// Looks up the sender of a message in the connection table.
pub fn resolve_sender(clients: &Vec<ClientConnection>, client: ClientId) -> (id: Option<u64>)
    ensures
        id == network_id_of(clients@, client),
{
    match client {
        ClientId::Server => None,
        ClientId::Client(entity) => {
            let ghost keys = entities(clients@);
            let mut i: usize = 0;
            while i < clients.len()
                invariant
                    i <= clients.len(),
                    client == ClientId::Client(entity),
                    keys == entities(clients@),
                    forall|j: int| 0 <= j < i ==> keys[j] != entity,
                decreases clients.len() - i,
            {
                assert(keys[i as int] == clients@[i as int].entity);
                if clients[i].entity == entity {
                    proof {
                        lemma_first_index_is(keys, entity, i as int);
                    }
                    return Some(clients[i].network_id);
                }
                i += 1;
            }
            proof {
                lemma_first_index_none(keys, entity);
            }
            None
        },
    }
}

} // verus!
