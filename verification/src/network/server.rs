//! What the transport reports of its connections.

use vstd::prelude::*;

verus! {

/// A client has connected or has gone.
#[derive(Clone, Copy, Debug, PartialEq, Eq, Structural)]
pub enum ServerEvent {
    ClientConnected { client_id: u64 },
    ClientDisconnected { client_id: u64 },
}

} // verus!
