//! What crosses the wire, and who sent it.

pub mod connection;
pub mod protocol;
pub mod server;

pub use connection::{ClientConnection, ClientId, FromClient};
pub use protocol::{Enemy, EnemyPosition, Player, PlayerPosition, PlayerRotation, PORT};
pub use server::ServerEvent;
