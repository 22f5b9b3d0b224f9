//! Network synchronisation for a many-object multiplayer simulation: stable
//! identities, the wire format, and the server and client protocol steps.

pub mod broadcast;
pub mod chunking;
pub mod client;
pub mod ids;
pub mod interest;
pub mod messages;
pub mod records;
pub mod registry;
pub mod server;
pub mod transport;
pub mod wire;
