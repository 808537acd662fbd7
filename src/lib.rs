//! Wire codec and packet dispatch for an osu! "Bancho" game server.
pub mod error;
pub mod wire;
pub mod reader;
pub mod writer;
pub mod records;
pub mod packets;
pub mod dispatch;
