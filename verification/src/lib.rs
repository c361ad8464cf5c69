//! The realtime core of the kotatsu game server: match rooms and their players, join
//! tickets, per-player parameters with cooldowns, the UDP wire framing and message routing,
//! the matchmaking control operations, and the decisions of the test clients.

pub mod client;
pub mod clock;
pub mod control;
pub mod ids;
pub mod keys;
pub mod layout;
pub mod limits;
pub mod numbers;
pub mod params;
pub mod player;
pub mod probe;
pub mod protocol;
pub mod room;
pub mod session;
pub mod state;
pub mod table;
pub mod text;
pub mod ticket;
