//! Fixed limits of rooms, tickets and player parameters.
use vstd::prelude::*;

verus! {

/// Most players that one room holds.
pub const ROOM_MAX_PLAYERS: usize = 4;

/// Lifetime of a join ticket, in seconds.
pub const TOKEN_TTL_SECS: u64 = 3600;

/// Lowest level of every parameter.
pub const PARAM_MIN_LEVEL: u8 = 1;

/// Highest level of gravity and speed (LOW, MID, HIGH).
pub const PARAM_MAX_LEVEL_THREE_STAGE: u8 = 3;

/// Highest level of friction (OFF, ON).
pub const PARAM_MAX_LEVEL_FRICTION: u8 = 2;

/// Level that every parameter starts at.
pub const PARAM_DEFAULT_LEVEL: u8 = 2;

/// Seconds a player waits after one parameter change before the next.
pub const PARAM_CHANGE_COOLDOWN_SECS: u64 = 30;

/// Number of stages a match draws each player's stage order from.
pub const MATCH_STAGE_POOL_SIZE: u8 = 6;

/// Number of stages in each player's stage order.
pub const MATCH_STAGE_ORDER_LEN: usize = 3;

/// Seconds a lobby room may stay idle before it is deleted.
pub const ROOM_IDLE_TIMEOUT_SECS: u64 = 600;

/// Seconds between two sweeps for idle lobby rooms.
pub const ROOM_CLEANUP_INTERVAL_SECS: u64 = 60;

} // verus!
