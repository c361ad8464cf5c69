//! The server's shared state: rooms, the players in them, and outstanding join tickets.
use vstd::prelude::*;

use crate::params::PlayerParams;
use crate::table::StrMap;

verus! {

/// A peer's UDP address: an IPv4 address is held in the low 32 bits of `ip`.
#[derive(Clone, Copy, Debug, PartialEq, Eq, Structural)]
pub struct PeerAddr {
    pub ip: u128,
    pub port: u16,
    pub is_v6: bool,
}

/// How a player is reached.
#[derive(Clone, Copy, Debug, PartialEq, Eq, Structural)]
pub enum PlayerConnection {
    Udp(PeerAddr),
}

/// One player of a room.
#[derive(Debug)]
pub struct PlayerHandle {
    pub display_name: String,
    pub params: PlayerParams,
    pub next_param_change_at_unix: u64,
    pub color_index: Option<u8>,
    pub stage_order: Vec<u8>,
    pub current_stage_index: u8,
    pub connection: Option<PlayerConnection>,
}

/// A match room: its players, when it started (0 while in the lobby) and when it last saw
/// activity.
pub struct MatchRoom {
    pub players: StrMap<PlayerHandle>,
    pub started_at_unix: u64,
    pub last_activity_unix: u64,
}

/// A join ticket issued for one player of one room.
#[derive(Debug)]
pub struct Ticket {
    pub match_id: String,
    pub player_id: String,
    pub display_name: String,
    pub expires_at_unix: u64,
}

/// All rooms by match id and all outstanding tickets by token.
pub struct CoreState {
    pub matches: StrMap<MatchRoom>,
    pub tickets: StrMap<Ticket>,
}

/// A room with no players that has not started.
pub open spec fn is_fresh_room(room: MatchRoom, last_activity_unix: u64) -> bool {
    &&& room.players@ == Map::<Seq<char>, PlayerHandle>::empty()
    &&& room.started_at_unix == 0
    &&& room.last_activity_unix == last_activity_unix
}

impl MatchRoom {
    /// Returns an empty lobby room whose last activity is `last_activity_unix`.
    pub fn with_activity(last_activity_unix: u64) -> (room: MatchRoom)
        ensures
            is_fresh_room(room, last_activity_unix),
    {
        MatchRoom { players: StrMap::new(), started_at_unix: 0, last_activity_unix }
    }

    /// Returns an empty lobby room whose last activity is now.
    pub fn new() -> (room: MatchRoom)
        ensures
            room.players@ == Map::<Seq<char>, PlayerHandle>::empty(),
            room.started_at_unix == 0,
    {
        MatchRoom::with_activity(crate::clock::now_unix())
    }
}

impl CoreState {
    /// Returns a state with no rooms and no tickets.
    pub fn new() -> (core: CoreState)
        ensures
            core.matches@ == Map::<Seq<char>, MatchRoom>::empty(),
            core.tickets@ == Map::<Seq<char>, Ticket>::empty(),
    {
        CoreState { matches: StrMap::new(), tickets: StrMap::new() }
    }
}

} // verus!
