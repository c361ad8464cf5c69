//! Players entering and leaving rooms.
use vstd::prelude::*;

use crate::limits::ROOM_MAX_PLAYERS;
use crate::params::{ParamUpdateError, PlayerParams};
use crate::state::{CoreState, MatchRoom, PeerAddr, PlayerConnection, PlayerHandle};

verus! {

/// Why a room operation was refused.
#[derive(Clone, Copy, Debug, PartialEq, Eq, Structural)]
pub enum RoomError {
    MatchNotFound,
    MatchFull,
    PlayerNotFound,
    Param(ParamUpdateError),
    /// The clock reads so late that the time to store would not fit in `u64`.
    ClockOutOfRange,
}

impl RoomError {
    /// The error's text.
    pub open spec fn spec_message(self) -> Seq<char> {
        match self {
            RoomError::MatchNotFound => "match_not_found"@,
            RoomError::MatchFull => "match_full"@,
            RoomError::PlayerNotFound => "player_not_found"@,
            RoomError::Param(e) => e.spec_message(),
            RoomError::ClockOutOfRange => "clock_out_of_range"@,
        }
    }

    /// Returns the error's text.
    pub fn message(&self) -> (s: String)
        ensures
            s@ == self.spec_message(),
    {
        match self {
            RoomError::MatchNotFound => crate::text::owned("match_not_found"),
            RoomError::MatchFull => crate::text::owned("match_full"),
            RoomError::PlayerNotFound => crate::text::owned("player_not_found"),
            RoomError::Param(e) => e.message(),
            RoomError::ClockOutOfRange => crate::text::owned("clock_out_of_range"),
        }
    }
}

/// `h` is the handle that registering `display_name` at `addr` leaves, given the handle the
/// player had before, if any: the display name and address are the new ones, everything else
/// is kept from before or starts afresh.
pub open spec fn is_registered_handle(
    h: PlayerHandle,
    prev: Option<PlayerHandle>,
    display_name: Seq<char>,
    addr: PeerAddr,
) -> bool {
    &&& h.display_name@ == display_name
    &&& h.connection == Some(PlayerConnection::Udp(addr))
    &&& match prev {
        Some(p) => {
            &&& h.params == p.params
            &&& h.next_param_change_at_unix == p.next_param_change_at_unix
            &&& h.color_index == p.color_index
            &&& h.stage_order@ == p.stage_order@
            &&& h.current_stage_index == p.current_stage_index
        },
        None => {
            &&& h.params == PlayerParams::spec_default()
            &&& h.next_param_change_at_unix == 0
            &&& h.color_index is None
            &&& h.stage_order@ == Seq::<u8>::empty()
            &&& h.current_stage_index == 0
        },
    }
}

/// Whether registering `player_id` in `room` is refused for lack of room.
pub open spec fn room_is_full_for(room: MatchRoom, player_id: Seq<char>) -> bool {
    room.players@.len() >= ROOM_MAX_PLAYERS && !room.players@.contains_key(player_id)
}

/// `after` is `before` with only the room `match_id` replaced.
pub open spec fn only_room_changed(
    before: Map<Seq<char>, MatchRoom>,
    after: Map<Seq<char>, MatchRoom>,
    match_id: Seq<char>,
) -> bool {
    &&& after.contains_key(match_id)
    &&& after.remove(match_id) == before.remove(match_id)
}

/// What registering `player_id` with `display_name` at `addr` in room `match_id` at
/// `now_unix` does to the rooms and answers: a missing room or a full one refuses and
/// changes nothing; any other room accepts, the player is added or refreshed and their
/// parameters come back.
pub open spec fn register_outcome(
    before: Map<Seq<char>, MatchRoom>,
    after: Map<Seq<char>, MatchRoom>,
    match_id: Seq<char>,
    player_id: Seq<char>,
    display_name: Seq<char>,
    addr: PeerAddr,
    now_unix: u64,
    r: Result<PlayerParams, RoomError>,
) -> bool {
    &&& !before.contains_key(match_id) ==> r == Err::<PlayerParams, RoomError>(RoomError::MatchNotFound)
    &&& before.contains_key(match_id) && room_is_full_for(before[match_id], player_id)
        ==> r == Err::<PlayerParams, RoomError>(RoomError::MatchFull)
    &&& before.contains_key(match_id) && !room_is_full_for(before[match_id], player_id) ==> r is Ok
    &&& r is Err ==> after == before
    &&& r is Ok ==> ({
        let b = before[match_id];
        let a = after[match_id];
        &&& before.contains_key(match_id)
        &&& !room_is_full_for(b, player_id)
        &&& only_room_changed(before, after, match_id)
        &&& a.started_at_unix == b.started_at_unix
        &&& a.last_activity_unix == now_unix
        &&& a.players@.contains_key(player_id)
        &&& a.players@.remove(player_id) == b.players@.remove(player_id)
        &&& is_registered_handle(
            a.players@[player_id],
            if b.players@.contains_key(player_id) {
                Some(b.players@[player_id])
            } else {
                None
            },
            display_name,
            addr,
        )
        &&& r->Ok_0 == a.players@[player_id].params
    })
}

/// Adds `player_id` to room `match_id`, or refreshes the player's name and address when they
/// are already in it, and returns the player's parameters; a room that already holds the most
/// players refuses newcomers.
pub fn register_player_udp_at(
    core: &mut CoreState,
    match_id: &String,
    player_id: &String,
    display_name: String,
    addr: PeerAddr,
    now_unix: u64,
) -> (r: Result<PlayerParams, RoomError>)
    ensures
        final(core).tickets@ == old(core).tickets@,
        register_outcome(old(core).matches@, final(core).matches@, match_id@, player_id@, display_name@, addr, now_unix, r),
{
    let ghost old_matches = core.matches@;
    match core.matches.get(match_id) {
        Some(room) => {
            if room.players.len() >= ROOM_MAX_PLAYERS && !room.players.contains_key(player_id) {
                return Err(RoomError::MatchFull);
            }
        },
        None => return Err(RoomError::MatchNotFound),
    }
    let mut room = match core.matches.remove(match_id) {
        Some(room) => room,
        None => {
            proof {
                assert(false);
            }
            return Err(RoomError::MatchNotFound);
        },
    };
    let ghost before = room;
    let handle = match room.players.remove(player_id) {
        Some(prev) => PlayerHandle {
            display_name,
            params: prev.params,
            next_param_change_at_unix: prev.next_param_change_at_unix,
            color_index: prev.color_index,
            stage_order: prev.stage_order,
            current_stage_index: prev.current_stage_index,
            connection: Some(PlayerConnection::Udp(addr)),
        },
        None => PlayerHandle {
            display_name,
            params: PlayerParams::default(),
            next_param_change_at_unix: 0,
            color_index: None,
            stage_order: Vec::new(),
            current_stage_index: 0,
            connection: Some(PlayerConnection::Udp(addr)),
        },
    };
    let params = handle.params;
    room.players.insert(player_id.clone(), handle);
    room.last_activity_unix = now_unix;
    core.matches.insert(match_id.clone(), room);
    proof {
        assert(core.matches@.remove(match_id@) =~= old_matches.remove(match_id@));
        assert(room.players@.remove(player_id@) =~= before.players@.remove(player_id@));
    }
    Ok(params)
}

/// Checks that room `match_id` exists and holds `player_id`: the lookup a parameter update
/// makes before it touches the player.
pub fn locate_player(core: &CoreState, match_id: &String, player_id: &String) -> (r: Result<(), RoomError>)
    ensures
        !core.matches@.contains_key(match_id@) ==> r == Err::<(), RoomError>(RoomError::MatchNotFound),
        core.matches@.contains_key(match_id@) && !core.matches@[match_id@].players@.contains_key(player_id@)
            ==> r == Err::<(), RoomError>(RoomError::PlayerNotFound),
        r is Ok <==> core.matches@.contains_key(match_id@) && core.matches@[match_id@].players@.contains_key(player_id@),
{
    match core.matches.get(match_id) {
        None => Err(RoomError::MatchNotFound),
        Some(room) => if room.players.contains_key(player_id) {
            Ok(())
        } else {
            Err(RoomError::PlayerNotFound)
        },
    }
}

/// Removes `player_id` from room `match_id`, marking activity at `now_unix`; nothing changes
/// when the room does not exist.
pub fn remove_player_at(core: &mut CoreState, match_id: &String, player_id: &String, now_unix: u64)
    ensures
        final(core).tickets@ == old(core).tickets@,
        !old(core).matches@.contains_key(match_id@) ==> final(core).matches@ == old(core).matches@,
        old(core).matches@.contains_key(match_id@) ==> ({
            let before = old(core).matches@[match_id@];
            let after = final(core).matches@[match_id@];
            &&& only_room_changed(old(core).matches@, final(core).matches@, match_id@)
            &&& after.players@ == before.players@.remove(player_id@)
            &&& after.started_at_unix == before.started_at_unix
            &&& after.last_activity_unix == now_unix
        }),
{
    let ghost old_matches = core.matches@;
    if let Some(mut room) = core.matches.remove(match_id) {
        room.players.remove(player_id);
        room.last_activity_unix = now_unix;
        core.matches.insert(match_id.clone(), room);
        assert(core.matches@.remove(match_id@) =~= old_matches.remove(match_id@));
    } else {
        assert(core.matches@ =~= old_matches);
    }
}


/// Registration never lets a room grow past the most players it may hold: a room within
/// capacity before a registration is within capacity after it, whatever the registration
/// answered.
pub proof fn lemma_register_keeps_capacity(
    before: Map<Seq<char>, MatchRoom>,
    after: Map<Seq<char>, MatchRoom>,
    match_id: Seq<char>,
    player_id: Seq<char>,
    display_name: Seq<char>,
    addr: PeerAddr,
    now_unix: u64,
    r: Result<PlayerParams, RoomError>,
)
    requires
        register_outcome(before, after, match_id, player_id, display_name, addr, now_unix, r),
        before.contains_key(match_id) ==> before[match_id].players@.dom().finite(),
        before.contains_key(match_id) ==> before[match_id].players@.len() <= ROOM_MAX_PLAYERS,
    ensures
        after.contains_key(match_id) ==> after[match_id].players@.dom().finite(),
        after.contains_key(match_id) ==> after[match_id].players@.len() <= ROOM_MAX_PLAYERS,
{
    if r is Ok {
        let b = before[match_id].players@;
        let a = after[match_id].players@;
        assert(a.remove(player_id).dom() == b.remove(player_id).dom());
        assert(a.dom() =~= a.remove(player_id).dom().insert(player_id));
        assert(a.remove(player_id).dom() =~= a.dom().remove(player_id));
        assert(b.remove(player_id).dom() =~= b.dom().remove(player_id));
        assert(a.dom().remove(player_id).len() == a.dom().len() - 1);
        if b.contains_key(player_id) {
            assert(b.dom().remove(player_id).len() == b.dom().len() - 1);
        } else {
            assert(b.dom().remove(player_id) =~= b.dom());
        }
    }
}

/// Registers `player_id` in room `match_id` now; see `register_player_udp_at`.
pub fn register_player_udp(
    core: &mut CoreState,
    match_id: &String,
    player_id: &String,
    display_name: String,
    addr: PeerAddr,
) -> (r: Result<PlayerParams, RoomError>)
    ensures
        final(core).tickets@ == old(core).tickets@,
        !old(core).matches@.contains_key(match_id@) ==> r == Err::<PlayerParams, RoomError>(RoomError::MatchNotFound),
        old(core).matches@.contains_key(match_id@) && room_is_full_for(old(core).matches@[match_id@], player_id@)
            ==> r == Err::<PlayerParams, RoomError>(RoomError::MatchFull),
        old(core).matches@.contains_key(match_id@) && !room_is_full_for(old(core).matches@[match_id@], player_id@)
            ==> r is Ok,
        exists|now_unix: u64|
            register_outcome(old(core).matches@, final(core).matches@, match_id@, player_id@, display_name@, addr, now_unix, r),
{
    let now = crate::clock::now_unix();
    register_player_udp_at(core, match_id, player_id, display_name, addr, now)
}

/// Removes `player_id` from room `match_id` now; see `remove_player_at`.
pub fn remove_player(core: &mut CoreState, match_id: &String, player_id: &String)
    ensures
        final(core).tickets@ == old(core).tickets@,
        !old(core).matches@.contains_key(match_id@) ==> final(core).matches@ == old(core).matches@,
        old(core).matches@.contains_key(match_id@) ==> ({
            let before = old(core).matches@[match_id@];
            let after = final(core).matches@[match_id@];
            &&& only_room_changed(old(core).matches@, final(core).matches@, match_id@)
            &&& after.players@ == before.players@.remove(player_id@)
            &&& after.started_at_unix == before.started_at_unix
        }),
{
    let now = crate::clock::now_unix();
    remove_player_at(core, match_id, player_id, now)
}

} // verus!
