//! Room operations: parameter changes, starting, stage progress, lobby cleanup.
use vstd::prelude::*;

use crate::keys::{key_lt, string_views, strictly_sorted};
use crate::limits::PARAM_CHANGE_COOLDOWN_SECS;
use crate::params::{
    apply_param_change, change_accepted, is_change_accepted, param_change_result, ParamDirection, ParamKind,
    ParamMutation,
};
use crate::player::{only_room_changed, RoomError};
use crate::state::{CoreState, MatchRoom, PeerAddr, PlayerConnection, PlayerHandle};
use crate::table::marked_keys;

verus! {

/// A parameter change by `player_id` in `match_id` at `now_unix` can only overflow the end of
/// its cooldown when it is accepted; this asks that it then fits in `u64`.
pub open spec fn param_update_fits(
    matches: Map<Seq<char>, MatchRoom>,
    match_id: Seq<char>,
    player_id: Seq<char>,
    param: ParamKind,
    direction: ParamDirection,
    now_unix: u64,
) -> bool {
    matches.contains_key(match_id) && matches[match_id].players@.contains_key(player_id) ==> {
        let h = matches[match_id].players@[player_id];
        change_accepted(h.params, h.next_param_change_at_unix, param, direction, now_unix)
            ==> now_unix + PARAM_CHANGE_COOLDOWN_SECS <= u64::MAX
    }
}

/// What a one-step parameter change for `player_id` in room `match_id` at `now_unix` answers
/// and leaves, given the rooms before: a missing room or player refuses; otherwise the answer
/// is that of `param_change_result`, and an accepted change is stored on the player and marks
/// activity on the room; nothing changes on a refusal.
pub open spec fn param_update_outcome(
    before: Map<Seq<char>, MatchRoom>,
    after: Map<Seq<char>, MatchRoom>,
    match_id: Seq<char>,
    player_id: Seq<char>,
    param: ParamKind,
    direction: ParamDirection,
    now_unix: u64,
    r: Result<ParamMutation, RoomError>,
) -> bool {
    &&& !before.contains_key(match_id) ==> r == Err::<ParamMutation, RoomError>(RoomError::MatchNotFound)
    &&& before.contains_key(match_id) && !before[match_id].players@.contains_key(player_id)
        ==> r == Err::<ParamMutation, RoomError>(RoomError::PlayerNotFound)
    &&& before.contains_key(match_id) && before[match_id].players@.contains_key(player_id) ==> {
        let h = before[match_id].players@[player_id];
        let outcome = param_change_result(h.params, h.next_param_change_at_unix, param, direction, now_unix);
        &&& outcome is Err ==> r == Err::<ParamMutation, RoomError>(RoomError::Param(outcome->Err_0))
        &&& outcome is Ok ==> r == Ok::<ParamMutation, RoomError>(outcome->Ok_0)
    }
    &&& r is Err ==> after == before
    &&& r is Ok ==> {
        let b = before[match_id];
        let a = after[match_id];
        let h = b.players@[player_id];
        let g = a.players@[player_id];
        &&& only_room_changed(before, after, match_id)
        &&& a.started_at_unix == b.started_at_unix
        &&& a.last_activity_unix == now_unix
        &&& a.players@.contains_key(player_id)
        &&& a.players@.remove(player_id) == b.players@.remove(player_id)
        &&& g.params == r->Ok_0.params
        &&& g.next_param_change_at_unix == r->Ok_0.next_param_change_at_unix
        &&& g.display_name == h.display_name
        &&& g.color_index == h.color_index
        &&& g.stage_order == h.stage_order
        &&& g.current_stage_index == h.current_stage_index
        &&& g.connection == h.connection
    }
}

/// Whether the player `player_id` of room `match_id` exists and a change of `param` in
/// `direction` at `now_unix` would be accepted for them.
pub open spec fn accepted_for(
    matches: Map<Seq<char>, MatchRoom>,
    match_id: Seq<char>,
    player_id: Seq<char>,
    param: ParamKind,
    direction: ParamDirection,
    now_unix: u64,
) -> bool {
    &&& matches.contains_key(match_id)
    &&& matches[match_id].players@.contains_key(player_id)
    &&& change_accepted(
        matches[match_id].players@[player_id].params,
        matches[match_id].players@[player_id].next_param_change_at_unix,
        param,
        direction,
        now_unix,
    )
}

/// What a parameter change read against the clock answers and leaves when the clock reads
/// `now_unix`: a change that would be accepted while the clock is so late that a new cooldown
/// would not fit in `u64` is refused and changes nothing; everything else is
/// `param_update_outcome`.
pub open spec fn clocked_param_update(
    before: Map<Seq<char>, MatchRoom>,
    after: Map<Seq<char>, MatchRoom>,
    match_id: Seq<char>,
    player_id: Seq<char>,
    param: ParamKind,
    direction: ParamDirection,
    now_unix: u64,
    r: Result<ParamMutation, RoomError>,
) -> bool {
    if now_unix > u64::MAX - PARAM_CHANGE_COOLDOWN_SECS && accepted_for(before, match_id, player_id, param, direction, now_unix) {
        r == Err::<ParamMutation, RoomError>(RoomError::ClockOutOfRange) && after == before
    } else {
        param_update_outcome(before, after, match_id, player_id, param, direction, now_unix, r)
    }
}

/// Applies a one-step parameter change for `player_id` in room `match_id` at `now_unix`; an
/// accepted change is stored on the player and marks activity on the room.
pub fn update_player_params_at(
    core: &mut CoreState,
    match_id: &String,
    player_id: &String,
    param: ParamKind,
    direction: ParamDirection,
    now_unix: u64,
) -> (r: Result<ParamMutation, RoomError>)
    requires
        param_update_fits(old(core).matches@, match_id@, player_id@, param, direction, now_unix),
    ensures
        final(core).tickets@ == old(core).tickets@,
        param_update_outcome(old(core).matches@, final(core).matches@, match_id@, player_id@, param, direction, now_unix, r),
{
    let ghost old_matches = core.matches@;
    let updated = {
        let room = match core.matches.get(match_id) {
            Some(room) => room,
            None => return Err(RoomError::MatchNotFound),
        };
        let player = match room.players.get(player_id) {
            Some(p) => p,
            None => return Err(RoomError::PlayerNotFound),
        };
        match apply_param_change(
            &player.params,
            player.next_param_change_at_unix,
            param,
            direction,
            now_unix,
        ) {
            Ok(m) => m,
            Err(e) => return Err(RoomError::Param(e)),
        }
    };
    let mut room = match core.matches.remove(match_id) {
        Some(room) => room,
        None => return Err(RoomError::MatchNotFound),
    };
    let ghost before = room;
    let mut player = match room.players.remove(player_id) {
        Some(p) => p,
        None => return Err(RoomError::PlayerNotFound),
    };
    player.params = updated.params;
    player.next_param_change_at_unix = updated.next_param_change_at_unix;
    room.players.insert(player_id.clone(), player);
    room.last_activity_unix = now_unix;
    core.matches.insert(match_id.clone(), room);
    proof {
        assert(core.matches@.remove(match_id@) =~= old_matches.remove(match_id@));
        assert(room.players@.remove(player_id@) =~= before.players@.remove(player_id@));
    }
    Ok(updated)
}


/// What starting room `match_id` at `now_unix` answers and leaves, given the rooms before: a
/// missing room refuses and nothing changes; a lobby room starts at `now_unix`; a room that
/// has started keeps its start time; either way nothing else about the rooms changes.
pub open spec fn start_outcome(
    before: Map<Seq<char>, MatchRoom>,
    after: Map<Seq<char>, MatchRoom>,
    match_id: Seq<char>,
    now_unix: u64,
    r: Result<(u64, bool), RoomError>,
) -> bool {
    if !before.contains_key(match_id) {
        r == Err::<(u64, bool), RoomError>(RoomError::MatchNotFound) && after == before
    } else {
        let b = before[match_id];
        let a = after[match_id];
        let just_started = b.started_at_unix == 0;
        &&& r == Ok::<(u64, bool), RoomError>(
            (if just_started { now_unix } else { b.started_at_unix }, just_started),
        )
        &&& only_room_changed(before, after, match_id)
        &&& a.players == b.players
        &&& a.last_activity_unix == b.last_activity_unix
        &&& a.started_at_unix == r->Ok_0.0
    }
}

/// Starts room `match_id` at `now_unix` unless it has started already; returns when it
/// started and whether this call started it.
pub fn start_room_at(core: &mut CoreState, match_id: &String, now_unix: u64) -> (r: Result<
    (u64, bool),
    RoomError,
>)
    ensures
        final(core).tickets@ == old(core).tickets@,
        start_outcome(old(core).matches@, final(core).matches@, match_id@, now_unix, r),
{
    let ghost old_matches = core.matches@;
    let mut room = match core.matches.remove(match_id) {
        Some(room) => room,
        None => {
            assert(core.matches@ =~= old_matches);
            return Err(RoomError::MatchNotFound);
        },
    };
    let just_started = room.started_at_unix == 0;
    if just_started {
        room.started_at_unix = now_unix;
    }
    let started_at_unix = room.started_at_unix;
    core.matches.insert(match_id.clone(), room);
    assert(core.matches@.remove(match_id@) =~= old_matches.remove(match_id@));
    Ok((started_at_unix, just_started))
}

/// Starting a room is idempotent: once a start at a nonzero time has succeeded, starting the
/// room again, at any time, changes nothing and answers with the first start time and `false`.
pub proof fn lemma_start_is_idempotent(
    m0: Map<Seq<char>, MatchRoom>,
    m1: Map<Seq<char>, MatchRoom>,
    m2: Map<Seq<char>, MatchRoom>,
    match_id: Seq<char>,
    t1: u64,
    t2: u64,
    r1: Result<(u64, bool), RoomError>,
    r2: Result<(u64, bool), RoomError>,
)
    requires
        start_outcome(m0, m1, match_id, t1, r1),
        start_outcome(m1, m2, match_id, t2, r2),
        t1 > 0,
    ensures
        r1 is Ok ==> r2 == Ok::<(u64, bool), RoomError>((r1->Ok_0.0, false)) && m2 == m1,
        r1 is Err ==> r2 == r1 && m2 == m0,
{
    if r1 is Ok {
        let a = m1[match_id];
        let b = m2[match_id];
        assert(a == b);
        assert(m2 =~= m1) by {
            assert forall|k: Seq<char>| #[trigger] m2.contains_key(k) <==> m1.contains_key(k) by {
                if k != match_id {
                    assert(m2.remove(match_id).contains_key(k) <==> m1.remove(match_id).contains_key(k));
                }
            }
            assert forall|k: Seq<char>| m2.contains_key(k) implies #[trigger] m2[k] == m1[k] by {
                if k != match_id {
                    assert(m2.remove(match_id)[k] == m1.remove(match_id)[k]);
                }
            }
        }
    }
}

/// The highest stage index a player with `stage_count` stages may report: one past the last
/// stage, taken modulo 256 as a `u8` holds it.
pub open spec fn stage_index_cap(stage_count: nat) -> u8 {
    let next: int = if stage_count + 1 > usize::MAX { usize::MAX as int } else { stage_count + 1int };
    (next % 256) as u8
}

/// Records the stage `player_id` in room `match_id` has reached, clamped to the cap, marking
/// activity at `now_unix`; returns the stored index.
pub fn update_player_stage_progress_at(
    core: &mut CoreState,
    match_id: &String,
    player_id: &String,
    current_stage_index: u8,
    now_unix: u64,
) -> (r: Result<u8, RoomError>)
    ensures
        final(core).tickets@ == old(core).tickets@,
        !old(core).matches@.contains_key(match_id@) ==> r == Err::<u8, RoomError>(RoomError::MatchNotFound),
        old(core).matches@.contains_key(match_id@) && !old(core).matches@[match_id@].players@.contains_key(player_id@)
            ==> r == Err::<u8, RoomError>(RoomError::PlayerNotFound),
        r is Err ==> final(core).matches@ == old(core).matches@,
        old(core).matches@.contains_key(match_id@) && old(core).matches@[match_id@].players@.contains_key(player_id@)
            ==> ({
            let before = old(core).matches@[match_id@];
            let after = final(core).matches@[match_id@];
            let h = before.players@[player_id@];
            let g = after.players@[player_id@];
            let cap = stage_index_cap(h.stage_order@.len());
            &&& r == Ok::<u8, RoomError>(if current_stage_index < cap { current_stage_index } else { cap })
            &&& only_room_changed(old(core).matches@, final(core).matches@, match_id@)
            &&& after.started_at_unix == before.started_at_unix
            &&& after.last_activity_unix == now_unix
            &&& after.players@.contains_key(player_id@)
            &&& after.players@.remove(player_id@) == before.players@.remove(player_id@)
            &&& g.current_stage_index == r->Ok_0
            &&& g.display_name == h.display_name
            &&& g.params == h.params
            &&& g.next_param_change_at_unix == h.next_param_change_at_unix
            &&& g.color_index == h.color_index
            &&& g.stage_order == h.stage_order
            &&& g.connection == h.connection
        }),
{
    let ghost old_matches = core.matches@;
    match core.matches.get(match_id) {
        Some(room) => {
            if !room.players.contains_key(player_id) {
                return Err(RoomError::PlayerNotFound);
            }
        },
        None => return Err(RoomError::MatchNotFound),
    }
    let mut room = match core.matches.remove(match_id) {
        Some(room) => room,
        None => return Err(RoomError::MatchNotFound),
    };
    let ghost before = room;
    let mut player = match room.players.remove(player_id) {
        Some(p) => p,
        None => return Err(RoomError::PlayerNotFound),
    };
    let count = player.stage_order.len();
    let next = if count < usize::MAX { count + 1 } else { count };
    let cap = (next % 256) as u8;
    let clamped = if current_stage_index < cap { current_stage_index } else { cap };
    player.current_stage_index = clamped;
    room.players.insert(player_id.clone(), player);
    room.last_activity_unix = now_unix;
    core.matches.insert(match_id.clone(), room);
    proof {
        assert(core.matches@.remove(match_id@) =~= old_matches.remove(match_id@));
        assert(room.players@.remove(player_id@) =~= before.players@.remove(player_id@));
    }
    Ok(clamped)
}

/// A lobby room that has seen no activity for at least `idle_timeout_secs` at `now_unix`.
pub open spec fn is_stale_lobby(room: MatchRoom, idle_timeout_secs: u64, now_unix: u64) -> bool {
    let idle = if now_unix >= room.last_activity_unix { now_unix - room.last_activity_unix } else { 0 };
    room.started_at_unix == 0 && idle >= idle_timeout_secs
}

/// The match ids of the stale lobby rooms.
pub open spec fn stale_lobby_ids(
    matches: Map<Seq<char>, MatchRoom>,
    idle_timeout_secs: u64,
    now_unix: u64,
) -> Set<Seq<char>> {
    matches.dom().filter(|k: Seq<char>| is_stale_lobby(matches[k], idle_timeout_secs, now_unix))
}

/// Cleanup spares live rooms: a room that has started, or a lobby room active within a
/// nonzero timeout, is never among the stale rooms, so it stays as it is.
pub proof fn lemma_cleanup_spares_live_rooms(
    matches: Map<Seq<char>, MatchRoom>,
    idle_timeout_secs: u64,
    now_unix: u64,
    match_id: Seq<char>,
)
    requires
        matches.contains_key(match_id),
        matches[match_id].started_at_unix != 0 || (idle_timeout_secs > 0 && now_unix
            < matches[match_id].last_activity_unix + idle_timeout_secs),
    ensures
        !stale_lobby_ids(matches, idle_timeout_secs, now_unix).contains(match_id),
        matches.remove_keys(stale_lobby_ids(matches, idle_timeout_secs, now_unix)).contains_key(match_id),
        matches.remove_keys(stale_lobby_ids(matches, idle_timeout_secs, now_unix))[match_id] == matches[match_id],
{
    let stale = stale_lobby_ids(matches, idle_timeout_secs, now_unix);
    assert(!is_stale_lobby(matches[match_id], idle_timeout_secs, now_unix));
    assert(!stale.contains(match_id));
    assert(matches.remove_keys(stale).dom().contains(match_id));
}

/// Cleanup takes every idle lobby room: a lobby room idle for at least the timeout is among
/// the stale rooms, so it goes.
pub proof fn lemma_cleanup_takes_idle_lobbies(
    matches: Map<Seq<char>, MatchRoom>,
    idle_timeout_secs: u64,
    now_unix: u64,
    match_id: Seq<char>,
)
    requires
        matches.contains_key(match_id),
        matches[match_id].started_at_unix == 0,
        matches[match_id].last_activity_unix + idle_timeout_secs <= now_unix,
    ensures
        stale_lobby_ids(matches, idle_timeout_secs, now_unix).contains(match_id),
        !matches.remove_keys(stale_lobby_ids(matches, idle_timeout_secs, now_unix)).contains_key(match_id),
{
}

fn contains_text(v: &Vec<String>, s: &String) -> (b: bool)
    ensures
        b == string_views(v@).contains(s@),
{
    let mut i: usize = 0;
    while i < v.len()
        invariant
            i <= v@.len(),
            forall|j: int| 0 <= j < i ==> string_views(v@)[j] != s@,
        decreases v@.len() - i,
    {
        if v[i] == *s {
            assert(string_views(v@)[i as int] == s@);
            return true;
        }
        i = i + 1;
    }
    false
}

/// Deletes every lobby room idle for at least `idle_timeout_secs` at `now_unix`, together with
/// the tickets issued for them, and returns the deleted match ids.
pub fn delete_stale_lobby_rooms_at(core: &mut CoreState, idle_timeout_secs: u64, now_unix: u64) -> (deleted: Vec<String>)
    ensures
        string_views(deleted@).no_duplicates(),
        string_views(deleted@).to_set() == stale_lobby_ids(old(core).matches@, idle_timeout_secs, now_unix),
        final(core).matches@ == old(core).matches@.remove_keys(
            stale_lobby_ids(old(core).matches@, idle_timeout_secs, now_unix),
        ),
        final(core).tickets@ == old(core).tickets@.restrict(
            old(core).tickets@.dom().filter(
                |k: Seq<char>|
                    !stale_lobby_ids(old(core).matches@, idle_timeout_secs, now_unix).contains(
                        old(core).tickets@[k].match_id@,
                    ),
            ),
        ),
{
    let ghost old_matches = core.matches@;
    let ghost old_tickets = core.tickets@;
    let ghost stale = stale_lobby_ids(old_matches, idle_timeout_secs, now_unix);
    proof {
        use_type_invariant(&core.matches);
        core.matches.lemma_storage();
        use_type_invariant(&core.tickets);
        core.tickets.lemma_storage();
    }
    let n = core.matches.len();
    let mut deleted: Vec<String> = Vec::new();
    let mut keep_rooms: Vec<bool> = Vec::new();
    let mut i: usize = 0;
    while i < n
        invariant
            n == core.matches.key_seq().len(),
            core.matches@ == old_matches,
            core.matches.key_seq().no_duplicates(),
            forall|k: Seq<char>| #[trigger] old_matches.contains_key(k) <==> core.matches.key_seq().contains(k),
            forall|t: int| 0 <= t < n ==> #[trigger] old_matches[core.matches.key_seq()[t]] == core.matches.val_seq()[t],
            stale == stale_lobby_ids(old_matches, idle_timeout_secs, now_unix),
            i <= n,
            keep_rooms@.len() == i,
            forall|t: int| 0 <= t < i ==> #[trigger] keep_rooms@[t] == !is_stale_lobby(
                old_matches[core.matches.key_seq()[t]], idle_timeout_secs, now_unix),
            string_views(deleted@).no_duplicates(),
            string_views(deleted@).to_set() == core.matches.key_seq().subrange(0, i as int).to_set().filter(
                |k: Seq<char>| is_stale_lobby(old_matches[k], idle_timeout_secs, now_unix)),
        decreases n - i,
    {
        let room = core.matches.value_at(i);
        let idle = now_unix.saturating_sub(room.last_activity_unix);
        let stale_now = room.started_at_unix == 0 && idle >= idle_timeout_secs;
        let ghost k = core.matches.key_seq()[i as int];
        proof {
            assert(old_matches[k] == *room);
        }
        keep_rooms.push(!stale_now);
        if stale_now {
            let id = core.matches.key_at(i).clone();
            proof {
                if string_views(deleted@).contains(k) {
                    assert(string_views(deleted@).to_set().contains(k));
                    let t = choose|t: int| 0 <= t < i && core.matches.key_seq().subrange(0, i as int)[t] == k;
                    assert(core.matches.key_seq()[t] == k);
                }
            }
            let ghost prev = deleted@;
            deleted.push(id);
            proof {
                assert(string_views(deleted@) =~= string_views(prev).push(k));
                string_views(prev).lemma_push_to_set_commute(k);
            }
        }
        proof {
            assert(core.matches.key_seq().subrange(0, i + 1) =~= core.matches.key_seq().subrange(0, i as int).push(k));
            core.matches.key_seq().subrange(0, i as int).lemma_push_to_set_commute(k);
            assert(core.matches.key_seq().subrange(0, i + 1).to_set().filter(
                |x: Seq<char>| is_stale_lobby(old_matches[x], idle_timeout_secs, now_unix))
                =~= if stale_now {
                    core.matches.key_seq().subrange(0, i as int).to_set().filter(
                        |x: Seq<char>| is_stale_lobby(old_matches[x], idle_timeout_secs, now_unix)).insert(k)
                } else {
                    core.matches.key_seq().subrange(0, i as int).to_set().filter(
                        |x: Seq<char>| is_stale_lobby(old_matches[x], idle_timeout_secs, now_unix))
                });
        }
        i = i + 1;
    }
    proof {
        assert(core.matches.key_seq().subrange(0, n as int) =~= core.matches.key_seq());
        assert(string_views(deleted@).to_set() =~= stale);
    }
    if deleted.len() == 0 {
        proof {
            assert(stale =~= Set::<Seq<char>>::empty());
            assert(old_matches.remove_keys(stale) =~= old_matches);
            assert(old_tickets.restrict(old_tickets.dom().filter(
                |k: Seq<char>| !stale.contains(old_tickets[k].match_id@))) =~= old_tickets);
        }
        return deleted;
    }
    let ghost room_keys = core.matches.key_seq();
    core.matches.retain_marked(&keep_rooms);
    proof {
        assert(core.matches@ =~= old_matches.remove_keys(stale)) by {
            assert forall|k: Seq<char>| #[trigger] marked_keys(room_keys, keep_rooms@).contains(k) <==> (old_matches.contains_key(k) && !stale.contains(k)) by {
                if marked_keys(room_keys, keep_rooms@).contains(k) {
                    let t = choose|t: int| 0 <= t < room_keys.len() && room_keys[t] == k && (t >= room_keys.len() || keep_rooms@[t]);
                    assert(room_keys.contains(k));
                }
                if old_matches.contains_key(k) && !stale.contains(k) {
                    let t = choose|t: int| 0 <= t < room_keys.len() && room_keys[t] == k;
                    assert(keep_rooms@[t]);
                }
            }
        }
    }
    let m = core.tickets.len();
    let mut keep_tickets: Vec<bool> = Vec::new();
    let mut j: usize = 0;
    while j < m
        invariant
            m == core.tickets.key_seq().len(),
            core.tickets@ == old_tickets,
            forall|k: Seq<char>| #[trigger] old_tickets.contains_key(k) <==> core.tickets.key_seq().contains(k),
            forall|t: int| 0 <= t < m ==> #[trigger] old_tickets[core.tickets.key_seq()[t]] == core.tickets.val_seq()[t],
            string_views(deleted@).to_set() == stale,
            j <= m,
            keep_tickets@.len() == j,
            forall|t: int| 0 <= t < j ==> #[trigger] keep_tickets@[t] == !stale.contains(
                old_tickets[core.tickets.key_seq()[t]].match_id@),
        decreases m - j,
    {
        let ticket = core.tickets.value_at(j);
        let hit = contains_text(&deleted, &ticket.match_id);
        proof {
            assert(old_tickets[core.tickets.key_seq()[j as int]] == *ticket);
        }
        keep_tickets.push(!hit);
        j = j + 1;
    }
    let ghost ticket_keys = core.tickets.key_seq();
    core.tickets.retain_marked(&keep_tickets);
    proof {
        let keep_set = old_tickets.dom().filter(|k: Seq<char>| !stale.contains(old_tickets[k].match_id@));
        assert(marked_keys(ticket_keys, keep_tickets@) =~= keep_set) by {
            assert forall|k: Seq<char>| #[trigger] marked_keys(ticket_keys, keep_tickets@).contains(k) <==> keep_set.contains(k) by {
                if marked_keys(ticket_keys, keep_tickets@).contains(k) {
                    let t = choose|t: int| 0 <= t < ticket_keys.len() && ticket_keys[t] == k && (t >= ticket_keys.len() || keep_tickets@[t]);
                    assert(ticket_keys.contains(k));
                }
                if keep_set.contains(k) {
                    let t = choose|t: int| 0 <= t < ticket_keys.len() && ticket_keys[t] == k;
                    assert(keep_tickets@[t]);
                }
            }
        }
    }
    deleted
}


/// A player to send to, and where.
#[derive(Debug)]
pub struct Recipient {
    pub player_id: String,
    pub addr: PeerAddr,
}

/// Where a player is reached, if anywhere.
pub open spec fn reach_of(h: PlayerHandle) -> Option<PeerAddr> {
    match h.connection {
        Some(PlayerConnection::Udp(a)) => Some(a),
        None => None,
    }
}

/// The player ids of a recipient list, in order.
pub open spec fn recipient_ids(s: Seq<Recipient>) -> Seq<Seq<char>> {
    s.map_values(|r: Recipient| r.player_id@)
}

/// The players to send to: every reachable player except `skip`.
pub open spec fn reachable_ids(players: Map<Seq<char>, PlayerHandle>, skip: Option<Seq<char>>) -> Set<Seq<char>> {
    players.dom().filter(|k: Seq<char>| reach_of(players[k]) is Some && skip != Some(k))
}

/// `s` lists every reachable player of `players` except `skip` once, in ascending player-id
/// order, with the player's address.
pub open spec fn is_recipient_list(s: Seq<Recipient>, players: Map<Seq<char>, PlayerHandle>, skip: Option<Seq<char>>) -> bool {
    &&& strictly_sorted(recipient_ids(s))
    &&& recipient_ids(s).to_set() == reachable_ids(players, skip)
    &&& forall|i: int| 0 <= i < s.len() ==> reach_of(players[(#[trigger] s[i]).player_id@]) == Some(s[i].addr)
}

/// A datagram is never echoed: the sender is not among the recipients that a list built to
/// skip it names.
pub proof fn lemma_datagram_skips_sender(
    s: Seq<Recipient>,
    players: Map<Seq<char>, PlayerHandle>,
    sender: Seq<char>,
)
    requires
        is_recipient_list(s, players, Some(sender)),
    ensures
        forall|i: int| 0 <= i < s.len() ==> (#[trigger] s[i]).player_id@ != sender,
{
    assert forall|i: int| 0 <= i < s.len() implies (#[trigger] s[i]).player_id@ != sender by {
        assert(recipient_ids(s)[i] == s[i].player_id@);
        assert(recipient_ids(s).to_set().contains(s[i].player_id@));
    }
}

/// Lists the reachable players of `room` other than `skip`, in ascending player-id order.
pub fn room_recipients(room: &MatchRoom, skip: Option<&String>) -> (r: Vec<Recipient>)
    ensures
        is_recipient_list(r@, room.players@, match skip { Some(s) => Some(s@), None => None }),
{
    let ghost skipv = match skip { Some(s) => Some(s@), None => None::<Seq<char>> };
    let ghost players = room.players@;
    let ghost pred = |k: Seq<char>| reach_of(players[k]) is Some && skipv != Some(k);
    let ids = room.players.sorted_keys();
    let ghost idv = crate::keys::string_views(ids@);
    let mut out: Vec<Recipient> = Vec::new();
    let mut i: usize = 0;
    while i < ids.len()
        invariant
            players == room.players@,
            skipv == match skip { Some(s) => Some(s@), None => None::<Seq<char>> },
            pred == |k: Seq<char>| reach_of(players[k]) is Some && skipv != Some(k),
            idv == crate::keys::string_views(ids@),
            strictly_sorted(idv),
            idv.to_set() == players.dom(),
            i <= ids@.len(),
            strictly_sorted(recipient_ids(out@)),
            recipient_ids(out@).to_set() == idv.subrange(0, i as int).to_set().filter(pred),
            forall|t: int, j: int| 0 <= t < out@.len() && i <= j < idv.len() ==> key_lt(
                #[trigger] recipient_ids(out@)[t], #[trigger] idv[j]),
            forall|t: int| 0 <= t < out@.len() ==> reach_of(players[(#[trigger] out@[t]).player_id@]) == Some(out@[t].addr),
        decreases ids@.len() - i,
    {
        let id = &ids[i];
        let ghost k = idv[i as int];
        assert(idv.to_set().contains(k));
        let h = match room.players.get(id) {
            Some(h) => h,
            None => {
                assert(false);
                return out;
            },
        };
        let skipped = match skip {
            Some(s) => *s == *id,
            None => false,
        };
        let ghost prev = out@;
        if !skipped {
            match h.connection {
                Some(PlayerConnection::Udp(addr)) => {
                    out.push(Recipient { player_id: id.clone(), addr });
                    proof {
                        assert(recipient_ids(out@) =~= recipient_ids(prev).push(k));
                        recipient_ids(prev).lemma_push_to_set_commute(k);
                    }
                },
                None => {},
            }
        }
        proof {
            assert(idv.subrange(0, i + 1) =~= idv.subrange(0, i as int).push(k));
            idv.subrange(0, i as int).lemma_push_to_set_commute(k);
            assert(pred(k) == (reach_of(players[k]) is Some && skipv != Some(k)));
            assert(recipient_ids(out@).to_set() =~= idv.subrange(0, i + 1).to_set().filter(pred));
            assert forall|t: int, j: int| 0 <= t < out@.len() && i + 1 <= j < idv.len() implies key_lt(
                #[trigger] recipient_ids(out@)[t], #[trigger] idv[j]) by {
                if t < prev.len() {
                    assert(recipient_ids(out@)[t] == recipient_ids(prev)[t]);
                } else {
                    assert(recipient_ids(out@)[t] == k);
                }
            }
            assert forall|a: int, b: int| 0 <= a < b < recipient_ids(out@).len() implies key_lt(
                #[trigger] recipient_ids(out@)[a], #[trigger] recipient_ids(out@)[b]) by {
                if b < prev.len() {
                    assert(recipient_ids(out@)[a] == recipient_ids(prev)[a]);
                    assert(recipient_ids(out@)[b] == recipient_ids(prev)[b]);
                } else {
                    assert(recipient_ids(out@)[a] == recipient_ids(prev)[a]);
                    assert(key_lt(recipient_ids(prev)[a], idv[i as int]));
                }
            }
        }
        i = i + 1;
    }
    proof {
        assert(idv.subrange(0, i as int) =~= idv);
        assert(reachable_ids(players, skipv) =~= idv.to_set().filter(pred));
    }
    out
}

/// A player of a room that a reliable message goes to, and where the player is reached, if
/// anywhere.
#[derive(Debug)]
pub struct Member {
    pub player_id: String,
    pub addr: Option<PeerAddr>,
}

/// The player ids of a member list, in order.
pub open spec fn member_ids(s: Seq<Member>) -> Seq<Seq<char>> {
    s.map_values(|m: Member| m.player_id@)
}

/// `s` lists every player of `players` once, in ascending player-id order, with where the
/// player is reached.
pub open spec fn is_member_list(s: Seq<Member>, players: Map<Seq<char>, PlayerHandle>) -> bool {
    &&& strictly_sorted(member_ids(s))
    &&& member_ids(s).to_set() == players.dom()
    &&& forall|i: int| 0 <= i < s.len() ==> reach_of(players[(#[trigger] s[i]).player_id@]) == s[i].addr
}

/// Lists every player of `room`, in ascending player-id order, with where each is reached.
pub fn room_members(room: &MatchRoom) -> (r: Vec<Member>)
    ensures
        is_member_list(r@, room.players@),
{
    let ghost players = room.players@;
    let ids = room.players.sorted_keys();
    let ghost idv = crate::keys::string_views(ids@);
    let mut out: Vec<Member> = Vec::new();
    let mut i: usize = 0;
    while i < ids.len()
        invariant
            players == room.players@,
            idv == crate::keys::string_views(ids@),
            strictly_sorted(idv),
            idv.to_set() == players.dom(),
            i <= ids@.len(),
            member_ids(out@) == idv.subrange(0, i as int),
            forall|t: int| 0 <= t < out@.len() ==> reach_of(players[(#[trigger] out@[t]).player_id@]) == out@[t].addr,
        decreases ids@.len() - i,
    {
        let id = &ids[i];
        let ghost k = idv[i as int];
        assert(idv.to_set().contains(k));
        let h = match room.players.get(id) {
            Some(h) => h,
            None => {
                assert(false);
                return out;
            },
        };
        let addr = match h.connection {
            Some(PlayerConnection::Udp(a)) => Some(a),
            None => None,
        };
        let ghost prev = out@;
        out.push(Member { player_id: id.clone(), addr });
        proof {
            assert(member_ids(out@) =~= member_ids(prev).push(k));
            assert(idv.subrange(0, i + 1) =~= idv.subrange(0, i as int).push(k));
        }
        i = i + 1;
    }
    proof {
        assert(idv.subrange(0, i as int) =~= idv);
    }
    out
}

/// The players a reliable message to room `match_id` goes to: all its players; `None` when
/// there is no such room.
pub fn reliable_recipients(core: &CoreState, match_id: &String) -> (r: Option<Vec<Member>>)
    ensures
        !core.matches@.contains_key(match_id@) ==> r is None,
        core.matches@.contains_key(match_id@) ==> r is Some && is_member_list(
            r->Some_0@,
            core.matches@[match_id@].players@,
        ),
{
    match core.matches.get(match_id) {
        Some(room) => Some(room_members(room)),
        None => None,
    }
}

/// The players a datagram from `sender_player_id` in room `match_id` goes to: every other
/// reachable player; `None` when there is no such room.
pub fn datagram_recipients(core: &CoreState, match_id: &String, sender_player_id: &String) -> (r: Option<Vec<Recipient>>)
    ensures
        !core.matches@.contains_key(match_id@) ==> r is None,
        core.matches@.contains_key(match_id@) ==> r is Some && is_recipient_list(
            r->Some_0@,
            core.matches@[match_id@].players@,
            Some(sender_player_id@),
        ),
{
    match core.matches.get(match_id) {
        Some(room) => Some(room_recipients(room, Some(sender_player_id))),
        None => None,
    }
}


/// The players a datagram to the whole of room `match_id` goes to: every reachable player;
/// `None` when there is no such room.
pub fn datagram_recipients_all(core: &CoreState, match_id: &String) -> (r: Option<Vec<Recipient>>)
    ensures
        !core.matches@.contains_key(match_id@) ==> r is None,
        core.matches@.contains_key(match_id@) ==> r is Some && is_recipient_list(
            r->Some_0@,
            core.matches@[match_id@].players@,
            None,
        ),
{
    match core.matches.get(match_id) {
        Some(room) => Some(room_recipients(room, None)),
        None => None,
    }
}


/// Returns whether the player `player_id` of room `match_id` exists and a change of `param` in
/// `direction` at `now_unix` would be accepted for them.
pub fn change_accepted_now(
    core: &CoreState,
    match_id: &String,
    player_id: &String,
    param: ParamKind,
    direction: ParamDirection,
    now_unix: u64,
) -> (b: bool)
    ensures
        b == accepted_for(core.matches@, match_id@, player_id@, param, direction, now_unix),
{
    match core.matches.get(match_id) {
        None => false,
        Some(room) => match room.players.get(player_id) {
            None => false,
            Some(h) => is_change_accepted(&h.params, h.next_param_change_at_unix, param, direction, now_unix),
        },
    }
}

/// Applies a parameter change for `player_id` in room `match_id` now; see
/// `update_player_params_at`. A change that would be accepted while the clock is so late that
/// a new cooldown would not fit in `u64` is refused.
pub fn update_player_params(
    core: &mut CoreState,
    match_id: &String,
    player_id: &String,
    param: ParamKind,
    direction: ParamDirection,
) -> (r: Result<ParamMutation, RoomError>)
    ensures
        final(core).tickets@ == old(core).tickets@,
        r is Err ==> final(core).matches@ == old(core).matches@,
        !old(core).matches@.contains_key(match_id@) ==> r is Err,
        old(core).matches@.contains_key(match_id@) && !old(core).matches@[match_id@].players@.contains_key(player_id@)
            ==> r is Err,
        r is Ok ==> ({
            let before = old(core).matches@[match_id@];
            let after = final(core).matches@[match_id@];
            let h = before.players@[player_id@];
            let g = after.players@[player_id@];
            &&& exists|now_unix: u64| param_change_result(h.params, h.next_param_change_at_unix, param, direction, now_unix)
                == Ok::<ParamMutation, crate::params::ParamUpdateError>(r->Ok_0)
            &&& only_room_changed(old(core).matches@, final(core).matches@, match_id@)
            &&& after.players@.remove(player_id@) == before.players@.remove(player_id@)
            &&& g.params == r->Ok_0.params
            &&& g.next_param_change_at_unix == r->Ok_0.next_param_change_at_unix
        }),
        exists|now_unix: u64|
            #![trigger clocked_param_update(old(core).matches@, final(core).matches@, match_id@, player_id@, param, direction, now_unix, r)]
            clocked_param_update(old(core).matches@, final(core).matches@, match_id@, player_id@, param, direction, now_unix, r),
{
    let now = crate::clock::now_unix();
    if now > u64::MAX - PARAM_CHANGE_COOLDOWN_SECS && change_accepted_now(core, match_id, player_id, param, direction, now) {
        assert(clocked_param_update(core.matches@, core.matches@, match_id@, player_id@, param, direction, now, Err(RoomError::ClockOutOfRange)));
        return Err(RoomError::ClockOutOfRange);
    }
    let ghost before = core.matches@;
    let r = update_player_params_at(core, match_id, player_id, param, direction, now);
    assert(clocked_param_update(before, core.matches@, match_id@, player_id@, param, direction, now, r));
    r
}

/// Records the stage `player_id` in room `match_id` has reached, now; see
/// `update_player_stage_progress_at`.
pub fn update_player_stage_progress(
    core: &mut CoreState,
    match_id: &String,
    player_id: &String,
    current_stage_index: u8,
) -> (r: Result<u8, RoomError>)
    ensures
        final(core).tickets@ == old(core).tickets@,
        !old(core).matches@.contains_key(match_id@) ==> r == Err::<u8, RoomError>(RoomError::MatchNotFound),
        old(core).matches@.contains_key(match_id@) && !old(core).matches@[match_id@].players@.contains_key(player_id@)
            ==> r == Err::<u8, RoomError>(RoomError::PlayerNotFound),
        r is Err ==> final(core).matches@ == old(core).matches@,
        old(core).matches@.contains_key(match_id@) && old(core).matches@[match_id@].players@.contains_key(player_id@)
            ==> ({
            let before = old(core).matches@[match_id@];
            let after = final(core).matches@[match_id@];
            let h = before.players@[player_id@];
            let cap = stage_index_cap(h.stage_order@.len());
            &&& r == Ok::<u8, RoomError>(if current_stage_index < cap { current_stage_index } else { cap })
            &&& only_room_changed(old(core).matches@, final(core).matches@, match_id@)
            &&& after.players@.remove(player_id@) == before.players@.remove(player_id@)
            &&& after.players@[player_id@].current_stage_index == r->Ok_0
        }),
{
    let now = crate::clock::now_unix();
    update_player_stage_progress_at(core, match_id, player_id, current_stage_index, now)
}

/// Deletes the lobby rooms idle for at least `idle_timeout_secs` now, with their tickets;
/// see `delete_stale_lobby_rooms_at`.
pub fn delete_stale_lobby_rooms(core: &mut CoreState, idle_timeout_secs: u64) -> (deleted: Vec<String>)
    ensures
        string_views(deleted@).no_duplicates(),
        exists|now_unix: u64|
            #![trigger stale_lobby_ids(old(core).matches@, idle_timeout_secs, now_unix)]
            {
            let stale = stale_lobby_ids(old(core).matches@, idle_timeout_secs, now_unix);
            &&& string_views(deleted@).to_set() == stale
            &&& final(core).matches@ == old(core).matches@.remove_keys(stale)
            &&& final(core).tickets@ == old(core).tickets@.restrict(
                old(core).tickets@.dom().filter(|k: Seq<char>| !stale.contains(old(core).tickets@[k].match_id@)),
            )
        },
{
    let now = crate::clock::now_unix();
    delete_stale_lobby_rooms_at(core, idle_timeout_secs, now)
}

} // verus!
