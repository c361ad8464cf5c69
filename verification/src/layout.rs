//! Starting a match: each player is dealt a colour and a random order of stages.
use vstd::prelude::*;

use rand::rngs::ThreadRng;
use rand::seq::SliceRandom;

use crate::keys::{key_rank, lemma_key_order, lemma_sorted_position_is_rank, string_views, strictly_sorted};
use crate::limits::{MATCH_STAGE_ORDER_LEN, MATCH_STAGE_POOL_SIZE, ROOM_MAX_PLAYERS};
use crate::player::{only_room_changed, RoomError};
use crate::state::{CoreState, MatchRoom, PlayerHandle};

verus! {

#[verifier::external_type_specification]
#[verifier::external_body]
pub struct ExThreadRng(ThreadRng);

/// `rand::thread_rng`: the thread's random number generator.
#[verifier::external_body]
fn thread_rng() -> ThreadRng {
    rand::thread_rng()
}

/// `SliceRandom::shuffle`: permutes `v` in place (a Fisher-Yates shuffle of swaps), so the
/// items stay the same, each as often as before; their order is random.
#[verifier::external_body]
fn shuffle_bytes(v: &mut Vec<u8>, rng: &mut ThreadRng)
    ensures
        final(v)@.to_multiset() == old(v)@.to_multiset(),
        final(v)@.len() == old(v)@.len(),
{
    v.as_mut_slice().shuffle(rng)
}

/// `s` holds each of `0..n` exactly once.
pub open spec fn is_permutation_of_range(s: Seq<u8>, n: nat) -> bool {
    &&& s.len() == n
    &&& s.no_duplicates()
    &&& forall|i: int| 0 <= i < s.len() ==> #[trigger] s[i] < n
}

/// `s` is a valid stage order: `MATCH_STAGE_ORDER_LEN` distinct stages of the pool.
pub open spec fn is_stage_order(s: Seq<u8>) -> bool {
    &&& s.len() == (if MATCH_STAGE_ORDER_LEN < MATCH_STAGE_POOL_SIZE as usize {
        MATCH_STAGE_ORDER_LEN
    } else {
        MATCH_STAGE_POOL_SIZE as usize
    })
    &&& s.no_duplicates()
    &&& forall|i: int| 0 <= i < s.len() ==> #[trigger] s[i] < MATCH_STAGE_POOL_SIZE
}

proof fn lemma_shuffled_range(orig: Seq<u8>, shuffled: Seq<u8>, n: nat)
    requires
        is_permutation_of_range(orig, n),
        shuffled.to_multiset() == orig.to_multiset(),
    ensures
        is_permutation_of_range(shuffled, n),
{
    orig.to_multiset_ensures();
    shuffled.to_multiset_ensures();
    orig.lemma_multiset_has_no_duplicates();
    shuffled.lemma_multiset_has_no_duplicates_conv();
    assert forall|i: int| 0 <= i < shuffled.len() implies #[trigger] shuffled[i] < n by {
        assert(shuffled.contains(shuffled[i]));
        assert(shuffled.to_multiset().count(shuffled[i]) > 0);
        assert(orig.to_multiset().count(shuffled[i]) > 0);
        assert(orig.contains(shuffled[i]));
    }
}

/// Returns `0, 1, ..., n - 1`.
fn byte_range(n: u8) -> (v: Vec<u8>)
    ensures
        is_permutation_of_range(v@, n as nat),
        forall|i: int| 0 <= i < n ==> #[trigger] v@[i] == i,
{
    let mut v: Vec<u8> = Vec::new();
    let mut i: u8 = 0;
    while i < n
        invariant
            i <= n,
            v@.len() == i,
            forall|j: int| 0 <= j < i ==> #[trigger] v@[j] == j,
        decreases n - i,
    {
        v.push(i);
        i = i + 1;
    }
    v
}

/// Returns a random stage order.
fn random_stage_order(rng: &mut ThreadRng) -> (order: Vec<u8>)
    ensures
        is_stage_order(order@),
{
    let mut order = byte_range(MATCH_STAGE_POOL_SIZE);
    let ghost orig = order@;
    shuffle_bytes(&mut order, rng);
    proof {
        lemma_shuffled_range(orig, order@, MATCH_STAGE_POOL_SIZE as nat);
    }
    let keep = if MATCH_STAGE_ORDER_LEN < order.len() { MATCH_STAGE_ORDER_LEN } else { order.len() };
    let ghost full = order@;
    order.truncate(keep);
    proof {
        assert(order@ =~= full.subrange(0, keep as int));
        assert forall|a: int, b: int| 0 <= a < b < order@.len() implies order@[a] != order@[b] by {
            assert(order@[a] == full[a]);
            assert(order@[b] == full[b]);
        }
        assert forall|a: int| 0 <= a < order@.len() implies #[trigger] order@[a] < MATCH_STAGE_POOL_SIZE by {
            assert(order@[a] == full[a]);
        }
    }
    order
}

/// The colour dealt to the player at sorted position `t`.
pub open spec fn dealt_color(colors: Seq<u8>, t: int) -> Option<u8> {
    if t < ROOM_MAX_PLAYERS { Some(colors[t]) } else { None }
}

/// `g` is `h` after being dealt a layout: the given colour, a valid stage order and stage 0,
/// everything else kept.
pub open spec fn is_dealt(g: PlayerHandle, h: PlayerHandle, color: Option<u8>) -> bool {
    &&& g.display_name == h.display_name
    &&& g.params == h.params
    &&& g.next_param_change_at_unix == h.next_param_change_at_unix
    &&& g.connection == h.connection
    &&& g.color_index == color
    &&& is_stage_order(g.stage_order@)
    &&& g.current_stage_index == 0
}

/// `after` is the players of `before` each dealt a layout: the same players; each keeps name,
/// parameters, cooldown and address, gets a valid stage order and stands at stage 0; the
/// players whose ids rank below `ROOM_MAX_PLAYERS` in the room get a colour below it, no two
/// the same, and the others none.
pub open spec fn is_layout_dealt(before: Map<Seq<char>, PlayerHandle>, after: Map<Seq<char>, PlayerHandle>) -> bool {
    &&& after.dom() == before.dom()
    &&& forall|k: Seq<char>| #[trigger] after.contains_key(k) ==> {
        let g = after[k];
        let h = before[k];
        &&& g.display_name == h.display_name
        &&& g.params == h.params
        &&& g.next_param_change_at_unix == h.next_param_change_at_unix
        &&& g.connection == h.connection
        &&& is_stage_order(g.stage_order@)
        &&& g.current_stage_index == 0
        &&& (g.color_index is Some <==> key_rank(before.dom(), k) < ROOM_MAX_PLAYERS)
        &&& (g.color_index matches Some(c) ==> c < ROOM_MAX_PLAYERS)
    }
    &&& forall|k1: Seq<char>, k2: Seq<char>|
        #[trigger] after.contains_key(k1) && #[trigger] after.contains_key(k2) && k1 != k2
            && after[k1].color_index is Some ==> after[k1].color_index != after[k2].color_index
}

/// Deals each player of `room` a colour and a random stage order and puts them at stage 0.
/// Colours are a random arrangement of `0..ROOM_MAX_PLAYERS` handed out in player-id order, so
/// no two players share one; a player whose id has at least `ROOM_MAX_PLAYERS` smaller ids in
/// the room gets none.
pub fn assign_randomized_layout(room: &mut MatchRoom)
    ensures
        final(room).started_at_unix == old(room).started_at_unix,
        final(room).last_activity_unix == old(room).last_activity_unix,
        is_layout_dealt(old(room).players@, final(room).players@),
{
    let ghost old_players = room.players@;
    let ids = room.players.sorted_keys();
    let ghost idv = string_views(ids@);
    let mut rng = thread_rng();
    let mut colors = byte_range(ROOM_MAX_PLAYERS as u8);
    let ghost plain = colors@;
    shuffle_bytes(&mut colors, &mut rng);
    proof {
        lemma_shuffled_range(plain, colors@, ROOM_MAX_PLAYERS as nat);
    }
    let mut i: usize = 0;
    while i < ids.len()
        invariant
            idv == string_views(ids@),
            strictly_sorted(idv),
            idv.to_set() == old_players.dom(),
            is_permutation_of_range(colors@, ROOM_MAX_PLAYERS as nat),
            i <= ids@.len(),
            room.started_at_unix == old(room).started_at_unix,
            room.last_activity_unix == old(room).last_activity_unix,
            room.players@.dom() == old_players.dom(),
            forall|t: int| #![trigger idv[t]] 0 <= t < i ==> is_dealt(
                room.players@[idv[t]],
                old_players[idv[t]],
                dealt_color(colors@, t),
            ),
            forall|t: int| i <= t < idv.len() ==> #[trigger] room.players@[idv[t]] == old_players[idv[t]],
        decreases ids@.len() - i,
    {
        let order = random_stage_order(&mut rng);
        let color = if i < colors.len() { Some(colors[i]) } else { None };
        let key = &ids[i];
        let ghost kv = idv[i as int];
        assert(idv.to_set().contains(kv));
        let mut p = match room.players.remove(key) {
            Some(p) => p,
            None => {
                assert(false);
                return;
            },
        };
        let ghost prev = room.players@;
        p.color_index = color;
        p.stage_order = order;
        p.current_stage_index = 0;
        room.players.insert(key.clone(), p);
        proof {
            assert(room.players@.dom() =~= old_players.dom());
            assert forall|t: int| #![trigger idv[t]] 0 <= t < i + 1 implies is_dealt(
                room.players@[idv[t]],
                old_players[idv[t]],
                dealt_color(colors@, t),
            ) by {
                if t < i {
                    lemma_key_order(idv[t], idv[i as int], idv[i as int]);
                }
            }
            assert forall|t: int| i + 1 <= t < idv.len() implies #[trigger] room.players@[idv[t]] == old_players[idv[t]] by {
                lemma_key_order(idv[i as int], idv[t], idv[t]);
            }
        }
        i = i + 1;
    }
    proof {
        assert forall|k: Seq<char>| #[trigger] room.players@.contains_key(k) implies {
            let g = room.players@[k];
            let h = old_players[k];
            &&& g.display_name == h.display_name
            &&& g.params == h.params
            &&& g.next_param_change_at_unix == h.next_param_change_at_unix
            &&& g.connection == h.connection
            &&& is_stage_order(g.stage_order@)
            &&& g.current_stage_index == 0
            &&& (g.color_index is Some <==> key_rank(old_players.dom(), k) < ROOM_MAX_PLAYERS)
            &&& (g.color_index matches Some(c) ==> c < ROOM_MAX_PLAYERS)
        } by {
            assert(idv.to_set().contains(k));
            let t = choose|t: int| 0 <= t < idv.len() && idv[t] == k;
            lemma_sorted_position_is_rank(idv, t);
            assert(is_dealt(room.players@[idv[t]], old_players[idv[t]], dealt_color(colors@, t)));
        }
        assert forall|k1: Seq<char>, k2: Seq<char>|
            #[trigger] room.players@.contains_key(k1) && #[trigger] room.players@.contains_key(k2)
                && k1 != k2 && room.players@[k1].color_index is Some
                implies room.players@[k1].color_index != room.players@[k2].color_index by {
            assert(idv.to_set().contains(k1));
            assert(idv.to_set().contains(k2));
            let t1 = choose|t: int| 0 <= t < idv.len() && idv[t] == k1;
            let t2 = choose|t: int| 0 <= t < idv.len() && idv[t] == k2;
            assert(is_dealt(room.players@[idv[t1]], old_players[idv[t1]], dealt_color(colors@, t1)));
            assert(is_dealt(room.players@[idv[t2]], old_players[idv[t2]], dealt_color(colors@, t2)));
        }
    }
}


/// What a started match tells about one player.
#[derive(Debug)]
pub struct PlayerMatchState {
    pub player_id: String,
    pub display_name: String,
    pub color_index: u8,
    pub stage_order: Vec<u8>,
    pub current_stage_index: u8,
}

/// `s` describes player `id` whose handle is `h`; a player without a colour shows colour 0.
pub open spec fn is_match_state_of(s: PlayerMatchState, id: Seq<char>, h: PlayerHandle) -> bool {
    &&& s.player_id@ == id
    &&& s.display_name@ == h.display_name@
    &&& s.color_index == match h.color_index {
        Some(c) => c,
        None => 0,
    }
    &&& s.stage_order@ == h.stage_order@
    &&& s.current_stage_index == h.current_stage_index
}

/// The player ids of a snapshot, in order.
pub open spec fn snapshot_ids(s: Seq<PlayerMatchState>) -> Seq<Seq<char>> {
    s.map_values(|p: PlayerMatchState| p.player_id@)
}

/// `s` lists every player of `players` once, in ascending player-id order.
pub open spec fn is_snapshot(s: Seq<PlayerMatchState>, players: Map<Seq<char>, PlayerHandle>) -> bool {
    &&& strictly_sorted(snapshot_ids(s))
    &&& snapshot_ids(s).to_set() == players.dom()
    &&& forall|i: int| 0 <= i < s.len() ==> is_match_state_of(#[trigger] s[i], s[i].player_id@, players[s[i].player_id@])
}

/// Returns a copy of `v`.
pub fn copy_bytes(v: &Vec<u8>) -> (r: Vec<u8>)
    ensures
        r@ == v@,
{
    let mut r: Vec<u8> = Vec::new();
    let mut i: usize = 0;
    while i < v.len()
        invariant
            i <= v@.len(),
            r@ == v@.subrange(0, i as int),
        decreases v@.len() - i,
    {
        r.push(v[i]);
        i = i + 1;
        assert(r@ =~= v@.subrange(0, i as int));
    }
    assert(v@.subrange(0, i as int) =~= v@);
    r
}

/// Lists the players of `room` in ascending player-id order with their colour, stage order
/// and stage.
pub fn snapshot_players(room: &MatchRoom) -> (players: Vec<PlayerMatchState>)
    ensures
        is_snapshot(players@, room.players@),
{
    let ids = room.players.sorted_keys();
    let ghost idv = string_views(ids@);
    let mut out: Vec<PlayerMatchState> = Vec::new();
    let mut i: usize = 0;
    while i < ids.len()
        invariant
            idv == string_views(ids@),
            idv.to_set() == room.players@.dom(),
            i <= ids@.len(),
            out@.len() == i,
            forall|t: int| 0 <= t < i ==> (#[trigger] out@[t]).player_id@ == idv[t],
            forall|t: int| 0 <= t < i ==> is_match_state_of(#[trigger] out@[t], out@[t].player_id@, room.players@[out@[t].player_id@]),
        decreases ids@.len() - i,
    {
        let id = &ids[i];
        assert(idv.to_set().contains(idv[i as int]));
        let h = match room.players.get(id) {
            Some(h) => h,
            None => {
                assert(false);
                return out;
            },
        };
        let color = match h.color_index {
            Some(c) => c,
            None => 0,
        };
        out.push(PlayerMatchState {
            player_id: id.clone(),
            display_name: h.display_name.clone(),
            color_index: color,
            stage_order: copy_bytes(&h.stage_order),
            current_stage_index: h.current_stage_index,
        });
        i = i + 1;
    }
    assert(snapshot_ids(out@) =~= idv);
    out
}

/// Starts room `match_id` at `now_unix` when it has not started yet, dealing every player a
/// layout; returns when it started, whether this call started it, and the players.
pub fn start_match_and_snapshot_players_at(core: &mut CoreState, match_id: &String, now_unix: u64) -> (r: Result<
    (u64, bool, Vec<PlayerMatchState>),
    RoomError,
>)
    ensures
        final(core).tickets@ == old(core).tickets@,
        !old(core).matches@.contains_key(match_id@) ==> r is Err && r->Err_0 == RoomError::MatchNotFound
            && final(core).matches@ == old(core).matches@,
        old(core).matches@.contains_key(match_id@) ==> ({
            let before = old(core).matches@[match_id@];
            let after = final(core).matches@[match_id@];
            let just_started = before.started_at_unix == 0;
            &&& r is Ok
            &&& r->Ok_0.0 == if just_started { now_unix } else { before.started_at_unix }
            &&& r->Ok_0.1 == just_started
            &&& is_snapshot(r->Ok_0.2@, after.players@)
            &&& only_room_changed(old(core).matches@, final(core).matches@, match_id@)
            &&& after.started_at_unix == r->Ok_0.0
            &&& after.last_activity_unix == if just_started { now_unix } else { before.last_activity_unix }
            &&& !just_started ==> after.players == before.players
            &&& just_started ==> is_layout_dealt(before.players@, after.players@)
        }),
{
    let ghost old_matches = core.matches@;
    let mut room = match core.matches.remove(match_id) {
        Some(room) => room,
        None => {
            assert(core.matches@ =~= old_matches);
            return Err(RoomError::MatchNotFound);
        },
    };
    let just_started = room.started_at_unix == 0;
    if just_started {
        room.started_at_unix = now_unix;
        room.last_activity_unix = now_unix;
        assign_randomized_layout(&mut room);
    }
    let started_at_unix = room.started_at_unix;
    let players = snapshot_players(&room);
    core.matches.insert(match_id.clone(), room);
    assert(core.matches@.remove(match_id@) =~= old_matches.remove(match_id@));
    Ok((started_at_unix, just_started, players))
}


/// Starts room `match_id` now unless it has started; see `start_match_and_snapshot_players_at`.
pub fn start_match_and_snapshot_players(core: &mut CoreState, match_id: &String) -> (r: Result<
    (u64, bool, Vec<PlayerMatchState>),
    RoomError,
>)
    ensures
        final(core).tickets@ == old(core).tickets@,
        !old(core).matches@.contains_key(match_id@) ==> r is Err && r->Err_0 == RoomError::MatchNotFound
            && final(core).matches@ == old(core).matches@,
        old(core).matches@.contains_key(match_id@) ==> ({
            let before = old(core).matches@[match_id@];
            let after = final(core).matches@[match_id@];
            let just_started = before.started_at_unix == 0;
            &&& r is Ok
            &&& r->Ok_0.1 == just_started
            &&& !just_started ==> r->Ok_0.0 == before.started_at_unix
            &&& is_snapshot(r->Ok_0.2@, after.players@)
            &&& only_room_changed(old(core).matches@, final(core).matches@, match_id@)
            &&& after.started_at_unix == r->Ok_0.0
            &&& after.last_activity_unix == if just_started { r->Ok_0.0 } else { before.last_activity_unix }
            &&& !just_started ==> after.players == before.players
            &&& just_started ==> is_layout_dealt(before.players@, after.players@)
        }),
{
    let now = crate::clock::now_unix();
    start_match_and_snapshot_players_at(core, match_id, now)
}

} // verus!
