//! The control plane: creating, listing, inspecting, starting and deleting rooms, and issuing
//! join tickets.
use vstd::prelude::*;
use vstd::string::StringExecFns;

use crate::ids::{is_hyphenated_uuid_text, is_simple_uuid_text, prefixed_random_id, random_token};
use crate::keys::{string_views, strictly_sorted};
use crate::limits::{ROOM_MAX_PLAYERS, TOKEN_TTL_SECS};
use crate::player::{only_room_changed, RoomError};
use crate::room::{is_member_list, room_members, start_outcome, Member};
use crate::session::AppState;
use crate::state::{is_fresh_room, MatchRoom, PlayerHandle, Ticket};
use crate::table::marked_keys;
use crate::text::{is_blank, owned, trims_to_empty};
use crate::ticket::{redeem_outcome, TicketError};

verus! {

/// One player as the control plane lists it.
#[derive(Debug)]
pub struct RoomPlayer {
    pub player_id: String,
    pub display_name: String,
    pub gravity: u32,
    pub friction: u32,
    pub speed: u32,
    pub next_param_change_at_unix: u64,
}

/// `p` describes player `id` whose handle is `h`.
pub open spec fn is_room_player_of(p: RoomPlayer, id: Seq<char>, h: PlayerHandle) -> bool {
    &&& p.player_id@ == id
    &&& p.display_name@ == h.display_name@
    &&& p.gravity == h.params.gravity
    &&& p.friction == h.params.friction
    &&& p.speed == h.params.speed
    &&& p.next_param_change_at_unix == h.next_param_change_at_unix
}

/// The player ids of a player listing, in order.
pub open spec fn room_player_ids(s: Seq<RoomPlayer>) -> Seq<Seq<char>> {
    s.map_values(|p: RoomPlayer| p.player_id@)
}

/// `s` lists every player of `players` once, in ascending player-id order.
pub open spec fn is_room_player_list(s: Seq<RoomPlayer>, players: Map<Seq<char>, PlayerHandle>) -> bool {
    &&& strictly_sorted(room_player_ids(s))
    &&& room_player_ids(s).to_set() == players.dom()
    &&& forall|i: int| 0 <= i < s.len() ==> is_room_player_of(#[trigger] s[i], s[i].player_id@, players[s[i].player_id@])
}

/// Lists the players of `room` in ascending player-id order.
pub fn room_players(room: &MatchRoom) -> (players: Vec<RoomPlayer>)
    ensures
        is_room_player_list(players@, room.players@),
{
    let ids = room.players.sorted_keys();
    let ghost idv = string_views(ids@);
    let mut out: Vec<RoomPlayer> = Vec::new();
    let mut i: usize = 0;
    while i < ids.len()
        invariant
            idv == string_views(ids@),
            idv.to_set() == room.players@.dom(),
            i <= ids@.len(),
            out@.len() == i,
            forall|t: int| 0 <= t < i ==> (#[trigger] out@[t]).player_id@ == idv[t],
            forall|t: int| 0 <= t < i ==> is_room_player_of(#[trigger] out@[t], out@[t].player_id@, room.players@[out@[t].player_id@]),
        decreases ids@.len() - i,
    {
        let id = &ids[i];
        assert(idv.to_set().contains(idv[i as int]));
        let h = match room.players.get(id) {
            Some(h) => h,
            None => {
                assert(false);
                return out;
            },
        };
        out.push(RoomPlayer {
            player_id: id.clone(),
            display_name: h.display_name.clone(),
            gravity: h.params.gravity as u32,
            friction: h.params.friction as u32,
            speed: h.params.speed as u32,
            next_param_change_at_unix: h.next_param_change_at_unix,
        });
        i = i + 1;
    }
    assert(room_player_ids(out@) =~= idv);
    out
}

/// A room as the control plane lists it.
#[derive(Debug)]
pub struct RoomSummary {
    pub match_id: String,
    pub max_players: u32,
    pub players: Vec<RoomPlayer>,
    pub started_at_unix: u64,
}

/// `s` describes room `id`.
pub open spec fn is_room_summary_of(s: RoomSummary, id: Seq<char>, room: MatchRoom) -> bool {
    &&& s.match_id@ == id
    &&& s.max_players == ROOM_MAX_PLAYERS
    &&& is_room_player_list(s.players@, room.players@)
    &&& s.started_at_unix == room.started_at_unix
}

/// The match ids of a room listing, in order.
pub open spec fn summary_ids(s: Seq<RoomSummary>) -> Seq<Seq<char>> {
    s.map_values(|r: RoomSummary| r.match_id@)
}

/// `s` lists every room of `matches` once, in ascending match-id order.
pub open spec fn is_room_list(s: Seq<RoomSummary>, matches: Map<Seq<char>, MatchRoom>) -> bool {
    &&& strictly_sorted(summary_ids(s))
    &&& summary_ids(s).to_set() == matches.dom()
    &&& forall|i: int| 0 <= i < s.len() ==> is_room_summary_of(#[trigger] s[i], s[i].match_id@, matches[s[i].match_id@])
}

/// A newly created room.
#[derive(Debug)]
pub struct CreatedRoom {
    pub match_id: String,
    pub max_players: u32,
}

/// A join ticket as handed to a player.
#[derive(Debug)]
pub struct JoinTicket {
    pub match_id: String,
    pub player_id: String,
    pub token: String,
    pub token_expires_at_unix: u64,
    pub udp_url: String,
}

/// The outcome of a start request: when the room started, whether this request started it,
/// and, when it did, the players to tell.
#[derive(Debug)]
pub struct StartedRoom {
    pub match_id: String,
    pub started_at_unix: u64,
    pub just_started: bool,
    pub notify: Vec<Member>,
}

/// The display name a ticket records for the requested one: `player` when it is blank.
pub open spec fn effective_display_name(requested: Seq<char>) -> Seq<char> {
    if is_blank(requested) { "player"@ } else { requested }
}

/// A requested display name is kept whenever it has a visible character: any printable ASCII
/// character, or any character above U+3000 (kana, kanji, and everything beyond), makes it no
/// blank name, so the ticket records it unchanged.
pub proof fn lemma_visible_name_is_kept(requested: Seq<char>, i: int)
    requires
        0 <= i < requested.len(),
        requested[i] as u32 > 0x3000 || (0x21 <= requested[i] as u32 && requested[i] as u32 <= 0x7e),
    ensures
        effective_display_name(requested) == requested,
{
    crate::text::lemma_white_space_code_points(requested[i] as u32);
    assert(!crate::text::is_white_space(requested[i]));
}

/// The tickets left when those of room `match_id` are withdrawn.
pub open spec fn tickets_without_room(tickets: Map<Seq<char>, Ticket>, match_id: Seq<char>) -> Map<Seq<char>, Ticket> {
    tickets.restrict(tickets.dom().filter(|k: Seq<char>| tickets[k].match_id@ != match_id))
}

/// A ticket is read back as it was written: redeemed within its lifetime, a ticket issued at
/// `issued_at` for `player_id` of room `match_id` under `display_name` gives back that room,
/// that player and the display name the ticket records; redeemed later, it is refused as
/// expired.
pub proof fn lemma_issued_ticket_redeems(
    tickets: Map<Seq<char>, Ticket>,
    token: Seq<char>,
    match_id: Seq<char>,
    player_id: Seq<char>,
    display_name: Seq<char>,
    issued_at: u64,
    now_unix: u64,
    r: Result<(String, String, String), TicketError>,
)
    requires
        tickets.contains_key(token),
        tickets[token].match_id@ == match_id,
        tickets[token].player_id@ == player_id,
        tickets[token].display_name@ == effective_display_name(display_name),
        tickets[token].expires_at_unix == issued_at + TOKEN_TTL_SECS,
    ensures
        now_unix <= issued_at + TOKEN_TTL_SECS ==> (redeem_outcome(tickets, token, now_unix, r) <==> {
            &&& r is Ok
            &&& r->Ok_0.0@ == match_id
            &&& r->Ok_0.1@ == player_id
            &&& r->Ok_0.2@ == effective_display_name(display_name)
        }),
        now_unix > issued_at + TOKEN_TTL_SECS ==> (redeem_outcome(tickets, token, now_unix, r) <==> r == Err::<
            (String, String, String),
            TicketError,
        >(TicketError::TokenExpired)),
{
}

/// What issuing a ticket for room `match_id` answers when the clock reads `now_unix`, given the
/// rooms before: for a room with space, a clock too late to add the ticket lifetime refuses,
/// and any other reading issues a ticket that expires the lifetime after it.
pub open spec fn clocked_ticket_issue(
    rooms: Map<Seq<char>, MatchRoom>,
    match_id: Seq<char>,
    now_unix: u64,
    r: Result<JoinTicket, RoomError>,
) -> bool {
    rooms.contains_key(match_id) && rooms[match_id].players@.len() < ROOM_MAX_PLAYERS ==> {
        &&& now_unix > u64::MAX - TOKEN_TTL_SECS ==> r == Err::<JoinTicket, RoomError>(RoomError::ClockOutOfRange)
        &&& now_unix <= u64::MAX - TOKEN_TTL_SECS ==> r is Ok && r->Ok_0.token_expires_at_unix == now_unix
            + TOKEN_TTL_SECS
    }
}

/// A start answer as the start time and whether this start began the match.
pub open spec fn started_pair(r: Result<StartedRoom, RoomError>) -> Result<(u64, bool), RoomError> {
    match r {
        Ok(s) => Ok((s.started_at_unix, s.just_started)),
        Err(e) => Err(e),
    }
}

/// The HTTP status that answers a refused control request: 404 for a missing room, 409 for
/// a full one, 502 otherwise.
pub open spec fn spec_error_status(e: RoomError) -> u16 {
    match e {
        RoomError::MatchNotFound => 404,
        RoomError::MatchFull => 409,
        _ => 502,
    }
}

/// Returns the HTTP status that answers a refused control request.
pub fn error_status(e: RoomError) -> (status: u16)
    ensures
        status == spec_error_status(e),
{
    match e {
        RoomError::MatchNotFound => 404,
        RoomError::MatchFull => 409,
        _ => 502,
    }
}

/// The error text that answers a refused control request: the error's own text for a
/// missing or full room, else that text after `control_plane_error:`.
pub open spec fn spec_error_body(e: RoomError) -> Seq<char> {
    if spec_error_status(e) == 502 {
        "control_plane_error:"@ + e.spec_message()
    } else {
        e.spec_message()
    }
}

/// Returns the error text that answers a refused control request.
pub fn error_body(e: RoomError) -> (text: String)
    ensures
        text@ == spec_error_body(e),
{
    if error_status(e) == 502 {
        owned("control_plane_error:").concat(e.message().as_str())
    } else {
        e.message()
    }
}

impl AppState {
    /// Creates an empty lobby room `match_id` whose last activity is `now_unix`.
    pub fn create_room_with_id(&mut self, match_id: String, now_unix: u64) -> (r: CreatedRoom)
        ensures
            r.match_id@ == match_id@,
            r.max_players == ROOM_MAX_PLAYERS,
            final(self).core.matches@.contains_key(match_id@),
            is_fresh_room(final(self).core.matches@[match_id@], now_unix),
            final(self).core.matches@.remove(match_id@) == old(self).core.matches@.remove(match_id@),
            final(self).core.tickets@ == old(self).core.tickets@,
            final(self).clients@ == old(self).clients@,
            final(self).udp_public_url == old(self).udp_public_url,
    {
        let ghost old_matches = self.core.matches@;
        self.core.matches.insert(match_id.clone(), MatchRoom::with_activity(now_unix));
        assert(self.core.matches@.remove(match_id@) =~= old_matches.remove(match_id@));
        CreatedRoom { match_id, max_players: ROOM_MAX_PLAYERS as u32 }
    }

    /// Creates an empty lobby room under a fresh id `m_` followed by 32 hexadecimal digits.
    pub fn create_room(&mut self) -> (r: CreatedRoom)
        ensures
            r.match_id@.len() == 34,
            r.match_id@.subrange(0, 2) == "m_"@,
            is_simple_uuid_text(r.match_id@.subrange(2, 34)),
            r.max_players == ROOM_MAX_PLAYERS,
            final(self).core.matches@.contains_key(r.match_id@),
            final(self).core.matches@[r.match_id@].players@ == Map::<Seq<char>, PlayerHandle>::empty(),
            final(self).core.matches@[r.match_id@].started_at_unix == 0,
            exists|now_unix: u64|
                #![trigger is_fresh_room(final(self).core.matches@[r.match_id@], now_unix)]
                is_fresh_room(final(self).core.matches@[r.match_id@], now_unix),
            final(self).core.matches@.remove(r.match_id@) == old(self).core.matches@.remove(r.match_id@),
            final(self).core.tickets@ == old(self).core.tickets@,
            final(self).clients@ == old(self).clients@,
            final(self).udp_public_url == old(self).udp_public_url,
    {
        proof {
            reveal_strlit("m_");
        }
        let match_id = prefixed_random_id("m_");
        let now = crate::clock::now_unix();
        let r = self.create_room_with_id(match_id, now);
        assert(is_fresh_room(self.core.matches@[r.match_id@], now));
        r
    }

    /// Lists every room, in ascending match-id order, each with its players in ascending
    /// player-id order.
    pub fn list_rooms(&self) -> (rooms: Vec<RoomSummary>)
        ensures
            is_room_list(rooms@, self.core.matches@),
    {
        let ids = self.core.matches.sorted_keys();
        let ghost idv = string_views(ids@);
        let mut out: Vec<RoomSummary> = Vec::new();
        let mut i: usize = 0;
        while i < ids.len()
            invariant
                idv == string_views(ids@),
                idv.to_set() == self.core.matches@.dom(),
                i <= ids@.len(),
                out@.len() == i,
                forall|t: int| 0 <= t < i ==> (#[trigger] out@[t]).match_id@ == idv[t],
                forall|t: int| 0 <= t < i ==> is_room_summary_of(#[trigger] out@[t], out@[t].match_id@, self.core.matches@[out@[t].match_id@]),
            decreases ids@.len() - i,
        {
            let id = &ids[i];
            assert(idv.to_set().contains(idv[i as int]));
            let room = match self.core.matches.get(id) {
                Some(r) => r,
                None => {
                    assert(false);
                    return out;
                },
            };
            out.push(RoomSummary {
                match_id: id.clone(),
                max_players: ROOM_MAX_PLAYERS as u32,
                players: room_players(room),
                started_at_unix: room.started_at_unix,
            });
            i = i + 1;
        }
        assert(summary_ids(out@) =~= idv);
        out
    }

    /// Issues ticket `token` for a new player `player_id` of room `match_id`, valid until
    /// `now_unix` plus the ticket lifetime; a missing or full room refuses.
    pub fn issue_join_ticket_at(
        &mut self,
        match_id: &String,
        display_name: String,
        player_id: String,
        token: String,
        now_unix: u64,
    ) -> (r: Result<JoinTicket, RoomError>)
        requires
            now_unix + TOKEN_TTL_SECS <= u64::MAX,
        ensures
            final(self).core.matches@ == old(self).core.matches@,
            final(self).clients@ == old(self).clients@,
            final(self).udp_public_url == old(self).udp_public_url,
            !old(self).core.matches@.contains_key(match_id@) ==> r == Err::<JoinTicket, RoomError>(RoomError::MatchNotFound),
            old(self).core.matches@.contains_key(match_id@)
                && old(self).core.matches@[match_id@].players@.len() >= ROOM_MAX_PLAYERS
                ==> r == Err::<JoinTicket, RoomError>(RoomError::MatchFull),
            r is Ok <==> old(self).core.matches@.contains_key(match_id@)
                && old(self).core.matches@[match_id@].players@.len() < ROOM_MAX_PLAYERS,
            r is Err ==> final(self).core.tickets@ == old(self).core.tickets@,
            r is Ok ==> ({
                let t = r->Ok_0;
                let stored = final(self).core.tickets@[token@];
                &&& old(self).core.matches@.contains_key(match_id@)
                &&& old(self).core.matches@[match_id@].players@.len() < ROOM_MAX_PLAYERS
                &&& t.match_id@ == match_id@
                &&& t.player_id@ == player_id@
                &&& t.token@ == token@
                &&& t.token_expires_at_unix == now_unix + TOKEN_TTL_SECS
                &&& t.udp_url@ == old(self).udp_public_url@
                &&& final(self).core.tickets@.contains_key(token@)
                &&& final(self).core.tickets@.remove(token@) == old(self).core.tickets@.remove(token@)
                &&& stored.match_id@ == match_id@
                &&& stored.player_id@ == player_id@
                &&& stored.display_name@ == effective_display_name(display_name@)
                &&& stored.expires_at_unix == now_unix + TOKEN_TTL_SECS
            }),
    {
        let blank = trims_to_empty(display_name.as_str());
        let name = if blank {
            owned("player")
        } else {
            display_name
        };
        proof {
            reveal_strlit("player");
        }
        match self.core.matches.get(match_id) {
            Some(room) => {
                if room.players.len() >= ROOM_MAX_PLAYERS {
                    return Err(RoomError::MatchFull);
                }
            },
            None => return Err(RoomError::MatchNotFound),
        }
        let expires = now_unix + TOKEN_TTL_SECS;
        let ghost old_tickets = self.core.tickets@;
        self.core.tickets.insert(
            token.clone(),
            Ticket {
                match_id: match_id.clone(),
                player_id: player_id.clone(),
                display_name: name,
                expires_at_unix: expires,
            },
        );
        assert(self.core.tickets@.remove(token@) =~= old_tickets.remove(token@));
        Ok(JoinTicket {
            match_id: match_id.clone(),
            player_id,
            token,
            token_expires_at_unix: expires,
            udp_url: self.udp_public_url.clone(),
        })
    }

    /// Issues a join ticket for a new player of room `match_id` under a fresh player id
    /// (`p_` followed by 32 hexadecimal digits) and a fresh hyphenated token; see
    /// `issue_join_ticket_at`. A clock too late to add the ticket lifetime refuses.
    pub fn issue_join_ticket(&mut self, match_id: &String, display_name: String) -> (r: Result<
        JoinTicket,
        RoomError,
    >)
        ensures
            final(self).core.matches@ == old(self).core.matches@,
            final(self).clients@ == old(self).clients@,
            final(self).udp_public_url == old(self).udp_public_url,
            !old(self).core.matches@.contains_key(match_id@) ==> r == Err::<JoinTicket, RoomError>(RoomError::MatchNotFound),
            old(self).core.matches@.contains_key(match_id@)
                && old(self).core.matches@[match_id@].players@.len() >= ROOM_MAX_PLAYERS
                ==> r == Err::<JoinTicket, RoomError>(RoomError::MatchFull),
            r is Err ==> final(self).core.tickets@ == old(self).core.tickets@,
            r is Err ==> r->Err_0 == RoomError::MatchNotFound || r->Err_0 == RoomError::MatchFull
                || r->Err_0 == RoomError::ClockOutOfRange,
            r is Err && r->Err_0 == RoomError::MatchNotFound ==> !old(self).core.matches@.contains_key(match_id@),
            r is Err && r->Err_0 == RoomError::MatchFull ==> old(self).core.matches@.contains_key(match_id@)
                && old(self).core.matches@[match_id@].players@.len() >= ROOM_MAX_PLAYERS,
            r is Ok ==> ({
                let t = r->Ok_0;
                let stored = final(self).core.tickets@[t.token@];
                &&& old(self).core.matches@.contains_key(match_id@)
                &&& old(self).core.matches@[match_id@].players@.len() < ROOM_MAX_PLAYERS
                &&& t.match_id@ == match_id@
                &&& t.player_id@.len() == 34
                &&& t.player_id@.subrange(0, 2) == "p_"@
                &&& is_simple_uuid_text(t.player_id@.subrange(2, 34))
                &&& is_hyphenated_uuid_text(t.token@)
                &&& t.udp_url@ == old(self).udp_public_url@
                &&& final(self).core.tickets@.contains_key(t.token@)
                &&& final(self).core.tickets@.remove(t.token@) == old(self).core.tickets@.remove(t.token@)
                &&& stored.match_id@ == match_id@
                &&& stored.player_id@ == t.player_id@
                &&& stored.display_name@ == effective_display_name(display_name@)
                &&& stored.expires_at_unix == t.token_expires_at_unix
                &&& t.token_expires_at_unix >= TOKEN_TTL_SECS
            }),
            exists|now_unix: u64|
                #![trigger clocked_ticket_issue(old(self).core.matches@, match_id@, now_unix, r)]
                clocked_ticket_issue(old(self).core.matches@, match_id@, now_unix, r),
    {
        proof {
            reveal_strlit("p_");
        }
        let player_id = prefixed_random_id("p_");
        let token = random_token();
        let now = crate::clock::now_unix();
        if now > u64::MAX - TOKEN_TTL_SECS {
            match self.core.matches.get(match_id) {
                Some(room) => {
                    if room.players.len() >= ROOM_MAX_PLAYERS {
                        assert(clocked_ticket_issue(self.core.matches@, match_id@, now, Err(RoomError::MatchFull)));
                        return Err(RoomError::MatchFull);
                    }
                },
                None => {
                    assert(clocked_ticket_issue(self.core.matches@, match_id@, now, Err(RoomError::MatchNotFound)));
                    return Err(RoomError::MatchNotFound);
                },
            }
            assert(clocked_ticket_issue(self.core.matches@, match_id@, now, Err(RoomError::ClockOutOfRange)));
            return Err(RoomError::ClockOutOfRange);
        }
        let ghost rooms = self.core.matches@;
        let r = self.issue_join_ticket_at(match_id, display_name, player_id, token, now);
        assert(clocked_ticket_issue(rooms, match_id@, now, r));
        r
    }

    /// Describes room `match_id`.
    pub fn get_room(&self, match_id: &String) -> (r: Result<RoomSummary, RoomError>)
        ensures
            !self.core.matches@.contains_key(match_id@) ==> r == Err::<RoomSummary, RoomError>(RoomError::MatchNotFound),
            self.core.matches@.contains_key(match_id@) ==> r is Ok && is_room_summary_of(
                r->Ok_0,
                match_id@,
                self.core.matches@[match_id@],
            ),
    {
        match self.core.matches.get(match_id) {
            Some(room) => Ok(RoomSummary {
                match_id: match_id.clone(),
                max_players: ROOM_MAX_PLAYERS as u32,
                players: room_players(room),
                started_at_unix: room.started_at_unix,
            }),
            None => Err(RoomError::MatchNotFound),
        }
    }

    /// Starts room `match_id` at `now_unix` unless it has started already; when this call
    /// starts it, its reachable players are to be told.
    pub fn start_room_at(&mut self, match_id: &String, now_unix: u64) -> (r: Result<StartedRoom, RoomError>)
        ensures
            final(self).core.tickets@ == old(self).core.tickets@,
            final(self).clients@ == old(self).clients@,
            final(self).udp_public_url == old(self).udp_public_url,
            !old(self).core.matches@.contains_key(match_id@) ==> r is Err && r->Err_0 == RoomError::MatchNotFound
                && final(self).core.matches@ == old(self).core.matches@,
            old(self).core.matches@.contains_key(match_id@) ==> ({
                let before = old(self).core.matches@[match_id@];
                let after = final(self).core.matches@[match_id@];
                let just_started = before.started_at_unix == 0;
                &&& r is Ok
                &&& r->Ok_0.match_id@ == match_id@
                &&& r->Ok_0.just_started == just_started
                &&& r->Ok_0.started_at_unix == if just_started { now_unix } else { before.started_at_unix }
                &&& just_started ==> is_member_list(r->Ok_0.notify@, after.players@)
                &&& !just_started ==> r->Ok_0.notify@.len() == 0
                &&& only_room_changed(old(self).core.matches@, final(self).core.matches@, match_id@)
                &&& after.players == before.players
                &&& after.last_activity_unix == before.last_activity_unix
                &&& after.started_at_unix == r->Ok_0.started_at_unix
            }),
    {
        let (started_at_unix, just_started) = match crate::room::start_room_at(&mut self.core, match_id, now_unix) {
            Ok(v) => v,
            Err(e) => return Err(e),
        };
        let notify = if just_started {
            match self.core.matches.get(match_id) {
                Some(room) => room_members(room),
                None => Vec::new(),
            }
        } else {
            Vec::new()
        };
        Ok(StartedRoom { match_id: match_id.clone(), started_at_unix, just_started, notify })
    }

    /// Starts room `match_id` now; see `start_room_at`.
    pub fn start_room(&mut self, match_id: &String) -> (r: Result<StartedRoom, RoomError>)
        ensures
            final(self).core.tickets@ == old(self).core.tickets@,
            final(self).clients@ == old(self).clients@,
            !old(self).core.matches@.contains_key(match_id@) ==> r is Err && r->Err_0 == RoomError::MatchNotFound
                && final(self).core.matches@ == old(self).core.matches@,
            old(self).core.matches@.contains_key(match_id@) ==> ({
                let before = old(self).core.matches@[match_id@];
                let after = final(self).core.matches@[match_id@];
                let just_started = before.started_at_unix == 0;
                &&& r is Ok
                &&& r->Ok_0.match_id@ == match_id@
                &&& r->Ok_0.just_started == just_started
                &&& !just_started ==> r->Ok_0.started_at_unix == before.started_at_unix
                &&& just_started ==> is_member_list(r->Ok_0.notify@, after.players@)
                &&& !just_started ==> r->Ok_0.notify@.len() == 0
                &&& only_room_changed(old(self).core.matches@, final(self).core.matches@, match_id@)
                &&& after.players == before.players
                &&& after.last_activity_unix == before.last_activity_unix
                &&& after.started_at_unix == r->Ok_0.started_at_unix
            }),
            exists|now_unix: u64|
                #![trigger start_outcome(old(self).core.matches@, final(self).core.matches@, match_id@, now_unix, started_pair(r))]
                start_outcome(old(self).core.matches@, final(self).core.matches@, match_id@, now_unix, started_pair(r)),
    {
        let ghost rooms = self.core.matches@;
        let now = crate::clock::now_unix();
        let r = self.start_room_at(match_id, now);
        assert(start_outcome(rooms, self.core.matches@, match_id@, now, started_pair(r)));
        r
    }

    /// Deletes room `match_id` and every ticket issued for it.
    pub fn delete_room(&mut self, match_id: &String) -> (r: Result<(), RoomError>)
        ensures
            final(self).clients@ == old(self).clients@,
            final(self).udp_public_url == old(self).udp_public_url,
            !old(self).core.matches@.contains_key(match_id@) ==> r == Err::<(), RoomError>(RoomError::MatchNotFound)
                && final(self).core.matches@ == old(self).core.matches@
                && final(self).core.tickets@ == old(self).core.tickets@,
            old(self).core.matches@.contains_key(match_id@) ==> r is Ok
                && final(self).core.matches@ == old(self).core.matches@.remove(match_id@)
                && final(self).core.tickets@ == tickets_without_room(old(self).core.tickets@, match_id@),
    {
        if self.core.matches.remove(match_id).is_none() {
            return Err(RoomError::MatchNotFound);
        }
        let ghost old_tickets = self.core.tickets@;
        proof {
            use_type_invariant(&self.core.tickets);
            self.core.tickets.lemma_storage();
        }
        let m = self.core.tickets.len();
        let mut keep: Vec<bool> = Vec::new();
        let mut j: usize = 0;
        while j < m
            invariant
                m == self.core.tickets.key_seq().len(),
                self.core.tickets@ == old_tickets,
                forall|k: Seq<char>| #[trigger] old_tickets.contains_key(k) <==> self.core.tickets.key_seq().contains(k),
                forall|t: int| 0 <= t < m ==> #[trigger] old_tickets[self.core.tickets.key_seq()[t]] == self.core.tickets.val_seq()[t],
                j <= m,
                keep@.len() == j,
                forall|t: int| 0 <= t < j ==> #[trigger] keep@[t] == (old_tickets[self.core.tickets.key_seq()[t]].match_id@ != match_id@),
            decreases m - j,
        {
            let ticket = self.core.tickets.value_at(j);
            proof {
                assert(old_tickets[self.core.tickets.key_seq()[j as int]] == *ticket);
            }
            keep.push(!(ticket.match_id == *match_id));
            j = j + 1;
        }
        let ghost ticket_keys = self.core.tickets.key_seq();
        self.core.tickets.retain_marked(&keep);
        proof {
            let keep_set = old_tickets.dom().filter(|k: Seq<char>| old_tickets[k].match_id@ != match_id@);
            assert(marked_keys(ticket_keys, keep@) =~= keep_set) by {
                assert forall|k: Seq<char>| #[trigger] marked_keys(ticket_keys, keep@).contains(k) <==> keep_set.contains(k) by {
                    if marked_keys(ticket_keys, keep@).contains(k) {
                        let t = choose|t: int| 0 <= t < ticket_keys.len() && ticket_keys[t] == k && (t >= ticket_keys.len() || keep@[t]);
                        assert(ticket_keys.contains(k));
                    }
                    if keep_set.contains(k) {
                        let t = choose|t: int| 0 <= t < ticket_keys.len() && ticket_keys[t] == k;
                        assert(keep@[t]);
                    }
                }
            }
        }
        Ok(())
    }
}

} // verus!
