//! The realtime UDP side: which address has joined as which player, and the decisions taken
//! on each client message.
use vstd::prelude::*;

use crate::limits::PARAM_CHANGE_COOLDOWN_SECS;
use crate::params::{param_change_result, ParamDirection, ParamKind, PlayerParams};
use crate::player::{
    only_room_changed, register_outcome, register_player_udp_at, remove_player_at, room_is_full_for, RoomError,
};
use crate::room::{
    accepted_for, change_accepted_now, datagram_recipients, is_member_list, is_recipient_list, param_update_fits, reliable_recipients,
    update_player_params_at, Member, Recipient,
};
use crate::state::{CoreState, PeerAddr};
use crate::text::owned;
use crate::ticket::{consume_ticket_at, TicketError};

verus! {

/// A joined client: its address and the room and player it joined as.
pub struct ClientSession {
    pub addr: PeerAddr,
    pub match_id: String,
    pub player_id: String,
}

/// The joined clients, at most one per address.
pub struct ClientRegistry {
    sessions: Vec<ClientSession>,
}

proof fn lemma_addr_index_unique(s: Seq<PeerAddr>, i: int)
    requires
        s.no_duplicates(),
        0 <= i < s.len(),
    ensures
        s.index_of(s[i]) == i,
{
    assert(s.contains(s[i]));
}

impl ClientRegistry {
    /// No address occurs twice.
    #[verifier::type_invariant]
    pub closed spec fn inv(self) -> bool {
        self.addr_seq().no_duplicates()
    }

    /// The addresses, in storage order.
    pub closed spec fn addr_seq(self) -> Seq<PeerAddr> {
        self.sessions@.map_values(|c: ClientSession| c.addr)
    }

    /// Each address's match id and player id.
    pub closed spec fn as_map(self) -> Map<PeerAddr, (Seq<char>, Seq<char>)> {
        Map::new(
            |a: PeerAddr| self.addr_seq().contains(a),
            |a: PeerAddr| {
                let c = self.sessions@[self.addr_seq().index_of(a)];
                (c.match_id@, c.player_id@)
            },
        )
    }

    proof fn lemma_storage(self)
        requires
            self.inv(),
        ensures
            forall|i: int|
                0 <= i < self.sessions@.len() ==> #[trigger] self@[self.sessions@[i].addr] == (
                    self.sessions@[i].match_id@,
                    self.sessions@[i].player_id@,
                ),
            forall|a: PeerAddr| #[trigger] self@.contains_key(a) <==> self.addr_seq().contains(a),
    {
        assert forall|i: int|
            0 <= i < self.sessions@.len() implies #[trigger] self@[self.sessions@[i].addr] == (
                self.sessions@[i].match_id@,
                self.sessions@[i].player_id@,
            ) by {
            assert(self.addr_seq()[i] == self.sessions@[i].addr);
            lemma_addr_index_unique(self.addr_seq(), i);
        }
    }

    /// Returns a registry with no clients.
    pub fn new() -> (r: ClientRegistry)
        ensures
            r@ == Map::<PeerAddr, (Seq<char>, Seq<char>)>::empty(),
    {
        let r = ClientRegistry { sessions: Vec::new() };
        assert(r.as_map() =~= Map::<PeerAddr, (Seq<char>, Seq<char>)>::empty());
        r
    }

    fn find(&self, addr: PeerAddr) -> (r: Option<usize>)
        ensures
            r matches Some(i) ==> i < self.sessions@.len() && self.sessions@[i as int].addr == addr
                && self.addr_seq()[i as int] == addr && self.addr_seq().contains(addr),
            r is None ==> !self.addr_seq().contains(addr),
    {
        let mut i: usize = 0;
        while i < self.sessions.len()
            invariant
                i <= self.sessions@.len(),
                forall|j: int| 0 <= j < i ==> self.addr_seq()[j] != addr,
            decreases self.sessions@.len() - i,
        {
            if self.sessions[i].addr == addr {
                return Some(i);
            }
            i = i + 1;
        }
        None
    }

    /// Returns whether `addr` has joined.
    pub fn contains(&self, addr: PeerAddr) -> (b: bool)
        ensures
            b == self@.contains_key(addr),
    {
        proof {
            use_type_invariant(self);
            self.lemma_storage();
        }
        self.find(addr).is_some()
    }

    /// Returns the match id and player id `addr` joined as, if it has joined.
    pub fn lookup(&self, addr: PeerAddr) -> (r: Option<(String, String)>)
        ensures
            !self@.contains_key(addr) ==> r is None,
            self@.contains_key(addr) ==> r is Some && (r->Some_0.0@, r->Some_0.1@) == self@[addr],
    {
        proof {
            use_type_invariant(self);
            self.lemma_storage();
        }
        match self.find(addr) {
            Some(i) => {
                let c = &self.sessions[i];
                Some((c.match_id.clone(), c.player_id.clone()))
            },
            None => None,
        }
    }

    /// Records that `addr` joined as `player_id` of `match_id`.
    pub fn add(&mut self, addr: PeerAddr, match_id: String, player_id: String)
        requires
            !old(self)@.contains_key(addr),
        ensures
            final(self)@ == old(self)@.insert(addr, (match_id@, player_id@)),
    {
        proof {
            use_type_invariant(&*self);
            self.lemma_storage();
        }
        let ghost old_map = self@;
        let ghost old_addrs = self.addr_seq();
        let ghost entry = (match_id@, player_id@);
        let mut taken = ClientRegistry { sessions: Vec::new() };
        std::mem::swap(&mut taken, self);
        let ClientRegistry { mut sessions } = taken;
        let ghost old_sessions = sessions@;
        sessions.push(ClientSession { addr, match_id, player_id });
        proof {
            assert(sessions@.map_values(|c: ClientSession| c.addr) =~= old_addrs.push(addr));
        }
        let rebuilt = ClientRegistry { sessions };
        proof {
            rebuilt.lemma_storage();
            assert forall|a: PeerAddr| #[trigger] rebuilt@.contains_key(a) <==> old_map.insert(addr, entry).contains_key(a) by {
                if old_addrs.contains(a) {
                    let j = choose|j: int| 0 <= j < old_addrs.len() && old_addrs[j] == a;
                    assert(rebuilt.addr_seq()[j] == a);
                }
                if a == addr {
                    assert(rebuilt.addr_seq()[old_addrs.len() as int] == a);
                }
            }
            assert forall|a: PeerAddr| #[trigger] rebuilt@.contains_key(a) implies rebuilt@[a] == old_map.insert(addr, entry)[a] by {
                let j = choose|j: int| 0 <= j < rebuilt.addr_seq().len() && rebuilt.addr_seq()[j] == a;
                assert(rebuilt@[rebuilt.sessions@[j].addr] == (rebuilt.sessions@[j].match_id@, rebuilt.sessions@[j].player_id@));
                if j < old_addrs.len() {
                    assert(old_map[old_sessions[j].addr] == (old_sessions[j].match_id@, old_sessions[j].player_id@));
                }
            }
            assert(rebuilt@ =~= old_map.insert(addr, entry));
        }
        *self = rebuilt;
    }

    /// Forgets `addr` and returns the match id and player id it had joined as, if any.
    pub fn remove(&mut self, addr: PeerAddr) -> (r: Option<(String, String)>)
        ensures
            final(self)@ == old(self)@.remove(addr),
            !old(self)@.contains_key(addr) ==> r is None,
            old(self)@.contains_key(addr) ==> r is Some && (r->Some_0.0@, r->Some_0.1@) == old(self)@[addr],
    {
        proof {
            use_type_invariant(&*self);
            self.lemma_storage();
        }
        let ghost old_map = self@;
        let ghost old_addrs = self.addr_seq();
        let i = match self.find(addr) {
            Some(i) => i,
            None => {
                assert(self@.remove(addr) =~= self@);
                return None;
            },
        };
        let mut taken = ClientRegistry { sessions: Vec::new() };
        std::mem::swap(&mut taken, self);
        let ClientRegistry { mut sessions } = taken;
        let ghost old_sessions = sessions@;
        let c = sessions.remove(i);
        proof {
            assert(sessions@.map_values(|c: ClientSession| c.addr) =~= old_addrs.remove(i as int));
            let ghost now_addrs = sessions@.map_values(|c: ClientSession| c.addr);
            assert forall|a: int, b: int| 0 <= a < b < sessions@.len() implies
                #[trigger] now_addrs[a] != #[trigger] now_addrs[b] by {
                let oa = if a < i { a } else { a + 1 };
                let ob = if b < i { b } else { b + 1 };
                assert(sessions@.map_values(|c: ClientSession| c.addr)[a] == old_addrs[oa]);
                assert(sessions@.map_values(|c: ClientSession| c.addr)[b] == old_addrs[ob]);
            }
        }
        let rebuilt = ClientRegistry { sessions };
        proof {
            rebuilt.lemma_storage();
            assert(old_map[old_sessions[i as int].addr] == (old_sessions[i as int].match_id@, old_sessions[i as int].player_id@));
            assert forall|a: PeerAddr| #[trigger] rebuilt@.contains_key(a) <==> old_map.remove(addr).contains_key(a) by {
                if rebuilt.addr_seq().contains(a) {
                    let j = choose|j: int| 0 <= j < rebuilt.addr_seq().len() && rebuilt.addr_seq()[j] == a;
                    let oj = if j < i { j } else { j + 1 };
                    assert(old_addrs[oj] == a);
                    assert(old_addrs[i as int] == addr);
                }
                if old_addrs.contains(a) && a != addr {
                    let j = choose|j: int| 0 <= j < old_addrs.len() && old_addrs[j] == a;
                    if j < i {
                        assert(rebuilt.addr_seq()[j] == a);
                    } else {
                        assert(j != i);
                        assert(rebuilt.addr_seq()[j - 1] == a);
                    }
                }
            }
            assert forall|a: PeerAddr| #[trigger] rebuilt@.contains_key(a) implies rebuilt@[a] == old_map.remove(addr)[a] by {
                let j = choose|j: int| 0 <= j < rebuilt.addr_seq().len() && rebuilt.addr_seq()[j] == a;
                assert(rebuilt@[rebuilt.sessions@[j].addr] == (rebuilt.sessions@[j].match_id@, rebuilt.sessions@[j].player_id@));
                let oj = if j < i { j } else { j + 1 };
                assert(old_map[old_sessions[oj].addr] == (old_sessions[oj].match_id@, old_sessions[oj].player_id@));
            }
            assert(rebuilt@ =~= old_map.remove(addr));
        }
        *self = rebuilt;
        Some((c.match_id, c.player_id))
    }
}

impl View for ClientRegistry {
    type V = Map<PeerAddr, (Seq<char>, Seq<char>)>;

    closed spec fn view(&self) -> Map<PeerAddr, (Seq<char>, Seq<char>)> {
        self.as_map()
    }
}

/// Everything the server keeps: rooms and tickets, the public URL handed out with tickets,
/// and the joined clients.
pub struct AppState {
    pub core: CoreState,
    pub udp_public_url: String,
    pub clients: ClientRegistry,
}

impl AppState {
    /// Returns a server with no rooms, tickets or clients.
    pub fn new(udp_public_url: String) -> (st: AppState)
        ensures
            st.core.matches@ == Map::<Seq<char>, crate::state::MatchRoom>::empty(),
            st.core.tickets@ == Map::<Seq<char>, crate::state::Ticket>::empty(),
            st.udp_public_url == udp_public_url,
            st.clients@ == Map::<PeerAddr, (Seq<char>, Seq<char>)>::empty(),
    {
        AppState { core: CoreState::new(), udp_public_url, clients: ClientRegistry::new() }
    }
}


/// What a `join` message led to.
#[derive(Debug)]
pub enum JoinOutcome {
    /// This address had joined already; nothing changed.
    AlreadyJoined,
    /// The token was refused.
    AuthFailed(TicketError),
    /// The ticket was good but the room refused the player.
    JoinFailed(RoomError),
    /// The player joined.
    Joined { match_id: String, player_id: String, params: PlayerParams },
}

/// The registration answer inside a join outcome.
pub open spec fn join_registration(o: JoinOutcome) -> Result<PlayerParams, RoomError> {
    match o {
        JoinOutcome::Joined { params, .. } => Ok(params),
        JoinOutcome::JoinFailed(e) => Err(e),
        _ => Err(RoomError::MatchNotFound),
    }
}

/// What a `param_change` message led to.
#[derive(Debug)]
pub enum ParamChangeOutcome {
    /// The address has not joined; nothing changed.
    NotJoined,
    /// The change was refused; the sender is to be told why.
    Rejected(RoomError),
    /// The change was applied; every reachable player of the room is to be told.
    Applied {
        match_id: String,
        from_player_id: String,
        seq: u64,
        params: PlayerParams,
        next_param_change_at_unix: u64,
        notify: Vec<Member>,
    },
}

impl JoinOutcome {
    /// The error code and text a refused join is answered with: `auth_failed` with the ticket's
    /// refusal, `join_failed` with the room's; `None` for a join that is not refused.
    pub fn refusal(&self) -> (r: Option<(String, String)>)
        ensures
            match *self {
                JoinOutcome::AuthFailed(e) => r is Some && r->Some_0.0@ == "auth_failed"@
                    && r->Some_0.1@ == e.spec_message(),
                JoinOutcome::JoinFailed(e) => r is Some && r->Some_0.0@ == "join_failed"@
                    && r->Some_0.1@ == e.spec_message(),
                _ => r is None,
            },
    {
        match self {
            JoinOutcome::AuthFailed(e) => Some((owned("auth_failed"), e.message())),
            JoinOutcome::JoinFailed(e) => Some((owned("join_failed"), e.message())),
            _ => None,
        }
    }
}

/// The first message on a reliable stream, as far as joining goes.
#[derive(Debug)]
pub enum FirstMessage {
    /// A join with a ticket token.
    Join { token: String },
    /// Any other message.
    Other,
}

/// What joining over a reliable stream led to.
#[derive(Debug)]
pub enum StreamJoin {
    /// The first message was no join.
    NotAJoin,
    /// The token was refused.
    AuthFailed(TicketError),
    /// The ticket was good but the room refused the player.
    JoinFailed(RoomError),
    /// The player joined.
    Joined { match_id: String, player_id: String, params: PlayerParams },
}

/// The registration answer inside a stream join.
pub open spec fn stream_registration(o: StreamJoin) -> Result<PlayerParams, RoomError> {
    match o {
        StreamJoin::Joined { params, .. } => Ok(params),
        StreamJoin::JoinFailed(e) => Err(e),
        _ => Err(RoomError::MatchNotFound),
    }
}

/// What a stream join with first message `first` from `addr` at `now_unix` answers and
/// leaves, given the state before: no join changes nothing; a join redeems the ticket (used up
/// either way) and registers its player in its room.
pub open spec fn stream_join_outcome(
    before: CoreState,
    after: CoreState,
    first: FirstMessage,
    addr: PeerAddr,
    now_unix: u64,
    r: StreamJoin,
) -> bool {
    match first {
        FirstMessage::Other => r is NotAJoin && after.matches@ == before.matches@ && after.tickets@
            == before.tickets@,
        FirstMessage::Join { token } => {
            &&& after.tickets@ == before.tickets@.remove(token@)
            &&& !before.tickets@.contains_key(token@) ==> r == StreamJoin::AuthFailed(TicketError::InvalidToken)
                && after.matches@ == before.matches@
            &&& before.tickets@.contains_key(token@) && before.tickets@[token@].expires_at_unix < now_unix
                ==> r == StreamJoin::AuthFailed(TicketError::TokenExpired) && after.matches@ == before.matches@
            &&& before.tickets@.contains_key(token@) && before.tickets@[token@].expires_at_unix >= now_unix ==> {
                let t = before.tickets@[token@];
                &&& (r is Joined || r is JoinFailed)
                &&& register_outcome(before.matches@, after.matches@, t.match_id@, t.player_id@,
                    t.display_name@, addr, now_unix, stream_registration(r))
                &&& r matches StreamJoin::Joined { match_id, player_id, .. } ==> match_id@ == t.match_id@
                    && player_id@ == t.player_id@
            }
        },
    }
}

/// After a join that redeemed ticket `token`, the ticket's player stands in the ticket's room
/// under the display name the ticket recorded, reached at `addr`.
pub open spec fn joined_as_ticket_says(
    before_tickets: Map<Seq<char>, crate::state::Ticket>,
    after_rooms: Map<Seq<char>, crate::state::MatchRoom>,
    token: Seq<char>,
    addr: PeerAddr,
) -> bool {
    let t = before_tickets[token];
    &&& before_tickets.contains_key(token)
    &&& after_rooms.contains_key(t.match_id@)
    &&& after_rooms[t.match_id@].players@.contains_key(t.player_id@)
    &&& after_rooms[t.match_id@].players@[t.player_id@].display_name@ == t.display_name@
    &&& after_rooms[t.match_id@].players@[t.player_id@].connection == Some(crate::state::PlayerConnection::Udp(addr))
}

/// A stream join takes the player's name from the ticket: whenever it answers `Joined`, the
/// ticket's player stands in the ticket's room under the ticket's display name, reached at the
/// joining address.
pub proof fn lemma_stream_join_keeps_ticket_name(
    before: CoreState,
    after: CoreState,
    token: String,
    addr: PeerAddr,
    now_unix: u64,
    r: StreamJoin,
)
    requires
        stream_join_outcome(before, after, FirstMessage::Join { token }, addr, now_unix, r),
        r is Joined,
    ensures
        joined_as_ticket_says(before.tickets@, after.matches@, token@, addr),
{
}

/// Joins over a reliable stream whose first message is `first`, from `addr`, at `now_unix`:
/// the first message must be a join; its ticket is redeemed and its player registered in the
/// ticket's room.
pub fn join_stream_at(core: &mut CoreState, first: &FirstMessage, addr: PeerAddr, now_unix: u64) -> (r: StreamJoin)
    ensures
        stream_join_outcome(*old(core), *final(core), *first, addr, now_unix, r),
        r is Joined ==> match *first {
            FirstMessage::Join { token } => joined_as_ticket_says(old(core).tickets@, final(core).matches@, token@, addr),
            FirstMessage::Other => false,
        },
{
    let token = match first {
        FirstMessage::Join { token } => token,
        FirstMessage::Other => return StreamJoin::NotAJoin,
    };
    let (match_id, player_id, display_name) = match consume_ticket_at(core, token, now_unix) {
        Ok(v) => v,
        Err(e) => return StreamJoin::AuthFailed(e),
    };
    match register_player_udp_at(core, &match_id, &player_id, display_name, addr, now_unix) {
        Ok(params) => StreamJoin::Joined { match_id, player_id, params },
        Err(e) => StreamJoin::JoinFailed(e),
    }
}

/// Joins over a reliable stream now; see `join_stream_at`.
pub fn join_stream(core: &mut CoreState, first: &FirstMessage, addr: PeerAddr) -> (r: StreamJoin)
    ensures
        *first is Other ==> r is NotAJoin && final(core).matches@ == old(core).matches@
            && final(core).tickets@ == old(core).tickets@,
        first matches FirstMessage::Join { token } ==> final(core).tickets@ == old(core).tickets@.remove(token@)
            && (!old(core).tickets@.contains_key(token@) ==> r == StreamJoin::AuthFailed(TicketError::InvalidToken))
            && (old(core).tickets@.contains_key(token@) ==> ({
                let t = old(core).tickets@[token@];
                let rooms = old(core).matches@;
                &&& !rooms.contains_key(t.match_id@) ==> r == StreamJoin::AuthFailed(TicketError::TokenExpired)
                    || r == StreamJoin::JoinFailed(RoomError::MatchNotFound)
                &&& rooms.contains_key(t.match_id@) && room_is_full_for(rooms[t.match_id@], t.player_id@)
                    ==> r == StreamJoin::AuthFailed(TicketError::TokenExpired)
                    || r == StreamJoin::JoinFailed(RoomError::MatchFull)
                &&& rooms.contains_key(t.match_id@) && !room_is_full_for(rooms[t.match_id@], t.player_id@)
                    ==> r is Joined || r == StreamJoin::AuthFailed(TicketError::TokenExpired)
            })),
        r is Joined ==> match *first {
            FirstMessage::Join { token } => joined_as_ticket_says(old(core).tickets@, final(core).matches@, token@, addr),
            FirstMessage::Other => false,
        },
        exists|now_unix: u64|
            #![trigger stream_join_outcome(*old(core), *final(core), *first, addr, now_unix, r)]
            stream_join_outcome(*old(core), *final(core), *first, addr, now_unix, r),
{
    let ghost before = *core;
    let now = crate::clock::now_unix();
    let r = join_stream_at(core, first, addr, now);
    assert(stream_join_outcome(before, *core, *first, addr, now, r));
    r
}

impl StreamJoin {
    /// The error code and text a refused stream join is answered with; `None` for a join.
    pub fn refusal(&self) -> (r: Option<(String, String)>)
        ensures
            match *self {
                StreamJoin::NotAJoin => r is Some && r->Some_0.0@ == "invalid_first_message"@
                    && r->Some_0.1@ == "first reliable message must be join"@,
                StreamJoin::AuthFailed(e) => r is Some && r->Some_0.0@ == "auth_failed"@
                    && r->Some_0.1@ == e.spec_message(),
                StreamJoin::JoinFailed(e) => r is Some && r->Some_0.0@ == "join_failed"@
                    && r->Some_0.1@ == e.spec_message(),
                StreamJoin::Joined { .. } => r is None,
            },
    {
        match self {
            StreamJoin::NotAJoin => Some((owned("invalid_first_message"), owned("first reliable message must be join"))),
            StreamJoin::AuthFailed(e) => Some((owned("auth_failed"), e.message())),
            StreamJoin::JoinFailed(e) => Some((owned("join_failed"), e.message())),
            StreamJoin::Joined { .. } => None,
        }
    }
}

/// What a `param_change` (`seq`, `param`, `direction`) from `addr` at `now_unix` answers and
/// leaves, given the server before: an address that has not joined changes nothing; a joined
/// client's change is decided by `param_change_result` on its player, a refusal changes
/// nothing and an applied change is stored and goes to every player of the room.
pub open spec fn param_change_outcome(
    before: AppState,
    after: AppState,
    addr: PeerAddr,
    seq: u64,
    param: ParamKind,
    direction: ParamDirection,
    now_unix: u64,
    r: ParamChangeOutcome,
) -> bool {
    &&& after.clients@ == before.clients@
    &&& after.core.tickets@ == before.core.tickets@
    &&& after.udp_public_url == before.udp_public_url
    &&& !before.clients@.contains_key(addr) ==> r is NotJoined && after.core.matches@ == before.core.matches@
    &&& before.clients@.contains_key(addr) ==> {
        let (mid, pid) = before.clients@[addr];
        let rooms = before.core.matches@;
        &&& !rooms.contains_key(mid) ==> r == ParamChangeOutcome::Rejected(RoomError::MatchNotFound)
        &&& rooms.contains_key(mid) && !rooms[mid].players@.contains_key(pid)
            ==> r == ParamChangeOutcome::Rejected(RoomError::PlayerNotFound)
        &&& rooms.contains_key(mid) && rooms[mid].players@.contains_key(pid) ==> {
            let h = rooms[mid].players@[pid];
            let outcome = param_change_result(h.params, h.next_param_change_at_unix, param, direction, now_unix);
            &&& outcome is Err ==> r == ParamChangeOutcome::Rejected(RoomError::Param(outcome->Err_0))
            &&& outcome is Ok ==> (r matches ParamChangeOutcome::Applied {
                match_id, from_player_id, seq: s, params, next_param_change_at_unix, notify,
            } && {
                &&& match_id@ == mid
                &&& from_player_id@ == pid
                &&& s == seq
                &&& params == outcome->Ok_0.params
                &&& next_param_change_at_unix == outcome->Ok_0.next_param_change_at_unix
                &&& is_member_list(notify@, after.core.matches@[mid].players@)
                &&& after.core.matches@[mid].players@[pid].params == params
                &&& after.core.matches@[mid].players@[pid].next_param_change_at_unix
                    == next_param_change_at_unix
                &&& after.core.matches@[mid].last_activity_unix == now_unix
                &&& after.core.matches@[mid].started_at_unix == rooms[mid].started_at_unix
                &&& after.core.matches@[mid].players@.contains_key(pid)
                &&& after.core.matches@[mid].players@.remove(pid) == rooms[mid].players@.remove(pid)
                &&& after.core.matches@[mid].players@[pid].display_name == h.display_name
                &&& after.core.matches@[mid].players@[pid].color_index == h.color_index
                &&& after.core.matches@[mid].players@[pid].stage_order == h.stage_order
                &&& after.core.matches@[mid].players@[pid].current_stage_index == h.current_stage_index
                &&& after.core.matches@[mid].players@[pid].connection == h.connection
                &&& only_room_changed(rooms, after.core.matches@, mid)
            })
        }
        &&& r is Rejected ==> after.core.matches@ == rooms
    }
}

/// What a `param_change` read against the clock answers and leaves when the clock reads
/// `now_unix`: a joined client's change that would be accepted while the clock is so late that
/// a new cooldown would not fit in `u64` is refused and changes nothing; everything else is
/// `param_change_outcome`.
pub open spec fn clocked_param_change(
    before: AppState,
    after: AppState,
    addr: PeerAddr,
    seq: u64,
    param: ParamKind,
    direction: ParamDirection,
    now_unix: u64,
    r: ParamChangeOutcome,
) -> bool {
    if now_unix > u64::MAX - PARAM_CHANGE_COOLDOWN_SECS && before.clients@.contains_key(addr) && accepted_for(
        before.core.matches@,
        before.clients@[addr].0,
        before.clients@[addr].1,
        param,
        direction,
        now_unix,
    ) {
        &&& r == ParamChangeOutcome::Rejected(RoomError::ClockOutOfRange)
        &&& after.clients@ == before.clients@
        &&& after.core.tickets@ == before.core.tickets@
        &&& after.core.matches@ == before.core.matches@
        &&& after.udp_public_url == before.udp_public_url
    } else {
        param_change_outcome(before, after, addr, seq, param, direction, now_unix, r)
    }
}

impl AppState {
    /// Handles `join` with `token` from `addr` at `now_unix`: an address that has joined is
    /// ignored; otherwise the ticket is redeemed (and so used up), the player is registered in
    /// the ticket's room, and the address is recorded as that player.
    pub fn handle_join_at(&mut self, addr: PeerAddr, token: &String, now_unix: u64) -> (r: JoinOutcome)
        ensures
            final(self).udp_public_url == old(self).udp_public_url,
            r is Joined ==> joined_as_ticket_says(old(self).core.tickets@, final(self).core.matches@, token@, addr),
            old(self).clients@.contains_key(addr) ==> r is AlreadyJoined
                && final(self).core.matches@ == old(self).core.matches@
                && final(self).core.tickets@ == old(self).core.tickets@
                && final(self).clients@ == old(self).clients@,
            !old(self).clients@.contains_key(addr) ==> final(self).core.tickets@ == old(self).core.tickets@.remove(token@),
            !old(self).clients@.contains_key(addr) && !old(self).core.tickets@.contains_key(token@)
                ==> r == JoinOutcome::AuthFailed(TicketError::InvalidToken)
                && final(self).core.matches@ == old(self).core.matches@
                && final(self).clients@ == old(self).clients@,
            !old(self).clients@.contains_key(addr) && old(self).core.tickets@.contains_key(token@)
                && old(self).core.tickets@[token@].expires_at_unix < now_unix
                ==> r == JoinOutcome::AuthFailed(TicketError::TokenExpired)
                && final(self).core.matches@ == old(self).core.matches@
                && final(self).clients@ == old(self).clients@,
            !old(self).clients@.contains_key(addr) && old(self).core.tickets@.contains_key(token@)
                && old(self).core.tickets@[token@].expires_at_unix >= now_unix ==> ({
                let t = old(self).core.tickets@[token@];
                &&& (r is Joined || r is JoinFailed)
                &&& register_outcome(old(self).core.matches@, final(self).core.matches@,
                    t.match_id@, t.player_id@, t.display_name@, addr, now_unix, join_registration(r))
                &&& r is JoinFailed ==> final(self).clients@ == old(self).clients@
                &&& old(self).core.matches@.contains_key(t.match_id@)
                    && !room_is_full_for(old(self).core.matches@[t.match_id@], t.player_id@) ==> r is Joined
                &&& r matches JoinOutcome::Joined { match_id, player_id, .. } ==> {
                    &&& match_id@ == t.match_id@
                    &&& player_id@ == t.player_id@
                    &&& final(self).clients@ == old(self).clients@.insert(addr, (t.match_id@, t.player_id@))
                }
            }),
    {
        if self.clients.contains(addr) {
            return JoinOutcome::AlreadyJoined;
        }
        let (match_id, player_id, display_name) = match consume_ticket_at(&mut self.core, token, now_unix) {
            Ok(v) => v,
            Err(e) => return JoinOutcome::AuthFailed(e),
        };
        let params = match register_player_udp_at(&mut self.core, &match_id, &player_id, display_name, addr, now_unix) {
            Ok(p) => p,
            Err(e) => return JoinOutcome::JoinFailed(e),
        };
        self.clients.add(addr, match_id.clone(), player_id.clone());
        JoinOutcome::Joined { match_id, player_id, params }
    }

    /// Handles `join` with `token` from `addr` now; see `handle_join_at`.
    pub fn handle_join(&mut self, addr: PeerAddr, token: &String) -> (r: JoinOutcome)
        ensures
            old(self).clients@.contains_key(addr) ==> r is AlreadyJoined
                && final(self).core.matches@ == old(self).core.matches@
                && final(self).core.tickets@ == old(self).core.tickets@
                && final(self).clients@ == old(self).clients@,
            !old(self).clients@.contains_key(addr) ==> final(self).core.tickets@ == old(self).core.tickets@.remove(token@),
            !old(self).clients@.contains_key(addr) && !old(self).core.tickets@.contains_key(token@)
                ==> r == JoinOutcome::AuthFailed(TicketError::InvalidToken)
                && final(self).core.matches@ == old(self).core.matches@
                && final(self).clients@ == old(self).clients@,
            r is Joined ==> old(self).core.tickets@.contains_key(token@),
            r is Joined ==> joined_as_ticket_says(old(self).core.tickets@, final(self).core.matches@, token@, addr),
            !old(self).clients@.contains_key(addr) && old(self).core.tickets@.contains_key(token@) ==> ({
                let t = old(self).core.tickets@[token@];
                let rooms = old(self).core.matches@;
                &&& !rooms.contains_key(t.match_id@) ==> r == JoinOutcome::AuthFailed(TicketError::TokenExpired)
                    || r == JoinOutcome::JoinFailed(RoomError::MatchNotFound)
                &&& rooms.contains_key(t.match_id@) && room_is_full_for(rooms[t.match_id@], t.player_id@)
                    ==> r == JoinOutcome::AuthFailed(TicketError::TokenExpired)
                    || r == JoinOutcome::JoinFailed(RoomError::MatchFull)
                &&& rooms.contains_key(t.match_id@) && !room_is_full_for(rooms[t.match_id@], t.player_id@)
                    ==> r is Joined || r == JoinOutcome::AuthFailed(TicketError::TokenExpired)
            }),
            r == JoinOutcome::AuthFailed(TicketError::TokenExpired) ==> old(self).core.tickets@.contains_key(token@)
                && final(self).core.matches@ == old(self).core.matches@
                && final(self).clients@ == old(self).clients@,
            r is JoinFailed ==> old(self).core.tickets@.contains_key(token@)
                && final(self).core.matches@ == old(self).core.matches@
                && final(self).clients@ == old(self).clients@,
            r matches JoinOutcome::Joined { match_id, player_id, .. } ==> {
                &&& match_id@ == old(self).core.tickets@[token@].match_id@
                &&& player_id@ == old(self).core.tickets@[token@].player_id@
                &&& final(self).clients@ == old(self).clients@.insert(addr, (match_id@, player_id@))
            },
    {
        let now = crate::clock::now_unix();
        self.handle_join_at(addr, token, now)
    }

    /// Forgets client `addr` and removes its player from its room, marking activity at
    /// `now_unix`; nothing changes for an address that has not joined.
    pub fn remove_client_at(&mut self, addr: PeerAddr, now_unix: u64)
        ensures
            final(self).clients@ == old(self).clients@.remove(addr),
            final(self).core.tickets@ == old(self).core.tickets@,
            final(self).udp_public_url == old(self).udp_public_url,
            !old(self).clients@.contains_key(addr) ==> final(self).core.matches@ == old(self).core.matches@,
            old(self).clients@.contains_key(addr) ==> ({
                let (mid, pid) = old(self).clients@[addr];
                &&& !old(self).core.matches@.contains_key(mid) ==> final(self).core.matches@ == old(self).core.matches@
                &&& old(self).core.matches@.contains_key(mid) ==> {
                    &&& only_room_changed(old(self).core.matches@, final(self).core.matches@, mid)
                    &&& final(self).core.matches@[mid].players@ == old(self).core.matches@[mid].players@.remove(pid)
                    &&& final(self).core.matches@[mid].started_at_unix == old(self).core.matches@[mid].started_at_unix
                    &&& final(self).core.matches@[mid].last_activity_unix == now_unix
                }
            }),
    {
        if let Some((match_id, player_id)) = self.clients.remove(addr) {
            remove_player_at(&mut self.core, &match_id, &player_id, now_unix);
        }
    }

    /// Forgets client `addr` now; see `remove_client_at`.
    pub fn remove_client(&mut self, addr: PeerAddr)
        ensures
            final(self).clients@ == old(self).clients@.remove(addr),
            final(self).core.tickets@ == old(self).core.tickets@,
            !old(self).clients@.contains_key(addr) ==> final(self).core.matches@ == old(self).core.matches@,
            old(self).clients@.contains_key(addr) ==> ({
                let (mid, pid) = old(self).clients@[addr];
                &&& !old(self).core.matches@.contains_key(mid) ==> final(self).core.matches@ == old(self).core.matches@
                &&& old(self).core.matches@.contains_key(mid) ==> {
                    &&& only_room_changed(old(self).core.matches@, final(self).core.matches@, mid)
                    &&& final(self).core.matches@[mid].players@ == old(self).core.matches@[mid].players@.remove(pid)
                }
            }),
    {
        let now = crate::clock::now_unix();
        self.remove_client_at(addr, now)
    }

    /// Handles `param_change` (`seq`, `param`, `direction`) from `addr` at `now_unix`: for a
    /// joined client the change is applied to its player; an applied change goes to every
    /// reachable player of the room, a refused one back to the sender.
    pub fn handle_param_change_at(
        &mut self,
        addr: PeerAddr,
        seq: u64,
        param: ParamKind,
        direction: ParamDirection,
        now_unix: u64,
    ) -> (r: ParamChangeOutcome)
        requires
            old(self).clients@.contains_key(addr) ==> param_update_fits(
                old(self).core.matches@,
                old(self).clients@[addr].0,
                old(self).clients@[addr].1,
                param,
                direction,
                now_unix,
            ),
        ensures
            param_change_outcome(*old(self), *final(self), addr, seq, param, direction, now_unix, r),
    {
        let (match_id, player_id) = match self.clients.lookup(addr) {
            Some(v) => v,
            None => return ParamChangeOutcome::NotJoined,
        };
        let updated = match update_player_params_at(&mut self.core, &match_id, &player_id, param, direction, now_unix) {
            Ok(m) => m,
            Err(e) => return ParamChangeOutcome::Rejected(e),
        };
        let notify = match reliable_recipients(&self.core, &match_id) {
            Some(v) => v,
            None => Vec::new(),
        };
        ParamChangeOutcome::Applied {
            match_id,
            from_player_id: player_id,
            seq,
            params: updated.params,
            next_param_change_at_unix: updated.next_param_change_at_unix,
            notify,
        }
    }

    /// Handles `param_change` from `addr` now; see `handle_param_change_at`. A joined client's
    /// change that would be accepted while the clock is so late that a new cooldown would not
    /// fit in `u64` is refused.
    pub fn handle_param_change(
        &mut self,
        addr: PeerAddr,
        seq: u64,
        param: ParamKind,
        direction: ParamDirection,
    ) -> (r: ParamChangeOutcome)
        ensures
            final(self).clients@ == old(self).clients@,
            final(self).core.tickets@ == old(self).core.tickets@,
            !old(self).clients@.contains_key(addr) ==> r is NotJoined && final(self).core.matches@ == old(self).core.matches@,
            r is Rejected ==> final(self).core.matches@ == old(self).core.matches@,
            r matches ParamChangeOutcome::Applied { match_id, from_player_id, seq: s, params, next_param_change_at_unix, .. } ==> {
                &&& old(self).clients@.contains_key(addr)
                &&& (match_id@, from_player_id@) == old(self).clients@[addr]
                &&& s == seq
                &&& final(self).core.matches@[match_id@].players@[from_player_id@].params == params
                &&& final(self).core.matches@[match_id@].players@[from_player_id@].next_param_change_at_unix
                    == next_param_change_at_unix
            },
            exists|now_unix: u64|
                #![trigger clocked_param_change(*old(self), *final(self), addr, seq, param, direction, now_unix, r)]
                clocked_param_change(*old(self), *final(self), addr, seq, param, direction, now_unix, r),
    {
        let ghost before = *self;
        let now = crate::clock::now_unix();
        if now > u64::MAX - PARAM_CHANGE_COOLDOWN_SECS {
            if let Some((match_id, player_id)) = self.clients.lookup(addr) {
                if change_accepted_now(&self.core, &match_id, &player_id, param, direction, now) {
                    assert(clocked_param_change(before, *self, addr, seq, param, direction, now,
                        ParamChangeOutcome::Rejected(RoomError::ClockOutOfRange)));
                    return ParamChangeOutcome::Rejected(RoomError::ClockOutOfRange);
                }
            }
        }
        let r = self.handle_param_change_at(addr, seq, param, direction, now);
        assert(clocked_param_change(before, *self, addr, seq, param, direction, now, r));
        r
    }

    /// Decides where a position datagram from `addr` goes: `None` for an address that has not
    /// joined; otherwise the sender's player id and every other reachable player of its room
    /// (none when the room is gone).
    pub fn route_datagram(&self, addr: PeerAddr) -> (r: Option<(String, Vec<Recipient>)>)
        ensures
            !self.clients@.contains_key(addr) ==> r is None,
            self.clients@.contains_key(addr) ==> ({
                let (mid, pid) = self.clients@[addr];
                &&& r is Some
                &&& r->Some_0.0@ == pid
                &&& !self.core.matches@.contains_key(mid) ==> r->Some_0.1@.len() == 0
                &&& self.core.matches@.contains_key(mid) ==> is_recipient_list(
                    r->Some_0.1@,
                    self.core.matches@[mid].players@,
                    Some(pid),
                )
            }),
    {
        let (match_id, player_id) = match self.clients.lookup(addr) {
            Some(v) => v,
            None => return None,
        };
        let recipients = match datagram_recipients(&self.core, &match_id, &player_id) {
            Some(v) => v,
            None => Vec::new(),
        };
        Some((player_id, recipients))
    }
}

} // verus!
