//! The test clients' decisions: what to make of the server's answer to a join, which
//! datagram answers a latency probe, what each client records of the messages it receives,
//! and whether a load-test run passed.
use vstd::prelude::*;
use vstd::string::StringExecFns;

use crate::control::RoomPlayer;
use crate::keys::{lemma_is_sorted_listing, sorted_listing, string_views};
use crate::params::PlayerParams;
use crate::table::StrMap;
use crate::text::{decimal, has_prefix, owned, push_decimal, starts_with_text};

verus! {

/// A reliable message from the server, as the test clients read it.
#[derive(Debug)]
#[allow(inconsistent_fields)]
pub enum ServerNotice {
    /// The join was accepted; the parameters come along where the client reads them.
    JoinOk { player_id: String, params: Option<PlayerParams> },
    MatchStarted,
    ParamApplied { from_player_id: String, params: PlayerParams, next_param_change_at_unix: u64 },
    Error { code: String, message: String },
}

/// What a client waiting for the answer to its join does with a message.
#[derive(Debug)]
pub enum JoinStep {
    /// Not the answer yet: keep waiting.
    Wait,
    /// Joined as the expected player, with these parameters where the answer carried them.
    Joined(Option<PlayerParams>),
    /// The join went wrong; the text says how.
    Failed(String),
}

/// The text of a join answered for another player than the ticket's.
pub open spec fn unexpected_player_text(expected: Seq<char>, got: Seq<char>) -> Seq<char> {
    "joined with unexpected player_id: expected "@ + expected + " got "@ + got
}

/// The text of a join the server refused.
pub open spec fn join_failed_text(code: Seq<char>, message: Seq<char>) -> Seq<char> {
    "join failed: "@ + code + " "@ + message
}

/// Decides what a message means to a client that joined with a ticket for
/// `expected_player_id` and waits for the answer.
pub fn join_step(expected_player_id: &String, notice: &ServerNotice) -> (r: JoinStep)
    ensures
        match *notice {
            ServerNotice::JoinOk { player_id, params } => if player_id@ == expected_player_id@ {
                r matches JoinStep::Joined(p) && p == params
            } else {
                r matches JoinStep::Failed(m) && m@ == unexpected_player_text(expected_player_id@, player_id@)
            },
            ServerNotice::Error { code, message } => r matches JoinStep::Failed(m) && m@ == join_failed_text(
                code@,
                message@,
            ),
            _ => r is Wait,
        },
{
    match notice {
        ServerNotice::JoinOk { player_id, params } => {
            if *player_id == *expected_player_id {
                JoinStep::Joined(*params)
            } else {
                let m = owned("joined with unexpected player_id: expected ").concat(expected_player_id.as_str()).concat(
                    " got ",
                ).concat(player_id.as_str());
                JoinStep::Failed(m)
            }
        },
        ServerNotice::Error { code, message } => {
            let m = owned("join failed: ").concat(code.as_str()).concat(" ").concat(message.as_str());
            JoinStep::Failed(m)
        },
        _ => JoinStep::Wait,
    }
}

/// Returns whether a position datagram from `player_id` numbered `seq` is the echo of probe
/// `expected_seq` that `initiator_player_id` sent.
pub fn is_probe_echo(initiator_player_id: &String, expected_seq: u64, player_id: &String, seq: u64) -> (b: bool)
    ensures
        b == (player_id@ == initiator_player_id@ && seq == expected_seq),
{
    *player_id == *initiator_player_id && seq == expected_seq
}

/// What one test client saw during a run.
pub struct ClientStats {
    pub param_applied_count: usize,
    pub datagram_count: usize,
    /// The players whose positions reached this client.
    pub datagram_from_players: StrMap<()>,
    pub join_params: Option<PlayerParams>,
    /// The client's own parameters as the last change it made announced them.
    pub observed_param_state: Option<PlayerParams>,
    pub cooldown_error_seen: bool,
    pub next_param_change_at_unix: Option<u64>,
}

impl ClientStats {
    /// Returns the record of a client that has seen nothing yet.
    pub fn new() -> (st: ClientStats)
        ensures
            st.param_applied_count == 0,
            st.datagram_count == 0,
            st.datagram_from_players@ == Map::<Seq<char>, ()>::empty(),
            st.join_params is None,
            st.observed_param_state is None,
            !st.cooldown_error_seen,
            st.next_param_change_at_unix is None,
    {
        ClientStats {
            param_applied_count: 0,
            datagram_count: 0,
            datagram_from_players: StrMap::new(),
            join_params: None,
            observed_param_state: None,
            cooldown_error_seen: false,
            next_param_change_at_unix: None,
        }
    }
}

/// An error message that reports a running parameter cooldown.
pub open spec fn is_cooldown_refusal(code: Seq<char>, message: Seq<char>) -> bool {
    code == "param_update_failed"@ && has_prefix(message, "cooldown_active:"@)
}

/// Records a reliable message that client `own_player_id` received: every parameter change
/// is counted and the client's own is remembered; when `watch_cooldown` holds, a refusal for
/// a running cooldown is noted.
pub fn record_notice(stats: &mut ClientStats, own_player_id: &String, watch_cooldown: bool, notice: &ServerNotice)
    requires
        old(stats).param_applied_count < usize::MAX,
    ensures
        final(stats).datagram_count == old(stats).datagram_count,
        final(stats).datagram_from_players@ == old(stats).datagram_from_players@,
        final(stats).join_params == old(stats).join_params,
        match *notice {
            ServerNotice::ParamApplied { from_player_id, params, next_param_change_at_unix } => {
                &&& final(stats).param_applied_count == old(stats).param_applied_count + 1
                &&& final(stats).cooldown_error_seen == old(stats).cooldown_error_seen
                &&& from_player_id@ == own_player_id@ ==> final(stats).observed_param_state == Some(params)
                    && final(stats).next_param_change_at_unix == Some(next_param_change_at_unix)
                &&& from_player_id@ != own_player_id@ ==> final(stats).observed_param_state
                    == old(stats).observed_param_state && final(stats).next_param_change_at_unix
                    == old(stats).next_param_change_at_unix
            },
            ServerNotice::Error { code, message } => {
                &&& final(stats).param_applied_count == old(stats).param_applied_count
                &&& final(stats).observed_param_state == old(stats).observed_param_state
                &&& final(stats).next_param_change_at_unix == old(stats).next_param_change_at_unix
                &&& final(stats).cooldown_error_seen == (old(stats).cooldown_error_seen || (watch_cooldown
                    && is_cooldown_refusal(code@, message@)))
            },
            _ => {
                &&& final(stats).param_applied_count == old(stats).param_applied_count
                &&& final(stats).observed_param_state == old(stats).observed_param_state
                &&& final(stats).next_param_change_at_unix == old(stats).next_param_change_at_unix
                &&& final(stats).cooldown_error_seen == old(stats).cooldown_error_seen
            },
        },
{
    match notice {
        ServerNotice::ParamApplied { from_player_id, params, next_param_change_at_unix } => {
            stats.param_applied_count = stats.param_applied_count + 1;
            if *from_player_id == *own_player_id {
                stats.observed_param_state = Some(*params);
                stats.next_param_change_at_unix = Some(*next_param_change_at_unix);
            }
        },
        ServerNotice::Error { code, message } => {
            if watch_cooldown {
                proof {
                    reveal_strlit("param_update_failed");
                }
                let code_matches = *code == owned("param_update_failed");
                if code_matches && starts_with_text(message.as_str(), "cooldown_active:") {
                    stats.cooldown_error_seen = true;
                }
            }
        },
        _ => {},
    }
}

/// Records a position datagram from `from_player_id` that the client received.
pub fn record_datagram(stats: &mut ClientStats, from_player_id: String)
    requires
        old(stats).datagram_count < usize::MAX,
    ensures
        final(stats).datagram_count == old(stats).datagram_count + 1,
        final(stats).datagram_from_players@ == old(stats).datagram_from_players@.insert(from_player_id@, ()),
        final(stats).param_applied_count == old(stats).param_applied_count,
        final(stats).join_params == old(stats).join_params,
        final(stats).observed_param_state == old(stats).observed_param_state,
        final(stats).cooldown_error_seen == old(stats).cooldown_error_seen,
        final(stats).next_param_change_at_unix == old(stats).next_param_change_at_unix,
{
    stats.datagram_count = stats.datagram_count + 1;
    stats.datagram_from_players.insert(from_player_id, ());
}

/// The number of clients a load-test run drives.
pub const RUN_CLIENTS: usize = 4;

/// Three levels written `g/f/s`.
pub open spec fn levels_text(g: nat, f: nat, s: nat) -> Seq<char> {
    decimal(g) + "/"@ + decimal(f) + "/"@ + decimal(s)
}

fn push_levels(out: &mut String, g: u64, f: u64, s: u64)
    ensures
        final(out)@ == old(out)@ + levels_text(g as nat, f as nat, s as nat),
{
    push_decimal(out, g);
    out.append("/");
    push_decimal(out, f);
    out.append("/");
    push_decimal(out, s);
    proof {
        reveal_strlit("/");
        assert(final(out)@ =~= old(out)@ + levels_text(g as nat, f as nat, s as nat));
    }
}

/// What is wrong with what client `pid` saw, if anything: it must have joined with every
/// level at 2, seen a parameter change, and seen positions from at least two players.
pub open spec fn client_problem(pid: Seq<char>, st: ClientStats) -> Option<Seq<char>> {
    match st.join_params {
        None => Some(pid + " missing join params"@),
        Some(p) => if p.gravity != 2 || p.friction != 2 || p.speed != 2 {
            Some(pid + " expected default params 2/2/2, got "@ + levels_text(p.gravity as nat, p.friction as nat, p.speed as nat))
        } else if st.param_applied_count == 0 {
            Some(pid + " did not receive param_applied"@)
        } else if st.datagram_from_players@.len() < 2 {
            Some(pid + " received datagrams from too few players: "@ + decimal(st.datagram_from_players@.len()))
        } else {
            None
        },
    }
}

/// The problem of the first client in `keys` order that has one.
pub open spec fn first_client_problem(keys: Seq<Seq<char>>, stats: Map<Seq<char>, ClientStats>) -> Option<Seq<char>>
    decreases keys.len(),
{
    if keys.len() == 0 {
        None
    } else {
        match client_problem(keys[0], stats[keys[0]]) {
            Some(m) => Some(m),
            None => first_client_problem(keys.drop_first(), stats),
        }
    }
}

/// What is wrong with what the client that changed its parameters saw, if anything: it must
/// have been refused for the cooldown, have seen its gravity raised to 3 with the other
/// levels at 2, and have learnt when the cooldown ends.
pub open spec fn trigger_problem(stats: Map<Seq<char>, ClientStats>, trigger: Seq<char>) -> Option<Seq<char>> {
    if !stats.contains_key(trigger) {
        Some("missing trigger player stats"@)
    } else if !stats[trigger].cooldown_error_seen {
        Some("trigger player did not observe cooldown rejection"@)
    } else {
        match stats[trigger].observed_param_state {
            None => Some("trigger player missing observed param state"@),
            Some(p) => if p.gravity != 3 || p.friction != 2 || p.speed != 2 {
                Some("trigger player observed wrong param state: "@ + levels_text(p.gravity as nat, p.friction as nat, p.speed as nat))
            } else if (match stats[trigger].next_param_change_at_unix {
                Some(t) => t,
                None => 0,
            }) == 0 {
                Some("trigger player missing cooldown timestamp"@)
            } else {
                None
            },
        }
    }
}

/// The first player of the snapshot with id `id`.
pub open spec fn first_player_named(players: Seq<RoomPlayer>, id: Seq<char>) -> Option<RoomPlayer>
    decreases players.len(),
{
    if players.len() == 0 {
        None
    } else if players[0].player_id@ == id {
        Some(players[0])
    } else {
        first_player_named(players.drop_first(), id)
    }
}

/// What is wrong with the room snapshot, if anything: the player that changed its parameters
/// must be in it with gravity 3, the other levels at 2, and a cooldown end.
pub open spec fn room_problem(players: Seq<RoomPlayer>, trigger: Seq<char>) -> Option<Seq<char>> {
    match first_player_named(players, trigger) {
        None => Some("trigger player missing from room snapshot"@),
        Some(p) => if p.gravity != 3 || p.friction != 2 || p.speed != 2 {
            Some("room snapshot state mismatch: "@ + levels_text(p.gravity as nat, p.friction as nat, p.speed as nat))
        } else if p.next_param_change_at_unix == 0 {
            Some("room snapshot missing cooldown timestamp"@)
        } else {
            None
        },
    }
}

/// Why a load-test run failed, if it did: the number of clients, then each client in
/// ascending player-id order, then the client that changed its parameters, then the room
/// snapshot.
pub open spec fn run_problem(
    stats: Map<Seq<char>, ClientStats>,
    trigger: Seq<char>,
    players: Seq<RoomPlayer>,
) -> Option<Seq<char>> {
    if stats.len() != RUN_CLIENTS {
        Some("expected 4 clients in stats, got "@ + decimal(stats.len()))
    } else {
        match first_client_problem(sorted_listing(stats.dom()), stats) {
            Some(m) => Some(m),
            None => match trigger_problem(stats, trigger) {
                Some(m) => Some(m),
                None => room_problem(players, trigger),
            },
        }
    }
}

fn client_problem_text(pid: &String, st: &ClientStats) -> (r: Option<String>)
    ensures
        match r {
            Some(m) => client_problem(pid@, *st) == Some(m@),
            None => client_problem(pid@, *st) is None,
        },
{
    proof {
        reveal_strlit(" missing join params");
        reveal_strlit(" expected default params 2/2/2, got ");
        reveal_strlit(" did not receive param_applied");
        reveal_strlit(" received datagrams from too few players: ");
    }
    match st.join_params {
        None => Some(pid.clone().concat(" missing join params")),
        Some(p) => {
            if p.gravity != 2 || p.friction != 2 || p.speed != 2 {
                let mut m = pid.clone().concat(" expected default params 2/2/2, got ");
                push_levels(&mut m, p.gravity as u64, p.friction as u64, p.speed as u64);
                return Some(m);
            }
            if st.param_applied_count == 0 {
                return Some(pid.clone().concat(" did not receive param_applied"));
            }
            let seen = st.datagram_from_players.len();
            if seen < 2 {
                let mut m = pid.clone().concat(" received datagrams from too few players: ");
                push_decimal(&mut m, seen as u64);
                return Some(m);
            }
            None
        },
    }
}

fn trigger_problem_text(stats: &StrMap<ClientStats>, trigger: &String) -> (r: Option<String>)
    ensures
        match r {
            Some(m) => trigger_problem(stats@, trigger@) == Some(m@),
            None => trigger_problem(stats@, trigger@) is None,
        },
{
    let st = match stats.get(trigger) {
        None => return Some(owned("missing trigger player stats")),
        Some(st) => st,
    };
    if !st.cooldown_error_seen {
        return Some(owned("trigger player did not observe cooldown rejection"));
    }
    match st.observed_param_state {
        None => Some(owned("trigger player missing observed param state")),
        Some(p) => {
            if p.gravity != 3 || p.friction != 2 || p.speed != 2 {
                let mut m = owned("trigger player observed wrong param state: ");
                push_levels(&mut m, p.gravity as u64, p.friction as u64, p.speed as u64);
                return Some(m);
            }
            let next = match st.next_param_change_at_unix {
                Some(t) => t,
                None => 0,
            };
            if next == 0 {
                return Some(owned("trigger player missing cooldown timestamp"));
            }
            None
        },
    }
}

fn room_problem_text(players: &Vec<RoomPlayer>, trigger: &String) -> (r: Option<String>)
    ensures
        match r {
            Some(m) => room_problem(players@, trigger@) == Some(m@),
            None => room_problem(players@, trigger@) is None,
        },
{
    proof {
        assert(players@.skip(0) =~= players@);
    }
    let mut i: usize = 0;
    while i < players.len()
        invariant
            i <= players@.len(),
            first_player_named(players@, trigger@) == first_player_named(players@.skip(i as int), trigger@),
        decreases players@.len() - i,
    {
        proof {
            assert(players@.skip(i as int).drop_first() =~= players@.skip(i + 1));
        }
        let p = &players[i];
        if p.player_id == *trigger {
            if p.gravity != 3 || p.friction != 2 || p.speed != 2 {
                let mut m = owned("room snapshot state mismatch: ");
                push_levels(&mut m, p.gravity as u64, p.friction as u64, p.speed as u64);
                return Some(m);
            }
            if p.next_param_change_at_unix == 0 {
                return Some(owned("room snapshot missing cooldown timestamp"));
            }
            return None;
        }
        i = i + 1;
    }
    Some(owned("trigger player missing from room snapshot"))
}

/// Judges a load-test run from what each client saw (`stats`, by player id), the player that
/// changed its parameters, and the room snapshot taken at the end: `Ok` when it passed, else
/// the text of the first problem found.
pub fn run_verdict(stats: &StrMap<ClientStats>, trigger_player_id: &String, room_players: &Vec<RoomPlayer>) -> (r: Result<(), String>)
    ensures
        match r {
            Ok(_) => run_problem(stats@, trigger_player_id@, room_players@) is None,
            Err(m) => run_problem(stats@, trigger_player_id@, room_players@) == Some(m@),
        },
{
    let n = stats.len();
    if n != RUN_CLIENTS {
        let mut m = owned("expected 4 clients in stats, got ");
        push_decimal(&mut m, n as u64);
        return Err(m);
    }
    let keys = stats.sorted_keys();
    let ghost kv = string_views(keys@);
    proof {
        lemma_is_sorted_listing(kv);
        assert(kv.skip(0) =~= kv);
    }
    let mut i: usize = 0;
    while i < keys.len()
        invariant
            kv == string_views(keys@),
            kv.to_set() == stats@.dom(),
            stats@.len() == RUN_CLIENTS,
            i <= keys@.len(),
            first_client_problem(sorted_listing(stats@.dom()), stats@) == first_client_problem(kv.skip(i as int), stats@),
        decreases keys@.len() - i,
    {
        proof {
            assert(kv.skip(i as int).drop_first() =~= kv.skip(i + 1));
            assert(kv.skip(i as int)[0] == kv[i as int]);
            assert(kv.to_set().contains(kv[i as int]));
        }
        let st = match stats.get(&keys[i]) {
            Some(st) => st,
            None => {
                assert(false);
                return Ok(());
            },
        };
        match client_problem_text(&keys[i], st) {
            Some(m) => return Err(m),
            None => {},
        }
        i = i + 1;
    }
    proof {
        assert(kv.skip(i as int).len() == 0);
    }
    match trigger_problem_text(stats, trigger_player_id) {
        Some(m) => return Err(m),
        None => {},
    }
    match room_problem_text(room_players, trigger_player_id) {
        Some(m) => Err(m),
        None => Ok(()),
    }
}

proof fn lemma_first_player_named(players: Seq<RoomPlayer>, id: Seq<char>)
    ensures
        first_player_named(players, id) matches Some(p) ==> exists|i: int|
            0 <= i < players.len() && players[i] == p && players[i].player_id@ == id
                && forall|j: int| 0 <= j < i ==> (#[trigger] players[j]).player_id@ != id,
        first_player_named(players, id) is None ==> forall|j: int|
            0 <= j < players.len() ==> (#[trigger] players[j]).player_id@ != id,
    decreases players.len(),
{
    if players.len() > 0 {
        let rest = players.drop_first();
        lemma_first_player_named(rest, id);
        if players[0].player_id@ != id {
            if first_player_named(rest, id) is Some {
                let k = choose|i: int|
                    0 <= i < rest.len() && rest[i] == first_player_named(rest, id)->Some_0
                        && rest[i].player_id@ == id && forall|j: int| 0 <= j < i ==> (#[trigger] rest[j]).player_id@ != id;
                assert(players[k + 1] == rest[k]);
                assert forall|j: int| 0 <= j < k + 1 implies (#[trigger] players[j]).player_id@ != id by {
                    if j > 0 {
                        assert(players[j] == rest[j - 1]);
                    }
                }
            } else {
                assert forall|j: int| 0 <= j < players.len() implies (#[trigger] players[j]).player_id@ != id by {
                    if j > 0 {
                        assert(players[j] == rest[j - 1]);
                    }
                }
            }
        }
    }
}

/// A run passes only when the server and the client that changed its parameters agree on the
/// change: four clients took part; that client saw the cooldown refusal, saw its gravity raised
/// to 3 with friction and speed at 2, and learnt a nonzero cooldown end; and the room snapshot's
/// first row for that client shows gravity 3, friction 2, speed 2 and a nonzero cooldown end.
pub proof fn lemma_passing_run(
    stats: Map<Seq<char>, ClientStats>,
    trigger: Seq<char>,
    players: Seq<RoomPlayer>,
)
    requires
        run_problem(stats, trigger, players) is None,
    ensures
        stats.len() == RUN_CLIENTS,
        stats.contains_key(trigger),
        stats[trigger].cooldown_error_seen,
        stats[trigger].observed_param_state == Some(PlayerParams { gravity: 3, friction: 2, speed: 2 }),
        stats[trigger].next_param_change_at_unix matches Some(t) && t != 0,
        exists|i: int|
            0 <= i < players.len() && (#[trigger] players[i]).player_id@ == trigger
                && (forall|j: int| 0 <= j < i ==> (#[trigger] players[j]).player_id@ != trigger)
                && players[i].gravity == 3 && players[i].friction == 2 && players[i].speed == 2
                && players[i].next_param_change_at_unix != 0,
{
    lemma_first_player_named(players, trigger);
    let p = first_player_named(players, trigger)->Some_0;
    let i = choose|i: int|
        0 <= i < players.len() && players[i] == p && players[i].player_id@ == trigger
            && forall|j: int| 0 <= j < i ==> (#[trigger] players[j]).player_id@ != trigger;
    assert(players[i].player_id@ == trigger);
}

} // verus!
