use kotatsu_realtime::clock::now_unix;
use kotatsu_realtime::control::{error_body, error_status};
use kotatsu_realtime::limits::ROOM_MAX_PLAYERS;
use kotatsu_realtime::params::{is_change_accepted, ParamDirection, ParamKind, ParamUpdateError, PlayerParams};
use kotatsu_realtime::player::{register_player_udp_at, remove_player_at, RoomError};
use kotatsu_realtime::room::{
    change_accepted_now,
    datagram_recipients, delete_stale_lobby_rooms, delete_stale_lobby_rooms_at, reliable_recipients,
    start_room_at, update_player_params, update_player_params_at, update_player_stage_progress_at,
};
use kotatsu_realtime::session::AppState;
use kotatsu_realtime::state::{CoreState, MatchRoom, PeerAddr, PlayerConnection, PlayerHandle, Ticket};
use kotatsu_realtime::table::StrMap;
use kotatsu_realtime::ticket::{consume_ticket_at, TicketError};

fn test_state() -> AppState {
    AppState::new("udp://127.0.0.1:4433".into())
}

fn test_player(display_name: &str) -> PlayerHandle {
    PlayerHandle {
        display_name: display_name.into(),
        params: PlayerParams::default(),
        next_param_change_at_unix: 0,
        color_index: None,
        stage_order: Vec::new(),
        current_stage_index: 0,
        connection: None,
    }
}

fn room(players: Vec<(&str, PlayerHandle)>, started_at_unix: u64, last_activity_unix: u64) -> MatchRoom {
    let mut map = StrMap::new();
    for (id, p) in players {
        map.insert(id.to_string(), p);
    }
    MatchRoom { players: map, started_at_unix, last_activity_unix }
}

fn ticket(match_id: &str, player_id: &str, display_name: &str, expires_at_unix: u64) -> Ticket {
    Ticket {
        match_id: match_id.into(),
        player_id: player_id.into(),
        display_name: display_name.into(),
        expires_at_unix,
    }
}

fn addr(last: u8, port: u16) -> PeerAddr {
    PeerAddr { ip: u128::from(u32::from_be_bytes([127, 0, 0, last])), port, is_v6: false }
}

#[test]
fn list_rooms_returns_all_rooms_sorted() {
    let mut st = test_state();
    st.core.matches.insert("m_b".into(), room(vec![("p_b", test_player("beta"))], 200, 0));
    st.core.matches.insert(
        "m_a".into(),
        room(vec![("p_z", test_player("zeta")), ("p_a", test_player("alpha"))], 100, 0),
    );

    let rooms = st.list_rooms();

    assert_eq!(rooms.len(), 2);
    assert_eq!(rooms[0].match_id, "m_a");
    assert_eq!(rooms[1].match_id, "m_b");
    assert_eq!(rooms[0].started_at_unix, 100);
    assert_eq!(rooms[1].started_at_unix, 200);
    assert_eq!(rooms[0].players.len(), 2);
    assert_eq!(rooms[0].players[0].player_id, "p_a");
    assert_eq!(rooms[0].players[1].player_id, "p_z");
    assert_eq!(rooms[1].players[0].player_id, "p_b");
}

#[test]
fn start_room_marks_room_started_and_notifies_players() {
    let match_id = "m_start".to_string();
    let mut st = test_state();
    st.core.matches.insert(match_id.clone(), room(vec![("p_1", test_player("host"))], 0, 0));

    let response = st.start_room(&match_id).expect("start should succeed");

    assert_eq!(response.match_id, match_id);
    assert!(response.started_at_unix > 0);

    let stored = st.core.matches.get(&match_id).expect("room should exist");
    assert_eq!(stored.started_at_unix, response.started_at_unix);

    assert!(response.just_started, "match start should be broadcast");
    assert_eq!(response.notify.len(), 1);
    assert_eq!(response.notify[0].player_id, "p_1");
    assert_eq!(response.notify[0].addr, None);
}

#[test]
fn delete_room_removes_room_and_pending_tickets() {
    let match_id = "m_delete".to_string();
    let keep_match_id = "m_keep".to_string();
    let mut st = test_state();
    st.core.matches.insert(match_id.clone(), MatchRoom::new());
    st.core.matches.insert(keep_match_id.clone(), MatchRoom::new());
    st.core.tickets.insert("t_delete".into(), ticket(&match_id, "p_delete", "delete", 100));
    st.core.tickets.insert("t_keep".into(), ticket(&keep_match_id, "p_keep", "keep", 100));

    st.delete_room(&match_id).expect("delete should succeed");

    assert!(!st.core.matches.contains_key(&match_id));
    assert!(st.core.matches.contains_key(&keep_match_id));
    assert!(!st.core.tickets.contains_key(&"t_delete".to_string()));
    assert!(st.core.tickets.contains_key(&"t_keep".to_string()));
}

#[test]
fn delete_room_returns_not_found_for_missing_match() {
    let mut st = test_state();

    let err = st.delete_room(&"missing".to_string()).expect_err("missing match should fail");

    assert_eq!(error_status(err), 404);
    assert_eq!(err.message(), "match_not_found");
}

fn single_player_core(match_id: &str, player_id: &str) -> CoreState {
    let mut core = CoreState::new();
    core.matches.insert(match_id.to_string(), room(vec![(player_id, test_player("tester"))], 0, 0));
    core
}

#[test]
fn update_player_params_persists_internal_state() {
    let player_id = "p_test".to_string();
    let match_id = "m_test".to_string();
    let mut core = single_player_core(&match_id, &player_id);

    let updated = update_player_params(&mut core, &match_id, &player_id, ParamKind::Gravity, ParamDirection::Increase)
        .expect("update should succeed");

    let stored = core.matches.get(&match_id).expect("room should exist");
    let player = stored.players.get(&player_id).expect("player should exist");
    assert_eq!(updated.params.gravity, 3);
    assert_eq!(player.params.gravity, 3);
    assert_eq!(player.params.friction, 2);
    assert_eq!(player.params.speed, 2);
    assert_eq!(player.next_param_change_at_unix, updated.next_param_change_at_unix);
}

#[test]
fn update_player_params_allows_friction_toggle_to_one() {
    let player_id = "p_test".to_string();
    let match_id = "m_test".to_string();
    let mut core = single_player_core(&match_id, &player_id);

    let updated = update_player_params(&mut core, &match_id, &player_id, ParamKind::Friction, ParamDirection::Decrease)
        .expect("update should succeed");

    let stored = core.matches.get(&match_id).expect("room should exist");
    let player = stored.players.get(&player_id).expect("player should exist");
    assert_eq!(updated.params.friction, 1);
    assert_eq!(player.params.friction, 1);
}

#[test]
fn delete_stale_lobby_rooms_removes_only_unstarted_expired_rooms() {
    let stale_match_id = "m_stale".to_string();
    let active_match_id = "m_active".to_string();
    let started_match_id = "m_started".to_string();
    let now = now_unix();
    let mut core = CoreState::new();
    core.matches.insert(stale_match_id.clone(), room(vec![], 0, now.saturating_sub(21)));
    core.matches.insert(active_match_id.clone(), room(vec![], 0, now));
    core.matches.insert(
        started_match_id.clone(),
        room(vec![], now.saturating_sub(100), now.saturating_sub(100)),
    );
    core.tickets.insert("t_stale".into(), ticket(&stale_match_id, "p_stale", "stale", now + 100));
    core.tickets.insert("t_active".into(), ticket(&active_match_id, "p_active", "active", now + 100));

    let deleted = delete_stale_lobby_rooms(&mut core, 20);
    assert_eq!(deleted, vec![stale_match_id.clone()]);

    assert!(!core.matches.contains_key(&stale_match_id));
    assert!(core.matches.contains_key(&active_match_id));
    assert!(core.matches.contains_key(&started_match_id));
    assert!(!core.tickets.contains_key(&"t_stale".to_string()));
    assert!(core.tickets.contains_key(&"t_active".to_string()));
}

#[test]
fn update_player_params_reports_missing_room_and_player() {
    let mut core = single_player_core("m", "p");
    let e = update_player_params_at(&mut core, &"x".to_string(), &"p".to_string(), ParamKind::Speed,
        ParamDirection::Increase, 10).unwrap_err();
    assert_eq!(e, RoomError::MatchNotFound);
    assert_eq!(e.message(), "match_not_found");
    let e = update_player_params_at(&mut core, &"m".to_string(), &"q".to_string(), ParamKind::Speed,
        ParamDirection::Increase, 10).unwrap_err();
    assert_eq!(e, RoomError::PlayerNotFound);
    assert_eq!(e.message(), "player_not_found");
    let e = update_player_params_at(&mut core, &"m".to_string(), &"p".to_string(), ParamKind::Friction,
        ParamDirection::Increase, 10).unwrap_err();
    assert_eq!(e, RoomError::Param(ParamUpdateError::OutOfRange));
    assert_eq!(e.message(), "out_of_range");
    assert_eq!(error_status(e), 502);
}

#[test]
fn update_player_params_marks_room_activity() {
    let mut core = single_player_core("m", "p");
    let m = update_player_params_at(&mut core, &"m".to_string(), &"p".to_string(), ParamKind::Speed,
        ParamDirection::Increase, 500).unwrap();
    assert_eq!(m.next_param_change_at_unix, 530);
    assert_eq!(core.matches.get(&"m".to_string()).unwrap().last_activity_unix, 500);
    let again = update_player_params_at(&mut core, &"m".to_string(), &"p".to_string(), ParamKind::Speed,
        ParamDirection::Decrease, 510).unwrap_err();
    assert_eq!(again, RoomError::Param(ParamUpdateError::CooldownActive { next_allowed_at_unix: 530 }));
    assert_eq!(again.message(), "cooldown_active:530");
}

#[test]
fn register_adds_refreshes_and_refuses_when_full() {
    let mut core = CoreState::new();
    core.matches.insert("m".into(), MatchRoom::with_activity(0));
    let missing = register_player_udp_at(&mut core, &"nope".to_string(), &"p".to_string(), "n".into(), addr(1, 1), 5);
    assert_eq!(missing.unwrap_err(), RoomError::MatchNotFound);

    for i in 0..ROOM_MAX_PLAYERS {
        let id = format!("p{i}");
        let params = register_player_udp_at(&mut core, &"m".to_string(), &id, format!("n{i}"), addr(i as u8, 9000), 7)
            .expect("room has space");
        assert_eq!(params, PlayerParams::default());
    }
    let full = register_player_udp_at(&mut core, &"m".to_string(), &"late".to_string(), "late".into(), addr(99, 1), 8);
    assert_eq!(full.unwrap_err(), RoomError::MatchFull);
    assert_eq!(RoomError::MatchFull.message(), "match_full");
    assert_eq!(error_status(RoomError::MatchFull), 409);

    // A player already in the full room may register again from a new address.
    let again = register_player_udp_at(&mut core, &"m".to_string(), &"p0".to_string(), "renamed".into(), addr(50, 5), 9);
    assert!(again.is_ok());
    let r = core.matches.get(&"m".to_string()).unwrap();
    assert_eq!(r.players.len(), ROOM_MAX_PLAYERS);
    assert_eq!(r.last_activity_unix, 9);
    let p0 = r.players.get(&"p0".to_string()).unwrap();
    assert_eq!(p0.display_name, "renamed");
    assert_eq!(p0.connection, Some(PlayerConnection::Udp(addr(50, 5))));
}

#[test]
fn register_keeps_a_returning_players_state() {
    let mut core = CoreState::new();
    let mut h = test_player("old");
    h.params = PlayerParams { gravity: 3, friction: 1, speed: 1 };
    h.next_param_change_at_unix = 77;
    h.color_index = Some(2);
    h.stage_order = vec![4, 0, 5];
    h.current_stage_index = 2;
    core.matches.insert("m".into(), room(vec![("p", h)], 10, 10));
    let params = register_player_udp_at(&mut core, &"m".to_string(), &"p".to_string(), "new".into(), addr(3, 3), 20).unwrap();
    assert_eq!(params, PlayerParams { gravity: 3, friction: 1, speed: 1 });
    let p = core.matches.get(&"m".to_string()).unwrap().players.get(&"p".to_string()).unwrap();
    assert_eq!(p.display_name, "new");
    assert_eq!(p.next_param_change_at_unix, 77);
    assert_eq!(p.color_index, Some(2));
    assert_eq!(p.stage_order, vec![4, 0, 5]);
    assert_eq!(p.current_stage_index, 2);
}

#[test]
fn remove_player_leaves_the_room_and_marks_activity() {
    let mut core = single_player_core("m", "p");
    remove_player_at(&mut core, &"m".to_string(), &"p".to_string(), 33);
    let r = core.matches.get(&"m".to_string()).unwrap();
    assert_eq!(r.players.len(), 0);
    assert_eq!(r.last_activity_unix, 33);
    remove_player_at(&mut core, &"gone".to_string(), &"p".to_string(), 34);
    assert_eq!(core.matches.len(), 1);
}

#[test]
fn start_is_idempotent_and_keeps_the_first_time() {
    let mut core = single_player_core("m", "p");
    assert_eq!(start_room_at(&mut core, &"m".to_string(), 1000), Ok((1000, true)));
    assert_eq!(start_room_at(&mut core, &"m".to_string(), 2000), Ok((1000, false)));
    assert_eq!(core.matches.get(&"m".to_string()).unwrap().started_at_unix, 1000);
    assert_eq!(start_room_at(&mut core, &"x".to_string(), 2000), Err(RoomError::MatchNotFound));
}

#[test]
fn app_start_room_notifies_only_on_first_start() {
    let mut st = test_state();
    st.core.matches.insert("m".into(), room(vec![("b", test_player("b")), ("a", test_player("a"))], 0, 0));
    let first = st.start_room_at(&"m".to_string(), 50).unwrap();
    assert!(first.just_started);
    assert_eq!(first.started_at_unix, 50);
    let ids: Vec<&str> = first.notify.iter().map(|m| m.player_id.as_str()).collect();
    assert_eq!(ids, vec!["a", "b"]);
    let second = st.start_room_at(&"m".to_string(), 60).unwrap();
    assert!(!second.just_started);
    assert_eq!(second.started_at_unix, 50);
    assert!(second.notify.is_empty());
    let missing = st.start_room_at(&"zz".to_string(), 60).unwrap_err();
    assert_eq!(missing, RoomError::MatchNotFound);
}

#[test]
fn stage_progress_is_clamped_to_one_past_the_last_stage() {
    let mut core = CoreState::new();
    let mut h = test_player("p");
    h.stage_order = vec![1, 2, 3];
    core.matches.insert("m".into(), room(vec![("p", h)], 5, 5));
    let m = "m".to_string();
    let p = "p".to_string();
    assert_eq!(update_player_stage_progress_at(&mut core, &m, &p, 2, 40), Ok(2));
    assert_eq!(update_player_stage_progress_at(&mut core, &m, &p, 200, 41), Ok(4));
    let stored = core.matches.get(&m).unwrap();
    assert_eq!(stored.players.get(&p).unwrap().current_stage_index, 4);
    assert_eq!(stored.last_activity_unix, 41);
    assert_eq!(update_player_stage_progress_at(&mut core, &m, &"q".to_string(), 1, 42), Err(RoomError::PlayerNotFound));
    assert_eq!(update_player_stage_progress_at(&mut core, &"n".to_string(), &p, 1, 42), Err(RoomError::MatchNotFound));
}

#[test]
fn cleanup_with_explicit_clock() {
    let mut core = CoreState::new();
    core.matches.insert("old".into(), room(vec![], 0, 100));
    core.matches.insert("fresh".into(), room(vec![], 0, 150));
    core.matches.insert("future".into(), room(vec![], 0, 500));
    core.matches.insert("playing".into(), room(vec![], 90, 90));
    core.tickets.insert("t1".into(), ticket("old", "p", "n", 1000));
    core.tickets.insert("t2".into(), ticket("fresh", "p", "n", 1000));
    let deleted = delete_stale_lobby_rooms_at(&mut core, 60, 200);
    assert_eq!(deleted, vec!["old".to_string()]);
    assert!(core.matches.contains_key(&"fresh".to_string()));
    assert!(core.matches.contains_key(&"future".to_string()));
    assert!(core.matches.contains_key(&"playing".to_string()));
    assert!(!core.tickets.contains_key(&"t1".to_string()));
    assert!(core.tickets.contains_key(&"t2".to_string()));
    // A zero timeout takes every lobby room, even one whose activity lies ahead of the clock.
    let mut deleted = delete_stale_lobby_rooms_at(&mut core, 0, 200);
    deleted.sort();
    assert_eq!(deleted, vec!["fresh".to_string(), "future".to_string()]);
    assert_eq!(core.matches.len(), 1);
}

#[test]
fn tickets_are_single_use_and_expire() {
    let mut core = CoreState::new();
    core.tickets.insert("tok".into(), ticket("m", "p", "name", 100));
    core.tickets.insert("old".into(), ticket("m", "q", "name", 100));
    let got = consume_ticket_at(&mut core, &"tok".to_string(), 100).unwrap();
    assert_eq!(got, ("m".to_string(), "p".to_string(), "name".to_string()));
    let again = consume_ticket_at(&mut core, &"tok".to_string(), 100).unwrap_err();
    assert_eq!(again, TicketError::InvalidToken);
    assert_eq!(again.message(), "invalid_token");
    let expired = consume_ticket_at(&mut core, &"old".to_string(), 101).unwrap_err();
    assert_eq!(expired, TicketError::TokenExpired);
    assert_eq!(expired.message(), "token_expired");
    assert!(!core.tickets.contains_key(&"old".to_string()));
}

#[test]
fn reliable_messages_go_to_every_player_and_datagrams_skip_the_sender() {
    let mut core = CoreState::new();
    let mut a = test_player("a");
    a.connection = Some(PlayerConnection::Udp(addr(1, 1000)));
    let mut b = test_player("b");
    b.connection = Some(PlayerConnection::Udp(addr(2, 2000)));
    let c = test_player("c");
    core.matches.insert("m".into(), room(vec![("p_c", c), ("p_b", b), ("p_a", a)], 1, 1));
    let m = "m".to_string();

    let all = reliable_recipients(&core, &m).unwrap();
    let ids: Vec<&str> = all.iter().map(|r| r.player_id.as_str()).collect();
    assert_eq!(ids, vec!["p_a", "p_b", "p_c"]);
    assert_eq!(all[0].addr, Some(addr(1, 1000)));
    assert_eq!(all[2].addr, None);

    let others = datagram_recipients(&core, &m, &"p_a".to_string()).unwrap();
    assert_eq!(others.len(), 1);
    assert_eq!(others[0].player_id, "p_b");
    assert_eq!(others[0].addr, addr(2, 2000));

    assert!(reliable_recipients(&core, &"x".to_string()).is_none());
    assert!(datagram_recipients(&core, &"x".to_string(), &"p_a".to_string()).is_none());
}

#[test]
fn refusals_have_their_http_texts() {
    assert_eq!(error_body(RoomError::MatchNotFound), "match_not_found");
    assert_eq!(error_body(RoomError::MatchFull), "match_full");
    assert_eq!(error_body(RoomError::ClockOutOfRange), "control_plane_error:clock_out_of_range");
    assert_eq!(error_body(RoomError::Param(ParamUpdateError::OutOfRange)), "control_plane_error:out_of_range");
}

#[test]
fn acceptance_is_judged_before_the_clock() {
    let p = PlayerParams::default();
    assert!(is_change_accepted(&p, 0, ParamKind::Gravity, ParamDirection::Increase, 5));
    assert!(!is_change_accepted(&p, 10, ParamKind::Gravity, ParamDirection::Increase, 5));
    assert!(!is_change_accepted(&p, 0, ParamKind::Friction, ParamDirection::Increase, 5));
    let core = single_player_core("m", "p");
    let (m, pl) = ("m".to_string(), "p".to_string());
    assert!(change_accepted_now(&core, &m, &pl, ParamKind::Speed, ParamDirection::Decrease, u64::MAX));
    assert!(!change_accepted_now(&core, &m, &"q".to_string(), ParamKind::Speed, ParamDirection::Decrease, 1));
    assert!(!change_accepted_now(&core, &"n".to_string(), &pl, ParamKind::Speed, ParamDirection::Decrease, 1));
    assert!(change_accepted_now(&core, &m, &pl, ParamKind::Speed, ParamDirection::Increase, 0));
}
