use kotatsu_realtime::layout::{start_match_and_snapshot_players, start_match_and_snapshot_players_at};
use kotatsu_realtime::limits::{MATCH_STAGE_ORDER_LEN, MATCH_STAGE_POOL_SIZE, ROOM_MAX_PLAYERS, TOKEN_TTL_SECS};
use kotatsu_realtime::params::{ParamDirection, ParamKind, ParamUpdateError, PlayerParams};
use kotatsu_realtime::player::RoomError;
use kotatsu_realtime::session::{
    join_stream, join_stream_at, AppState, ClientRegistry, FirstMessage, JoinOutcome, ParamChangeOutcome, StreamJoin,
};
use kotatsu_realtime::state::PeerAddr;
use kotatsu_realtime::ticket::TicketError;

fn addr(last: u8, port: u16) -> PeerAddr {
    PeerAddr { ip: u128::from(u32::from_be_bytes([10, 0, 0, last])), port, is_v6: false }
}

fn is_lower_hex(s: &str) -> bool {
    s.chars().all(|c| c.is_ascii_digit() || ('a'..='f').contains(&c))
}

fn is_hyphenated_uuid(s: &str) -> bool {
    s.len() == 36
        && s.char_indices().all(|(i, c)| if [8, 13, 18, 23].contains(&i) { c == '-' } else { is_lower_hex(&c.to_string()) })
        && &s[14..15] == "4"
        && "89ab".contains(&s[19..20])
}

fn is_v4_simple(s: &str) -> bool {
    s.len() == 32 && is_lower_hex(s) && &s[12..13] == "4" && "89ab".contains(&s[16..17])
}

#[test]
fn create_room_gives_a_fresh_lobby_with_a_prefixed_id() {
    let mut st = AppState::new("udp://example:4433".into());
    let created = st.create_room();
    assert_eq!(created.max_players as usize, ROOM_MAX_PLAYERS);
    assert!(created.match_id.starts_with("m_"));
    assert_eq!(created.match_id.len(), 34);
    assert!(is_v4_simple(&created.match_id[2..]), "{}", created.match_id);
    let summary = st.get_room(&created.match_id).unwrap();
    assert_eq!(summary.started_at_unix, 0);
    assert!(summary.players.is_empty());
    let other = st.create_room();
    assert_ne!(other.match_id, created.match_id);
    assert_eq!(st.list_rooms().len(), 2);
}

#[test]
fn get_room_reports_missing_rooms() {
    let st = AppState::new("udp://example:4433".into());
    assert_eq!(st.get_room(&"none".to_string()).unwrap_err(), RoomError::MatchNotFound);
}

#[test]
fn issued_ticket_records_the_player_and_defaults_a_blank_name() {
    let mut st = AppState::new("udp://example:4433".into());
    let m = st.create_room().match_id;
    let t = st.issue_join_ticket(&m, "   ".into()).unwrap();
    assert_eq!(t.match_id, m);
    assert!(t.player_id.starts_with("p_") && t.player_id.len() == 34 && is_v4_simple(&t.player_id[2..]));
    assert!(is_hyphenated_uuid(&t.token), "{}", t.token);
    assert_eq!(t.udp_url, "udp://example:4433");
    let stored = st.core.tickets.get(&t.token).unwrap();
    assert_eq!(stored.display_name, "player");
    assert_eq!(stored.player_id, t.player_id);
    assert_eq!(stored.expires_at_unix, t.token_expires_at_unix);
    assert!(t.token_expires_at_unix >= TOKEN_TTL_SECS);

    let named = st.issue_join_ticket_at(&m, "Alice".into(), "p_x".into(), "tok".into(), 1000).unwrap();
    assert_eq!(named.token_expires_at_unix, 1000 + TOKEN_TTL_SECS);
    assert_eq!(st.core.tickets.get(&"tok".to_string()).unwrap().display_name, "Alice");
}

#[test]
fn issuing_a_ticket_is_refused_for_missing_and_full_rooms() {
    let mut st = AppState::new("u".into());
    let e = st.issue_join_ticket(&"nope".to_string(), "a".into()).unwrap_err();
    assert_eq!(e, RoomError::MatchNotFound);
    let m = st.create_room().match_id;
    for i in 0..ROOM_MAX_PLAYERS {
        let t = st.issue_join_ticket_at(&m, format!("n{i}"), format!("p{i}"), format!("t{i}"), 10).unwrap();
        match st.handle_join_at(addr(i as u8, 5000), &t.token, 10) {
            JoinOutcome::Joined { .. } => {}
            other => panic!("unexpected {other:?}"),
        }
    }
    let e = st.issue_join_ticket_at(&m, "late".into(), "p_late".into(), "t_late".into(), 10).unwrap_err();
    assert_eq!(e, RoomError::MatchFull);
    assert!(!st.core.tickets.contains_key(&"t_late".to_string()));
}

#[test]
fn join_redeems_the_ticket_once_and_registers_the_address() {
    let mut st = AppState::new("u".into());
    let m = st.create_room().match_id;
    let t = st.issue_join_ticket_at(&m, "Bob".into(), "p_bob".into(), "tok".into(), 100).unwrap();
    let a = addr(1, 4000);
    match st.handle_join_at(a, &t.token, 200) {
        JoinOutcome::Joined { match_id, player_id, params } => {
            assert_eq!(match_id, m);
            assert_eq!(player_id, "p_bob");
            assert_eq!(params, PlayerParams::default());
        }
        other => panic!("unexpected {other:?}"),
    }
    assert!(st.clients.contains(a));
    assert_eq!(st.clients.lookup(a), Some((m.clone(), "p_bob".to_string())));
    assert!(!st.core.tickets.contains_key(&"tok".to_string()));
    let room = st.get_room(&m).unwrap();
    assert_eq!(room.players.len(), 1);
    assert_eq!(room.players[0].display_name, "Bob");

    assert!(matches!(st.handle_join_at(a, &t.token, 200), JoinOutcome::AlreadyJoined));
    assert!(matches!(
        st.handle_join_at(addr(2, 4000), &t.token, 200),
        JoinOutcome::AuthFailed(TicketError::InvalidToken)
    ));
}

#[test]
fn join_refuses_expired_tickets_and_vanished_rooms() {
    let mut st = AppState::new("u".into());
    let m = st.create_room().match_id;
    st.issue_join_ticket_at(&m, "a".into(), "p_a".into(), "old".into(), 0).unwrap();
    assert!(matches!(
        st.handle_join_at(addr(1, 1), &"old".to_string(), TOKEN_TTL_SECS + 1),
        JoinOutcome::AuthFailed(TicketError::TokenExpired)
    ));
    assert!(!st.core.tickets.contains_key(&"old".to_string()));

    st.issue_join_ticket_at(&m, "b".into(), "p_b".into(), "tb".into(), 0).unwrap();
    st.core.matches.remove(&m);
    assert!(matches!(
        st.handle_join_at(addr(2, 2), &"tb".to_string(), 5),
        JoinOutcome::JoinFailed(RoomError::MatchNotFound)
    ));
    assert!(!st.clients.contains(addr(2, 2)));
}

#[test]
fn param_change_from_a_joined_client_reaches_the_room() {
    let mut st = AppState::new("u".into());
    let m = st.create_room().match_id;
    st.issue_join_ticket_at(&m, "a".into(), "p_a".into(), "ta".into(), 0).unwrap();
    st.issue_join_ticket_at(&m, "b".into(), "p_b".into(), "tb".into(), 0).unwrap();
    let (a, b) = (addr(1, 10), addr(2, 20));
    st.handle_join_at(a, &"ta".to_string(), 1);
    st.handle_join_at(b, &"tb".to_string(), 1);

    match st.handle_param_change_at(a, 7, ParamKind::Speed, ParamDirection::Decrease, 100) {
        ParamChangeOutcome::Applied { match_id, from_player_id, seq, params, next_param_change_at_unix, notify } => {
            assert_eq!(match_id, m);
            assert_eq!(from_player_id, "p_a");
            assert_eq!(seq, 7);
            assert_eq!(params, PlayerParams { gravity: 2, friction: 2, speed: 1 });
            assert_eq!(next_param_change_at_unix, 130);
            let ids: Vec<&str> = notify.iter().map(|r| r.player_id.as_str()).collect();
            assert_eq!(ids, vec!["p_a", "p_b"]);
            assert_eq!(notify[1].addr, Some(b));
        }
        other => panic!("unexpected {other:?}"),
    }
    assert!(matches!(
        st.handle_param_change_at(a, 8, ParamKind::Speed, ParamDirection::Decrease, 110),
        ParamChangeOutcome::Rejected(RoomError::Param(ParamUpdateError::CooldownActive { next_allowed_at_unix: 130 }))
    ));
    assert!(matches!(
        st.handle_param_change_at(addr(9, 9), 1, ParamKind::Speed, ParamDirection::Decrease, 110),
        ParamChangeOutcome::NotJoined
    ));
    assert!(matches!(st.handle_param_change(a, 9, ParamKind::Gravity, ParamDirection::Increase), ParamChangeOutcome::Applied { .. }));
}

#[test]
fn datagrams_are_routed_to_the_other_players_only() {
    let mut st = AppState::new("u".into());
    let m = st.create_room().match_id;
    for (i, tok) in ["t1", "t2", "t3"].iter().enumerate() {
        st.issue_join_ticket_at(&m, "x".into(), format!("p{i}"), tok.to_string(), 0).unwrap();
        st.handle_join_at(addr(i as u8, 30), &tok.to_string(), 1);
    }
    let (sender, to) = st.route_datagram(addr(1, 30)).unwrap();
    assert_eq!(sender, "p1");
    let ids: Vec<&str> = to.iter().map(|r| r.player_id.as_str()).collect();
    assert_eq!(ids, vec!["p0", "p2"]);
    assert_eq!(to[0].addr, addr(0, 30));
    assert!(st.route_datagram(addr(7, 7)).is_none());
}

#[test]
fn removing_a_client_frees_its_place() {
    let mut st = AppState::new("u".into());
    let m = st.create_room().match_id;
    st.issue_join_ticket_at(&m, "x".into(), "p".into(), "t".into(), 0).unwrap();
    st.handle_join_at(addr(1, 1), &"t".to_string(), 1);
    st.remove_client_at(addr(1, 1), 50);
    assert!(!st.clients.contains(addr(1, 1)));
    let room = st.core.matches.get(&m).unwrap();
    assert_eq!(room.players.len(), 0);
    assert_eq!(room.last_activity_unix, 50);
    st.remove_client(addr(1, 1));
}

#[test]
fn client_registry_reads_back_what_was_added() {
    let mut reg = ClientRegistry::new();
    reg.add(addr(1, 1), "m".into(), "p".into());
    reg.add(addr(2, 2), "m".into(), "q".into());
    assert_eq!(reg.lookup(addr(1, 1)), Some(("m".to_string(), "p".to_string())));
    assert_eq!(reg.remove(addr(1, 1)), Some(("m".to_string(), "p".to_string())));
    assert_eq!(reg.lookup(addr(1, 1)), None);
    assert!(reg.contains(addr(2, 2)));
    assert_eq!(reg.remove(addr(1, 1)), None);
}

#[test]
fn starting_a_match_deals_distinct_colours_and_stage_orders() {
    let mut st = AppState::new("u".into());
    let m = st.create_room().match_id;
    for (i, name) in ["d", "a", "c", "b"].iter().enumerate() {
        st.issue_join_ticket_at(&m, name.to_string(), format!("p_{name}"), format!("t{i}"), 0).unwrap();
        st.handle_join_at(addr(i as u8, 40), &format!("t{i}"), 1);
    }
    let (started, just_started, players) = start_match_and_snapshot_players_at(&mut st.core, &m, 777).unwrap();
    assert_eq!(started, 777);
    assert!(just_started);
    let ids: Vec<&str> = players.iter().map(|p| p.player_id.as_str()).collect();
    assert_eq!(ids, vec!["p_a", "p_b", "p_c", "p_d"]);
    let mut colours: Vec<u8> = players.iter().map(|p| p.color_index).collect();
    colours.sort();
    assert_eq!(colours, vec![0, 1, 2, 3]);
    for p in &players {
        assert_eq!(p.stage_order.len(), MATCH_STAGE_ORDER_LEN);
        assert!(p.stage_order.iter().all(|s| *s < MATCH_STAGE_POOL_SIZE));
        let mut sorted = p.stage_order.clone();
        sorted.sort();
        sorted.dedup();
        assert_eq!(sorted.len(), MATCH_STAGE_ORDER_LEN);
        assert_eq!(p.current_stage_index, 0);
    }
    let room = st.core.matches.get(&m).unwrap();
    assert_eq!(room.last_activity_unix, 777);

    let (again, just_again, same) = start_match_and_snapshot_players(&mut st.core, &m).unwrap();
    assert_eq!(again, 777);
    assert!(!just_again);
    for (x, y) in players.iter().zip(same.iter()) {
        assert_eq!(x.color_index, y.color_index);
        assert_eq!(x.stage_order, y.stage_order);
    }
    assert_eq!(start_match_and_snapshot_players(&mut st.core, &"zz".to_string()).unwrap_err(), RoomError::MatchNotFound);
}

#[test]
fn refused_joins_carry_their_codes() {
    assert_eq!(JoinOutcome::AuthFailed(TicketError::InvalidToken).refusal(),
        Some(("auth_failed".to_string(), "invalid_token".to_string())));
    assert_eq!(JoinOutcome::JoinFailed(RoomError::MatchFull).refusal(),
        Some(("join_failed".to_string(), "match_full".to_string())));
    assert_eq!(JoinOutcome::AlreadyJoined.refusal(), None);
    assert_eq!(StreamJoin::NotAJoin.refusal(),
        Some(("invalid_first_message".to_string(), "first reliable message must be join".to_string())));
    assert_eq!(StreamJoin::AuthFailed(TicketError::TokenExpired).refusal(),
        Some(("auth_failed".to_string(), "token_expired".to_string())));
    assert_eq!(StreamJoin::JoinFailed(RoomError::MatchNotFound).refusal(),
        Some(("join_failed".to_string(), "match_not_found".to_string())));
}

#[test]
fn stream_joins_need_a_join_first_and_a_good_ticket() {
    let mut st = AppState::new("quic://x".into());
    let m = st.create_room().match_id;
    st.issue_join_ticket_at(&m, "a".into(), "p_a".into(), "ta".into(), 100).unwrap();
    st.issue_join_ticket_at(&m, "b".into(), "p_b".into(), "tb".into(), 0).unwrap();
    assert!(matches!(join_stream_at(&mut st.core, &FirstMessage::Other, addr(1, 1), 5), StreamJoin::NotAJoin));
    assert!(st.core.tickets.contains_key(&"ta".to_string()));
    match join_stream_at(&mut st.core, &FirstMessage::Join { token: "ta".into() }, addr(1, 1), 200) {
        StreamJoin::Joined { match_id, player_id, params } => {
            assert_eq!(match_id, m);
            assert_eq!(player_id, "p_a");
            assert_eq!(params, PlayerParams::default());
        }
        other => panic!("unexpected {other:?}"),
    }
    assert!(matches!(
        join_stream_at(&mut st.core, &FirstMessage::Join { token: "ta".into() }, addr(1, 1), 200),
        StreamJoin::AuthFailed(TicketError::InvalidToken)
    ));
    assert!(matches!(
        join_stream_at(&mut st.core, &FirstMessage::Join { token: "tb".into() }, addr(2, 2), TOKEN_TTL_SECS + 1),
        StreamJoin::AuthFailed(TicketError::TokenExpired)
    ));
    let t = st.issue_join_ticket(&m, "c".into()).unwrap();
    assert!(matches!(join_stream(&mut st.core, &FirstMessage::Join { token: t.token }, addr(3, 3)), StreamJoin::Joined { .. }));
    assert_eq!(st.get_room(&m).unwrap().players.len(), 2);
}
