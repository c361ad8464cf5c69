use kotatsu_realtime::control::RoomPlayer;
use kotatsu_realtime::params::PlayerParams;
use kotatsu_realtime::probe::{
    is_probe_echo, join_step, record_datagram, record_notice, run_verdict, ClientStats, JoinStep, ServerNotice,
};
use kotatsu_realtime::table::StrMap;

fn levels(g: u8, f: u8, s: u8) -> PlayerParams {
    PlayerParams { gravity: g, friction: f, speed: s }
}

#[test]
fn join_answers_are_read_as_the_clients_read_them() {
    let me = "p_me".to_string();
    let ok = ServerNotice::JoinOk { player_id: "p_me".into(), params: Some(levels(2, 2, 2)) };
    assert!(matches!(join_step(&me, &ok), JoinStep::Joined(Some(p)) if p == levels(2, 2, 2)));
    let other = ServerNotice::JoinOk { player_id: "p_x".into(), params: None };
    match join_step(&me, &other) {
        JoinStep::Failed(m) => assert_eq!(m, "joined with unexpected player_id: expected p_me got p_x"),
        s => panic!("unexpected {s:?}"),
    }
    let err = ServerNotice::Error { code: "auth_failed".into(), message: "token_expired".into() };
    match join_step(&me, &err) {
        JoinStep::Failed(m) => assert_eq!(m, "join failed: auth_failed token_expired"),
        s => panic!("unexpected {s:?}"),
    }
    assert!(matches!(join_step(&me, &ServerNotice::MatchStarted), JoinStep::Wait));
    let applied = ServerNotice::ParamApplied { from_player_id: "p_me".into(), params: levels(3, 2, 2), next_param_change_at_unix: 9 };
    assert!(matches!(join_step(&me, &applied), JoinStep::Wait));
}

#[test]
fn only_the_matching_datagram_answers_a_probe() {
    let a = "p_a".to_string();
    assert!(is_probe_echo(&a, 5, &"p_a".to_string(), 5));
    assert!(!is_probe_echo(&a, 5, &"p_a".to_string(), 4));
    assert!(!is_probe_echo(&a, 5, &"p_b".to_string(), 5));
}

#[test]
fn notices_update_the_client_record() {
    let me = "p_me".to_string();
    let mut st = ClientStats::new();
    record_notice(&mut st, &me, true, &ServerNotice::ParamApplied {
        from_player_id: "p_other".into(),
        params: levels(1, 1, 1),
        next_param_change_at_unix: 5,
    });
    assert_eq!(st.param_applied_count, 1);
    assert_eq!(st.observed_param_state, None);
    record_notice(&mut st, &me, true, &ServerNotice::ParamApplied {
        from_player_id: "p_me".into(),
        params: levels(3, 2, 2),
        next_param_change_at_unix: 130,
    });
    assert_eq!(st.param_applied_count, 2);
    assert_eq!(st.observed_param_state, Some(levels(3, 2, 2)));
    assert_eq!(st.next_param_change_at_unix, Some(130));

    record_notice(&mut st, &me, false, &ServerNotice::Error { code: "param_update_failed".into(), message: "cooldown_active:130".into() });
    assert!(!st.cooldown_error_seen);
    record_notice(&mut st, &me, true, &ServerNotice::Error { code: "param_update_failed".into(), message: "out_of_range".into() });
    assert!(!st.cooldown_error_seen);
    record_notice(&mut st, &me, true, &ServerNotice::Error { code: "join_failed".into(), message: "cooldown_active:1".into() });
    assert!(!st.cooldown_error_seen);
    record_notice(&mut st, &me, true, &ServerNotice::Error { code: "param_update_failed".into(), message: "cooldown_active:130".into() });
    assert!(st.cooldown_error_seen);
    record_notice(&mut st, &me, true, &ServerNotice::MatchStarted);
    assert_eq!(st.param_applied_count, 2);

    record_datagram(&mut st, "p_a".into());
    record_datagram(&mut st, "p_a".into());
    record_datagram(&mut st, "p_b".into());
    assert_eq!(st.datagram_count, 3);
    assert_eq!(st.datagram_from_players.len(), 2);
}

fn good_client(trigger: bool) -> ClientStats {
    let mut st = ClientStats::new();
    st.join_params = Some(levels(2, 2, 2));
    st.param_applied_count = 2;
    st.datagram_from_players.insert("x".into(), ());
    st.datagram_from_players.insert("y".into(), ());
    if trigger {
        st.cooldown_error_seen = true;
        st.observed_param_state = Some(levels(3, 2, 2));
        st.next_param_change_at_unix = Some(1030);
    }
    st
}

fn snapshot(g: u32, next: u64) -> Vec<RoomPlayer> {
    vec![
        RoomPlayer { player_id: "p1".into(), display_name: "p1".into(), gravity: g, friction: 2, speed: 2, next_param_change_at_unix: next },
        RoomPlayer { player_id: "p2".into(), display_name: "p2".into(), gravity: 2, friction: 2, speed: 2, next_param_change_at_unix: 0 },
    ]
}

fn good_run() -> StrMap<ClientStats> {
    let mut all = StrMap::new();
    all.insert("p1".into(), good_client(true));
    for id in ["p2", "p3", "p4"] {
        all.insert(id.into(), good_client(false));
    }
    all
}

#[test]
fn a_complete_run_passes() {
    assert_eq!(run_verdict(&good_run(), &"p1".to_string(), &snapshot(3, 1030)), Ok(()));
}

#[test]
fn each_failed_expectation_is_reported() {
    let trigger = "p1".to_string();
    let mut few = StrMap::new();
    few.insert("p1".into(), good_client(true));
    assert_eq!(run_verdict(&few, &trigger, &snapshot(3, 1)).unwrap_err(), "expected 4 clients in stats, got 1");

    let mut run = good_run();
    let mut bad = good_client(false);
    bad.join_params = None;
    run.insert("p3".into(), bad);
    let mut worse = good_client(false);
    worse.join_params = Some(levels(1, 2, 3));
    run.insert("p2".into(), worse);
    assert_eq!(run_verdict(&run, &trigger, &snapshot(3, 1)).unwrap_err(), "p2 expected default params 2/2/2, got 1/2/3");

    let mut run = good_run();
    let mut quiet = good_client(false);
    quiet.param_applied_count = 0;
    run.insert("p4".into(), quiet);
    assert_eq!(run_verdict(&run, &trigger, &snapshot(3, 1)).unwrap_err(), "p4 did not receive param_applied");

    let mut run = good_run();
    let mut lonely = good_client(false);
    lonely.datagram_from_players = StrMap::new();
    lonely.datagram_from_players.insert("x".into(), ());
    run.insert("p3".into(), lonely);
    assert_eq!(run_verdict(&run, &trigger, &snapshot(3, 1)).unwrap_err(), "p3 received datagrams from too few players: 1");

    let mut run = good_run();
    run.insert("p3".into(), {
        let mut c = good_client(false);
        c.join_params = None;
        c
    });
    assert_eq!(run_verdict(&run, &trigger, &snapshot(3, 1)).unwrap_err(), "p3 missing join params");

    assert_eq!(run_verdict(&good_run(), &"p9".to_string(), &snapshot(3, 1)).unwrap_err(), "missing trigger player stats");

    let mut run = good_run();
    let mut t = good_client(true);
    t.cooldown_error_seen = false;
    run.insert("p1".into(), t);
    assert_eq!(run_verdict(&run, &trigger, &snapshot(3, 1)).unwrap_err(), "trigger player did not observe cooldown rejection");

    let mut run = good_run();
    let mut t = good_client(true);
    t.observed_param_state = None;
    run.insert("p1".into(), t);
    assert_eq!(run_verdict(&run, &trigger, &snapshot(3, 1)).unwrap_err(), "trigger player missing observed param state");

    let mut run = good_run();
    let mut t = good_client(true);
    t.observed_param_state = Some(levels(2, 2, 2));
    run.insert("p1".into(), t);
    assert_eq!(run_verdict(&run, &trigger, &snapshot(3, 1)).unwrap_err(), "trigger player observed wrong param state: 2/2/2");

    let mut run = good_run();
    let mut t = good_client(true);
    t.next_param_change_at_unix = None;
    run.insert("p1".into(), t);
    assert_eq!(run_verdict(&run, &trigger, &snapshot(3, 1)).unwrap_err(), "trigger player missing cooldown timestamp");

    assert_eq!(run_verdict(&good_run(), &trigger, &Vec::new()).unwrap_err(), "trigger player missing from room snapshot");
    assert_eq!(run_verdict(&good_run(), &trigger, &snapshot(2, 1)).unwrap_err(), "room snapshot state mismatch: 2/2/2");
    assert_eq!(run_verdict(&good_run(), &trigger, &snapshot(3, 0)).unwrap_err(), "room snapshot missing cooldown timestamp");
}
