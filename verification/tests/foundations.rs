use kotatsu_realtime::keys::{insert_sorted, key_less};
use kotatsu_realtime::layout::copy_bytes;
use kotatsu_realtime::player::{locate_player, RoomError};
use kotatsu_realtime::protocol::{copy_from, push_all};
use kotatsu_realtime::room::datagram_recipients_all;
use kotatsu_realtime::state::{CoreState, MatchRoom, PeerAddr, PlayerConnection, PlayerHandle};
use kotatsu_realtime::params::PlayerParams;
use kotatsu_realtime::table::StrMap;
use kotatsu_realtime::text::{char_is_white_space, chars_of, decimal_string, push_decimal, starts_with_text, trims_to_empty};

#[test]
fn decimal_text_matches_display() {
    for n in [0u64, 7, 10, 99, 100, 4294967296, u64::MAX] {
        assert_eq!(decimal_string(n), n.to_string());
    }
    let mut s = String::from("cooldown_active:");
    push_decimal(&mut s, 130);
    assert_eq!(s, "cooldown_active:130");
}

#[test]
fn blank_text_is_what_trim_empties() {
    for text in ["", " ", "\t\n", "\u{3000}\u{a0}", " a ", "player", "\u{200b}"] {
        assert_eq!(trims_to_empty(text), text.trim().is_empty(), "{text:?}");
    }
    for c in ['\u{85}', '\u{2028}', ' ', 'x', '\u{feff}'] {
        assert_eq!(char_is_white_space(c), c.is_whitespace(), "{c:?}");
    }
}

#[test]
fn prefixes_and_characters() {
    assert_eq!(chars_of("añb"), vec!['a', 'ñ', 'b']);
    assert!(starts_with_text("cooldown_active:12", "cooldown_active:"));
    assert!(starts_with_text("abc", ""));
    assert!(!starts_with_text("cool", "cooldown_active:"));
    assert!(!starts_with_text("xooldown_active:1", "cooldown_active:"));
}

#[test]
fn keys_sort_like_strings() {
    let pairs = [("a", "b"), ("b", "a"), ("a", "a"), ("a", "ab"), ("Z", "a"), ("é", "z"), ("", "a")];
    for (a, b) in pairs {
        assert_eq!(key_less(&a.to_string(), &b.to_string()), a < b, "{a} {b}");
    }
    let mut v: Vec<String> = Vec::new();
    for k in ["m", "b", "z", "a", "é"] {
        insert_sorted(&mut v, k.to_string());
    }
    assert_eq!(v, vec!["a", "b", "m", "z", "é"]);
}

#[test]
fn string_map_behaves_as_a_map() {
    let mut m: StrMap<u32> = StrMap::new();
    m.insert("b".into(), 2);
    m.insert("a".into(), 1);
    m.insert("b".into(), 3);
    assert_eq!(m.len(), 2);
    assert_eq!(m.get(&"b".to_string()), Some(&3));
    assert!(m.contains_key(&"a".to_string()));
    assert_eq!(m.sorted_keys(), vec!["a".to_string(), "b".to_string()]);
    assert_eq!(m.remove(&"a".to_string()), Some(1));
    assert_eq!(m.remove(&"a".to_string()), None);
    assert_eq!(m.len(), 1);
    let mut n: StrMap<u32> = StrMap::new();
    for (k, v) in [("x", 1), ("y", 2), ("z", 3)] {
        n.insert(k.into(), v);
    }
    let marks: Vec<bool> = (0..n.len()).map(|i| *n.value_at(i) != 2).collect();
    n.retain_marked(&marks);
    assert_eq!(n.sorted_keys(), vec!["x".to_string(), "z".to_string()]);
}

#[test]
fn byte_copies() {
    assert_eq!(copy_from(&[1, 2, 3, 4], 1), vec![2, 3, 4]);
    assert_eq!(copy_from(&[1, 2], 2), Vec::<u8>::new());
    let mut out = vec![9];
    push_all(&mut out, &[1, 2]);
    assert_eq!(out, vec![9, 1, 2]);
    assert_eq!(copy_bytes(&vec![5, 6]), vec![5, 6]);
}

#[test]
fn locating_players_and_reaching_a_whole_room() {
    let mut core = CoreState::new();
    let mut players = StrMap::new();
    players.insert(
        "p".to_string(),
        PlayerHandle {
            display_name: "p".into(),
            params: PlayerParams::default(),
            next_param_change_at_unix: 0,
            color_index: None,
            stage_order: Vec::new(),
            current_stage_index: 0,
            connection: Some(PlayerConnection::Udp(PeerAddr { ip: 1, port: 2, is_v6: true })),
        },
    );
    players.insert(
        "q".to_string(),
        PlayerHandle {
            display_name: "q".into(),
            params: PlayerParams::default(),
            next_param_change_at_unix: 0,
            color_index: None,
            stage_order: Vec::new(),
            current_stage_index: 0,
            connection: None,
        },
    );
    core.matches.insert("m".into(), MatchRoom { players, started_at_unix: 0, last_activity_unix: 0 });
    let m = "m".to_string();
    assert_eq!(locate_player(&core, &m, &"p".to_string()), Ok(()));
    assert_eq!(locate_player(&core, &m, &"x".to_string()), Err(RoomError::PlayerNotFound));
    assert_eq!(locate_player(&core, &"n".to_string(), &"p".to_string()), Err(RoomError::MatchNotFound));
    let all = datagram_recipients_all(&core, &m).unwrap();
    assert_eq!(all.len(), 1);
    assert_eq!(all[0].player_id, "p");
    assert_eq!(all[0].addr, PeerAddr { ip: 1, port: 2, is_v6: true });
    assert!(datagram_recipients_all(&core, &"n".to_string()).is_none());
}
