use mini_rts::economy::PlayerEconomy;
use mini_rts::faction::Faction;
use mini_rts::kinds::{ClientPlatform, FactionColor, GameMode};
use mini_rts::lobby::LobbyOutcome;
use mini_rts::matchmaker::{Matchmaker, PlayerSession, Room};

fn session(peer_id: u64, name: &str, room_id: u32, faction: Faction, color: FactionColor, platform: ClientPlatform) -> PlayerSession {
    PlayerSession { peer_id, name: name.to_string(), room_id, faction, color, platform }
}

fn plain_room(room_id: u32, mode: GameMode, p1: Option<u64>, p2: Option<u64>) -> Room {
    Room {
        room_id,
        room_code: None,
        mode,
        p1_peer: p1,
        p2_peer: p2,
        is_active: true,
        current_wave: 0,
        economy: PlayerEconomy::new(),
    }
}

#[test]
fn mod_test_matchmaker_room_peers_and_lookups() {
    let mut matchmaker = Matchmaker::new();
    matchmaker.players.insert(101, session(101, "Player 1", 1, Faction::Player1, FactionColor::Blue, ClientPlatform::Desktop));
    matchmaker.players.insert(102, session(102, "Player 2", 1, Faction::Player2, FactionColor::Red, ClientPlatform::Mobile));
    matchmaker.insert_room(Room::new(1, None, GameMode::Multiplayer1v1, Some(101), Some(102)));
    matchmaker.players.insert(201, session(201, "Solo Commander", 2, Faction::Player1, FactionColor::Teal, ClientPlatform::Desktop));
    matchmaker.insert_room(Room::new(2, None, GameMode::SoloVsAi, Some(201), None));

    assert_eq!(matchmaker.get_room_peers(1), vec![101, 102]);
    assert_eq!(matchmaker.get_room_peers(2), vec![201]);
    assert_eq!(matchmaker.get_room_peers(999), Vec::<u64>::new());

    assert_eq!(matchmaker.get_peer_room(101), Some(1));
    assert_eq!(matchmaker.get_peer_room(102), Some(1));
    assert_eq!(matchmaker.get_peer_room(201), Some(2));
    assert_eq!(matchmaker.get_peer_room(999), None);

    assert_eq!(matchmaker.get_peer_faction(101), Some(Faction::Player1));
    assert_eq!(matchmaker.get_peer_faction(102), Some(Faction::Player2));
}

#[test]
fn game_session_test_matchmaker_room_peers_and_lookups() {
    let mut matchmaker = Matchmaker::new();
    matchmaker.players.insert(101, session(101, "Player 1", 1, Faction::Player1, FactionColor::Blue, ClientPlatform::Desktop));
    matchmaker.players.insert(102, session(102, "Player 2", 1, Faction::Player2, FactionColor::Red, ClientPlatform::Desktop));
    matchmaker.insert_room(plain_room(1, GameMode::Multiplayer1v1, Some(101), Some(102)));
    matchmaker.players.insert(201, session(201, "Solo Commander", 2, Faction::Player1, FactionColor::Teal, ClientPlatform::Desktop));
    matchmaker.insert_room(plain_room(2, GameMode::SoloVsAi, Some(201), None));

    assert_eq!(matchmaker.get_room_peers(1), vec![101, 102]);
    assert_eq!(matchmaker.get_room_peers(2), vec![201]);
    assert_eq!(matchmaker.get_room_peers(999), Vec::<u64>::new());

    assert_eq!(matchmaker.get_peer_room(101), Some(1));
    assert_eq!(matchmaker.get_peer_room(102), Some(1));
    assert_eq!(matchmaker.get_peer_room(201), Some(2));
    assert_eq!(matchmaker.get_peer_room(999), None);

    assert_eq!(matchmaker.get_peer_faction(101), Some(Faction::Player1));
    assert_eq!(matchmaker.get_peer_faction(102), Some(Faction::Player2));
}

#[test]
fn mod_test_matchmaker_lifecycle_and_telemetry() {
    let mut matchmaker = Matchmaker::new();
    assert_eq!(matchmaker.get_telemetry(), (0, 0, 10, 0, 10, 0));

    matchmaker.insert_room(Room::new(1, None, GameMode::Multiplayer1v1, Some(101), Some(102)));
    matchmaker.players.insert(101, session(101, "P1", 1, Faction::Player1, FactionColor::Blue, ClientPlatform::Desktop));
    matchmaker.players.insert(102, session(102, "P2", 1, Faction::Player2, FactionColor::Red, ClientPlatform::Mobile));
    matchmaker.insert_room(Room::new(2, None, GameMode::SoloVsAi, Some(201), None));
    matchmaker.players.insert(201, session(201, "Solo", 2, Faction::Player1, FactionColor::Amber, ClientPlatform::Desktop));

    assert_eq!(matchmaker.get_telemetry(), (0, 1, 10, 1, 10, 3));

    matchmaker.deactivate_room(1);
    assert_eq!(matchmaker.active_1v1_count(), 0);
    assert_eq!(matchmaker.get_telemetry(), (0, 0, 10, 1, 10, 3));

    matchmaker.remove_room(1);
    matchmaker.players.remove(&101);
    matchmaker.players.remove(&102);
    assert_eq!(matchmaker.get_telemetry(), (0, 0, 10, 1, 10, 1));

    matchmaker.remove_room(2);
    matchmaker.players.remove(&201);
    assert_eq!(matchmaker.get_telemetry(), (0, 0, 10, 0, 10, 0));
}

#[test]
fn game_session_test_matchmaker_lifecycle_and_telemetry() {
    let mut matchmaker = Matchmaker::new();
    assert_eq!(matchmaker.get_telemetry(), (0, 0, 10, 0, 10, 0));

    matchmaker.insert_room(plain_room(1, GameMode::Multiplayer1v1, Some(101), Some(102)));
    matchmaker.players.insert(101, session(101, "P1", 1, Faction::Player1, FactionColor::Blue, ClientPlatform::Desktop));
    matchmaker.players.insert(102, session(102, "P2", 1, Faction::Player2, FactionColor::Red, ClientPlatform::Desktop));
    matchmaker.insert_room(plain_room(2, GameMode::SoloVsAi, Some(201), None));
    matchmaker.players.insert(201, session(201, "Solo", 2, Faction::Player1, FactionColor::Amber, ClientPlatform::Desktop));

    assert_eq!(matchmaker.get_telemetry(), (0, 1, 10, 1, 10, 3));

    matchmaker.deactivate_room(1);
    assert_eq!(matchmaker.active_1v1_count(), 0);
    assert_eq!(matchmaker.get_telemetry(), (0, 0, 10, 1, 10, 3));

    matchmaker.remove_room(1);
    matchmaker.players.remove(&101);
    matchmaker.players.remove(&102);
    assert_eq!(matchmaker.get_telemetry(), (0, 0, 10, 1, 10, 1));

    matchmaker.remove_room(2);
    matchmaker.players.remove(&201);
    assert_eq!(matchmaker.get_telemetry(), (0, 0, 10, 0, 10, 0));
}

#[test]
fn test_matchmaker_connected_peers_telemetry() {
    let mut matchmaker = Matchmaker::new();
    assert_eq!(matchmaker.get_telemetry(), (0, 0, 10, 0, 10, 0));

    matchmaker.connected_peers.insert(10);
    matchmaker.connected_peers.insert(20);
    matchmaker.connected_peers.insert(30);
    assert_eq!(matchmaker.get_telemetry(), (0, 0, 10, 0, 10, 3));

    matchmaker.connected_peers.remove(&20);
    assert_eq!(matchmaker.get_telemetry(), (0, 0, 10, 0, 10, 2));

    matchmaker.connected_peers.clear();
    assert_eq!(matchmaker.get_telemetry(), (0, 0, 10, 0, 10, 0));
}

fn custom_private_room_matching_by_code() {
    let mut mm = Matchmaker::new();
    let created = mm.join_lobby(101, "Alice".to_string(), GameMode::CustomPrivate, None, Some(FactionColor::Teal), ClientPlatform::Desktop);
    let (room_id, code) = match created {
        LobbyOutcome::PrivateRoomCreated { room_id, code } => (room_id, code),
        other => panic!("unexpected outcome {:?}", other),
    };
    assert_eq!(code.len(), 4, "Room code must be 4 characters");
    let waiting = mm.rooms.iter().find(|r| r.room_id == room_id).unwrap();
    assert!(!waiting.is_active, "Room should wait for opponent");

    let joined = mm.join_lobby(102, "Bob".to_string(), GameMode::CustomPrivate, Some(code.clone()), Some(FactionColor::Red), ClientPlatform::Desktop);
    match joined {
        LobbyOutcome::PrivateRoomJoined { room_id: rid, host_peer, .. } => {
            assert_eq!(rid, room_id);
            assert_eq!(host_peer, 101);
        }
        other => panic!("unexpected outcome {:?}", other),
    }
    let room = mm.rooms.iter().find(|r| r.room_code.as_deref() == Some(code.as_str())).unwrap();
    assert!(room.is_active);
    assert_eq!(room.p1_peer, Some(101));
    assert_eq!(room.p2_peer, Some(102));
}

#[test]
fn tests_test_custom_private_room_matching_by_code() {
    custom_private_room_matching_by_code();
}

#[test]
fn sim_systems_test_custom_private_room_matching_by_code() {
    custom_private_room_matching_by_code();
}

fn queue_cancellation_and_telemetry() {
    let mut mm = Matchmaker::new();
    let res = mm.join_lobby(101, "Player 101".to_string(), GameMode::Multiplayer1v1, None, Some(FactionColor::Blue), ClientPlatform::Desktop);
    assert!(matches!(res, LobbyOutcome::Queued));
    assert_eq!(mm.waiting_1v1_peer, Some(101));
    assert_eq!(mm.get_telemetry().0, 1);

    assert!(mm.cancel_queue(101), "Must acknowledge the cancellation");
    assert_eq!(mm.waiting_1v1_peer, None);
    assert_eq!(mm.get_telemetry().0, 0);
    assert!(!mm.cancel_queue(101));
}

#[test]
fn tests_test_queue_cancellation_and_telemetry() {
    queue_cancellation_and_telemetry();
}

#[test]
fn sim_systems_test_queue_cancellation_and_telemetry() {
    queue_cancellation_and_telemetry();
}

fn match_found_triggers_3s_countdown() {
    let mut mm = Matchmaker::new();
    mm.join_lobby(101, "Alice".to_string(), GameMode::Multiplayer1v1, None, Some(FactionColor::Blue), ClientPlatform::Desktop);
    let res = mm.join_lobby(102, "Bob".to_string(), GameMode::Multiplayer1v1, None, Some(FactionColor::Red), ClientPlatform::Desktop);
    match res {
        LobbyOutcome::PvpMatched { room_id, host_peer, host_name, host_color, guest_color } => {
            assert_eq!(room_id, 1);
            assert_eq!(host_peer, 101);
            assert_eq!(host_name, "Alice");
            assert_eq!(host_color, FactionColor::Blue);
            assert_eq!(guest_color, FactionColor::Red);
        }
        other => panic!("unexpected outcome {:?}", other),
    }
    assert_eq!(mm.get_room_peers(1), vec![101, 102]);
    assert_eq!(mm.get_peer_faction(101), Some(Faction::Player1));
    assert_eq!(mm.get_peer_faction(102), Some(Faction::Player2));
}

#[test]
fn tests_test_match_found_triggers_3s_countdown() {
    match_found_triggers_3s_countdown();
}

#[test]
fn sim_systems_test_match_found_triggers_3s_countdown() {
    match_found_triggers_3s_countdown();
}

fn disconnect_cleans_up_room_entities_and_telemetry() {
    let mut mm = Matchmaker::new();
    mm.players.insert(101, session(101, "Commander", 1, Faction::Player1, FactionColor::Blue, ClientPlatform::Desktop));
    let mut room = plain_room(1, GameMode::SoloVsAi, Some(101), None);
    room.current_wave = 1;
    mm.insert_room(room);
    mm.insert_room(plain_room(2, GameMode::SoloVsAi, Some(201), None));
    mm.connected_peers.insert(101);

    let outcome = mm.disconnect_peer(101).expect("the peer held a seat");
    assert_eq!(outcome.room_id, 1);
    assert!(outcome.remaining_peers.is_empty());
    assert!(mm.rooms.iter().all(|r| r.room_id != 1), "Room 1 should be removed from matchmaker");
    assert!(mm.rooms.iter().any(|r| r.room_id == 2), "Room 2 must remain");
    assert!(!mm.players.contains_key(&101), "Player 101 should be removed");
    assert!(!mm.connected_peers.contains(&101));
}

#[test]
fn tests_test_disconnect_cleans_up_room_entities_and_telemetry() {
    disconnect_cleans_up_room_entities_and_telemetry();
}

#[test]
fn sim_systems_test_disconnect_cleans_up_room_entities_and_telemetry() {
    disconnect_cleans_up_room_entities_and_telemetry();
}

fn forfeit_cleans_up_room_entities_and_telemetry() {
    let mut mm = Matchmaker::new();
    mm.players.insert(101, session(101, "SoloCommander", 1, Faction::Player1, FactionColor::Blue, ClientPlatform::Desktop));
    let mut room = plain_room(1, GameMode::SoloVsAi, Some(101), None);
    room.current_wave = 1;
    mm.insert_room(room);
    assert_eq!(mm.active_solo_count(), 1);

    let outcome = mm.leave_active_match(101).expect("the peer held a seat");
    assert_eq!(outcome.room_id, 1);
    assert!(mm.rooms.iter().all(|r| r.room_id != 1), "Room 1 should be removed from matchmaker on forfeit");
    assert_eq!(mm.active_solo_count(), 0, "Active solo matches must drop to 0");
    assert_eq!(mm.get_telemetry().3, 0);
}

#[test]
fn tests_test_forfeit_cleans_up_room_entities_and_telemetry() {
    forfeit_cleans_up_room_entities_and_telemetry();
}

#[test]
fn sim_systems_test_forfeit_cleans_up_room_entities_and_telemetry() {
    forfeit_cleans_up_room_entities_and_telemetry();
}

fn chat_and_ping_dispatching() {
    let mut mm = Matchmaker::new();
    mm.players.insert(101, session(101, "Alice", 1, Faction::Player1, FactionColor::Blue, ClientPlatform::Desktop));
    mm.players.insert(102, session(102, "Bob", 1, Faction::Player2, FactionColor::Red, ClientPlatform::Desktop));
    mm.insert_room(plain_room(1, GameMode::Multiplayer1v1, Some(101), Some(102)));

    assert_eq!(mm.room_audience(101), Some(vec![101, 102]));
    assert_eq!(mm.room_audience(102), Some(vec![101, 102]));
    assert_eq!(mm.room_audience(999), None);
}

#[test]
fn tests_test_chat_and_ping_dispatching() {
    chat_and_ping_dispatching();
}

#[test]
fn sim_systems_test_chat_and_ping_dispatching() {
    chat_and_ping_dispatching();
}

#[test]
fn solo_join_seats_player_in_new_room() {
    let mut mm = Matchmaker::new();
    let res = mm.join_lobby(7, "Solo".to_string(), GameMode::SoloVsAi, None, None, ClientPlatform::Mobile);
    assert!(matches!(res, LobbyOutcome::SoloStarted { room_id: 1 }));
    assert_eq!(mm.next_room_id, 2);
    assert_eq!(mm.get_peer_room(7), Some(1));
    assert_eq!(mm.get_room_peers(1), vec![7]);
    assert_eq!(mm.players.get(&7).unwrap().color, FactionColor::Blue);
    let room = mm.rooms.iter().find(|r| r.room_id == 1).unwrap();
    assert_eq!(room.economy.get_supply(Faction::Player1), (2, 10));
    assert_eq!(room.economy.get_supply(Faction::HostileAi), (2, 10));
    assert_eq!(room.economy.get_minerals(Faction::Player1), 200);
}

#[test]
fn solo_capacity_is_enforced() {
    let mut mm = Matchmaker::new();
    for i in 0..10u64 {
        let res = mm.join_lobby(100 + i, "P".to_string(), GameMode::SoloVsAi, None, None, ClientPlatform::Desktop);
        assert!(matches!(res, LobbyOutcome::SoloStarted { .. }));
    }
    assert!(!mm.can_start_solo());
    let res = mm.join_lobby(200, "Late".to_string(), GameMode::SoloVsAi, None, None, ClientPlatform::Desktop);
    assert!(matches!(res, LobbyOutcome::SoloCapacityFull));
    assert_eq!(mm.rooms.len(), 10);
    assert_eq!(mm.get_peer_room(200), None);
}

#[test]
fn guest_with_host_colour_plays_red() {
    let mut mm = Matchmaker::new();
    mm.join_lobby(1, "Host".to_string(), GameMode::Multiplayer1v1, None, Some(FactionColor::Teal), ClientPlatform::Desktop);
    let res = mm.join_lobby(2, "Guest".to_string(), GameMode::Multiplayer1v1, None, Some(FactionColor::Teal), ClientPlatform::Desktop);
    match res {
        LobbyOutcome::PvpMatched { guest_color, host_color, .. } => {
            assert_eq!(host_color, FactionColor::Teal);
            assert_eq!(guest_color, FactionColor::Red);
        }
        other => panic!("unexpected outcome {:?}", other),
    }
}

#[test]
fn unknown_private_code_is_refused() {
    let mut mm = Matchmaker::new();
    let res = mm.join_lobby(5, "X".to_string(), GameMode::CustomPrivate, Some("ZZZZ".to_string()), None, ClientPlatform::Desktop);
    assert!(matches!(res, LobbyOutcome::PrivateRoomNotFound));
    assert!(mm.players.is_empty());
}

#[test]
fn private_code_is_matched_trimmed_and_upper_case() {
    let mut mm = Matchmaker::new();
    let code = match mm.join_lobby(1, "Host".to_string(), GameMode::CustomPrivate, None, None, ClientPlatform::Desktop) {
        LobbyOutcome::PrivateRoomCreated { code, .. } => code,
        other => panic!("unexpected outcome {:?}", other),
    };
    let typed = format!("  {}  ", code.to_lowercase());
    assert_eq!(mm.find_room_by_code(&typed), Some(1));
    assert_eq!(mm.find_room_by_code(&code.to_lowercase()), mm.find_room_by_code(&code));
    // Unicode white space (ideographic space, no-break space) is trimmed as well.
    let wide = format!("\u{3000}{}\u{a0}", code);
    assert_eq!(mm.find_room_by_code(&wide), Some(1));
}

#[test]
fn padded_lower_case_code_joins_the_private_room() {
    let mut mm = Matchmaker::new();
    let (room_id, code) = match mm.join_lobby(7, "Host".to_string(), GameMode::CustomPrivate, None, None, ClientPlatform::Desktop) {
        LobbyOutcome::PrivateRoomCreated { room_id, code } => (room_id, code),
        other => panic!("unexpected outcome {:?}", other),
    };
    let typed = format!("\t {} \n", code.to_lowercase());
    match mm.join_lobby(8, "Guest".to_string(), GameMode::CustomPrivate, Some(typed), None, ClientPlatform::Desktop) {
        LobbyOutcome::PrivateRoomJoined { room_id: rid, host_peer, .. } => {
            assert_eq!(rid, room_id);
            assert_eq!(host_peer, 7);
        }
        other => panic!("unexpected outcome {:?}", other),
    }
    assert_eq!(mm.players.get(&8).map(|p| p.room_id), Some(room_id));
}

#[test]
fn room_code_generation_exact_values() {
    let mut mm = Matchmaker::new();
    // seed = 2 * 1103515245 + 12345 = 0x838C_CD13
    mm.next_room_id = 2;
    assert_eq!(mm.generate_room_code(), "VTPN");
    // A room already using that code switches to the hexadecimal form of 2 * 7919 = 0x3DDE.
    let mut taken = Room::new(9, Some("VTPN".to_string()), GameMode::CustomPrivate, Some(1), None);
    taken.is_active = false;
    mm.insert_room(taken);
    assert_eq!(mm.generate_room_code(), "3DDE");
}

#[test]
fn room_codes_wrap_around_for_large_room_ids() {
    let mut mm = Matchmaker::new();
    // 1000 * 1103515245 + 12345 wraps around in 32 bits.
    mm.next_room_id = 1000;
    assert_eq!(mm.generate_room_code(), "BALJ");
    let mut taken = Room::new(9, Some("BALJ".to_string()), GameMode::CustomPrivate, Some(1), None);
    taken.is_active = false;
    mm.insert_room(taken);
    // 1000 * 7919 = 7_919_000, and 7_919_000 % 65535 = 0xD610.
    assert_eq!(mm.generate_room_code(), "D610");
    mm.next_room_id = 4_000_000_000;
    assert_eq!(mm.generate_room_code(), "3D2D");
}

#[test]
fn private_rooms_keep_opening_beyond_the_first_ids() {
    let mut mm = Matchmaker::new();
    mm.next_room_id = 500;
    let code = match mm.join_lobby(1, "Host".to_string(), GameMode::CustomPrivate, None, None, ClientPlatform::Desktop) {
        LobbyOutcome::PrivateRoomCreated { code, .. } => code,
        other => panic!("unexpected outcome {:?}", other),
    };
    assert_eq!(code.len(), 4);
    assert_eq!(mm.find_room_by_code(&code), Some(500));
}

#[test]
fn net_ids_are_handed_out_in_order() {
    let mut mm = Matchmaker::new();
    assert_eq!(mm.alloc_net_id(), 1000);
    assert_eq!(mm.alloc_net_id(), 1001);
    assert_eq!(mm.next_net_id, 1002);
}

#[test]
fn player_and_room_defaults_for_unknown_peer() {
    let mut mm = Matchmaker::new();
    assert_eq!(mm.get_player_and_room(5), (Faction::Player1, 0));
    mm.players.insert(5, session(5, "A", 3, Faction::Player2, FactionColor::Red, ClientPlatform::Desktop));
    assert_eq!(mm.get_player_and_room(5), (Faction::Player2, 3));
}

#[test]
fn leaving_a_1v1_names_the_other_side_winner() {
    let mut mm = Matchmaker::new();
    mm.join_lobby(1, "A".to_string(), GameMode::Multiplayer1v1, None, None, ClientPlatform::Desktop);
    mm.join_lobby(2, "B".to_string(), GameMode::Multiplayer1v1, None, None, ClientPlatform::Desktop);
    let out = mm.leave_active_match(2).unwrap();
    assert_eq!(out.room_id, 1);
    assert_eq!(out.remaining_peers, vec![1]);
    assert_eq!(out.winning_faction, Faction::Player1);
    assert!(mm.rooms.is_empty());
    assert!(mm.leave_active_match(2).is_none());
}

#[test]
fn room_ids_stay_unique_and_below_the_next_id() {
    let mut mm = Matchmaker::new();
    mm.join_lobby(1, "A".to_string(), GameMode::SoloVsAi, None, None, ClientPlatform::Desktop);
    mm.join_lobby(2, "B".to_string(), GameMode::Multiplayer1v1, None, None, ClientPlatform::Desktop);
    mm.join_lobby(3, "C".to_string(), GameMode::Multiplayer1v1, None, None, ClientPlatform::Desktop);
    mm.leave_active_match(1);
    mm.join_lobby(4, "D".to_string(), GameMode::SoloVsAi, None, None, ClientPlatform::Desktop);
    mm.disconnect_peer(2);
    mm.join_lobby(5, "E".to_string(), GameMode::SoloVsAi, None, None, ClientPlatform::Desktop);
    let mut ids: Vec<u32> = mm.rooms.iter().map(|r| r.room_id).collect();
    assert!(ids.iter().all(|id| *id < mm.next_room_id));
    let n = ids.len();
    ids.sort();
    ids.dedup();
    assert_eq!(ids.len(), n);
    assert_eq!(ids, vec![3, 4]);
}

#[test]
fn decided_matches_end_and_others_keep_running() {
    let mut mm = Matchmaker::new();
    let mut solo = Room::new(1, None, GameMode::SoloVsAi, Some(1), None);
    solo.is_active = true;
    let mut pvp = Room::new(2, None, GameMode::Multiplayer1v1, Some(2), Some(3));
    pvp.is_active = true;
    let mut even = Room::new(3, None, GameMode::Multiplayer1v1, Some(4), Some(5));
    even.is_active = true;
    mm.insert_room(solo);
    mm.insert_room(pvp);
    mm.insert_room(even);
    // Room 1: only the AI's headquarters stands; room 2: only Player 1's; room 3: both.
    let hqs = vec![
        (Faction::HostileAi, 1),
        (Faction::Player1, 2),
        (Faction::Player1, 3),
        (Faction::Player2, 3),
    ];
    let ended = mm.settle_outcomes(&hqs);
    assert_eq!(ended, vec![(1, Faction::HostileAi), (2, Faction::Player1)]);
    let active: Vec<bool> = mm.rooms.iter().map(|r| r.is_active).collect();
    assert_eq!(active, vec![false, false, true]);
    assert!(mm.settle_outcomes(&hqs).is_empty());
}
