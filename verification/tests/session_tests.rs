use blast_arena::constants::{AXIS_UNIT, MAP_COLS, MAP_ROWS, MAX_PLAYERS, MIN_PLAYERS, ROOM_ID_LEN};
use blast_arena::game::Phase;
use blast_arena::protocol::{ClientMsg, ServerMsg};
use blast_arena::registry::{short_id, Registry};
use blast_arena::room::{Outbound, Room};

#[test]
fn a_new_room_is_empty_and_waits_for_two() {
    let room = Room::new(String::from("abcd1234"));
    assert_eq!(room.id(), "abcd1234");
    assert_eq!(room.player_count(), 0);
    assert_eq!(room.min_players(), 2);
    assert_eq!(room.min_players(), MIN_PLAYERS);
    assert!(!room.is_ready());
    assert!(room.has_ids_left());
    assert!(room.connected().is_empty());
    assert_eq!(room.game().phase(), Phase::Idle);
}

#[test]
fn first_join_waits_and_second_join_starts() {
    let mut room = Room::new(String::from("room0001"));
    let first = room.join(String::from("ann"));
    assert_eq!(first.player_id, 0);
    assert_eq!(
        first.welcome,
        Outbound { to: vec![0], msg: ServerMsg::Welcome { player_id: 0, room_id: String::from("room0001") } }
    );
    assert_eq!(
        first.notice,
        Some(Outbound { to: vec![0], msg: ServerMsg::Waiting { player_count: 1, need: 2 } })
    );
    assert!(!first.started);
    assert_eq!(room.game().phase(), Phase::Idle);

    let second = room.join(String::from("bob"));
    assert_eq!(second.player_id, 1);
    assert_eq!(second.welcome.to, vec![1]);
    assert!(second.started);
    let notice = second.notice.expect("the session is told of the start");
    assert_eq!(notice.to, vec![0, 1]);
    match notice.msg {
        ServerMsg::GameStart { map, players } => {
            assert_eq!(map.len(), MAP_ROWS);
            assert!(map.iter().all(|row| row.len() == MAP_COLS));
            assert_eq!(map, room.game().map_rows());
            assert_eq!(players.len(), 2);
            assert_eq!(players[0].name, "ann");
            assert_eq!(players[1].name, "bob");
            assert_eq!(players, room.game().player_states());
        }
        other => panic!("expected the start of the game, not {other:?}"),
    }
    assert_eq!(room.game().phase(), Phase::Running);
    assert!(!room.is_ready());
}

#[test]
fn identities_are_sequential_and_never_reused() {
    let mut room = Room::new(String::from("r"));
    assert_eq!(room.add_player(String::from("a")), 0);
    room.remove_player(0);
    assert_eq!(room.add_player(String::from("b")), 1);
    assert_eq!(room.add_player(String::from("c")), 2);
    assert_eq!(room.connected(), vec![1, 2]);
    assert_eq!(room.player_count(), 2);
    let ids: Vec<u8> = room.game().players().iter().map(|p| p.id).collect();
    assert_eq!(ids, vec![0, 1, 2]);
}

#[test]
fn a_room_is_ready_with_two_connected_before_the_start() {
    let mut room = Room::new(String::from("r"));
    room.add_player(String::from("a"));
    assert!(!room.is_ready());
    room.add_player(String::from("b"));
    assert!(room.is_ready());
    room.remove_player(1);
    assert!(!room.is_ready());
}

#[test]
fn leaving_frees_the_seat_and_kills_the_player() {
    let mut room = Room::new(String::from("r"));
    room.join(String::from("a"));
    room.join(String::from("b"));
    room.remove_player(0);
    assert_eq!(room.connected(), vec![1]);
    assert!(!room.is_connected(0));
    assert!(room.is_connected(1));
    assert_eq!(room.game().players().len(), 2);
    assert!(!room.game().players()[0].alive);
    assert!(room.game().players()[1].alive);
    room.remove_player(0);
    room.remove_player(9);
    assert_eq!(room.connected(), vec![1]);
}

#[test]
fn a_join_below_quorum_after_a_leave_waits_again() {
    let mut room = Room::new(String::from("r"));
    room.join(String::from("a"));
    room.remove_player(0);
    let again = room.join(String::from("b"));
    assert_eq!(again.player_id, 1);
    assert_eq!(
        again.notice,
        Some(Outbound { to: vec![1], msg: ServerMsg::Waiting { player_count: 1, need: 2 } })
    );
    assert!(!again.started);
}

#[test]
fn a_join_into_a_started_game_tells_the_session_nothing() {
    let mut room = Room::new(String::from("r"));
    room.join(String::from("a"));
    room.join(String::from("b"));
    let late = room.join(String::from("c"));
    assert_eq!(late.player_id, 2);
    assert_eq!(late.notice, None);
    assert!(!late.started);
    assert_eq!(room.game().phase(), Phase::Running);
}

#[test]
fn broadcast_goes_to_every_connected_player_and_send_to_to_one() {
    let mut room = Room::new(String::from("r"));
    room.join(String::from("a"));
    room.join(String::from("b"));
    room.join(String::from("c"));
    room.remove_player(1);
    let msg = ServerMsg::GameOver { winner: Some(2) };
    assert_eq!(room.broadcast(msg.clone()), Outbound { to: vec![0, 2], msg: msg.clone() });
    assert_eq!(room.send_to(2, msg.clone()), Outbound { to: vec![2], msg: msg.clone() });
    assert_eq!(room.send_to(1, msg.clone()), Outbound { to: vec![], msg: msg.clone() });
    assert_eq!(room.send_to(77, msg.clone()), Outbound { to: vec![], msg });
}

#[test]
fn intents_reach_the_game_of_connected_players_only() {
    let mut room = Room::new(String::from("r"));
    room.join(String::from("a"));
    room.join(String::from("b"));
    room.apply_intent(0, ClientMsg::Move { dx: 4000, dy: -1 });
    assert_eq!((room.game().players()[0].dx, room.game().players()[0].dy), (AXIS_UNIT, -1));
    room.apply_intent(1, ClientMsg::PlaceBomb);
    assert_eq!(room.game().bombs().len(), 1);
    assert_eq!(room.game().bombs()[0].owner, 1);
    let before = room.game().get_state_msg();
    room.apply_intent(0, ClientMsg::Join { name: String::from("again") });
    room.apply_intent(5, ClientMsg::PlaceBomb);
    room.apply_intent(5, ClientMsg::Move { dx: 1, dy: 1 });
    room.remove_player(0);
    let after_leave = room.game().get_state_msg();
    room.apply_intent(0, ClientMsg::Move { dx: 7, dy: 7 });
    room.apply_intent(0, ClientMsg::PlaceBomb);
    assert_eq!(room.game().get_state_msg(), after_leave);
    assert_ne!(before, after_leave);
    assert_eq!(room.player_count(), 1);
}

#[test]
fn the_driver_ticks_and_reports_until_the_game_is_over() {
    let mut room = Room::new(String::from("r"));
    room.join(String::from("a"));
    room.join(String::from("b"));
    let driven = room.drive();
    assert!(driven.more);
    assert_eq!(driven.notice.to, vec![0, 1]);
    assert_eq!(driven.notice.msg, room.game().get_state_msg());
    assert_eq!(room.game().ticks(), 1);

    room.remove_player(1);
    let last_tick = room.drive();
    assert!(last_tick.more);
    assert_eq!(last_tick.notice.to, vec![0]);
    assert!(matches!(last_tick.notice.msg, ServerMsg::GameState { tick: 2, .. }));
    assert_eq!(room.game().phase(), Phase::Finished { winner: Some(0) });

    let over = room.drive();
    assert!(!over.more);
    assert_eq!(over.notice, Outbound { to: vec![0], msg: ServerMsg::GameOver { winner: Some(0) } });
    assert_eq!(room.game().ticks(), 2);
    let again = room.drive();
    assert!(!again.more);
    assert_eq!(room.game().ticks(), 2);
}

#[test]
fn the_driver_does_not_advance_an_idle_game() {
    let mut room = Room::new(String::from("r"));
    room.join(String::from("a"));
    let driven = room.drive();
    assert!(driven.more);
    assert_eq!(room.game().ticks(), 0);
    assert!(matches!(driven.notice.msg, ServerMsg::GameState { tick: 0, .. }));
}

#[test]
fn a_room_runs_out_of_identities_after_255() {
    let mut room = Room::new(String::from("r"));
    for k in 0..255u32 {
        assert!(room.has_ids_left());
        assert_eq!(room.add_player(format!("p{k}")) as u32, k);
        room.remove_player(k as u8);
    }
    assert!(!room.has_ids_left());
    assert_eq!(room.game().players().len(), 255);
    assert_eq!(room.player_count(), 0);
}

#[test]
fn short_id_takes_the_first_eight_characters() {
    assert_eq!(short_id(&String::from("0123abcd-4567-89ab-cdef-0123456789ab")), "0123abcd");
    assert_eq!(short_id(&String::from("abcdefgh")), "abcdefgh");
    assert_eq!(ROOM_ID_LEN, 8);
}

#[test]
fn the_registry_fills_a_room_before_it_opens_another() {
    let mut registry = Registry::new();
    assert_eq!(registry.len(), 0);
    assert_eq!(registry.find_open(), None);
    let a = registry.place(String::from("ann"), String::from("aaaaaaaa")).expect("placed");
    assert_eq!((a.room, a.joined.player_id, a.joined.started), (0, 0, false));
    assert_eq!(registry.find_open(), Some(0));
    // the room starts with its second player and takes no more
    let b = registry.place(String::from("bob"), String::from("bbbbbbbb")).expect("placed");
    assert_eq!((b.room, b.joined.player_id, b.joined.started), (0, 1, true));
    assert_eq!(registry.len(), 1);
    assert_eq!(registry.find_open(), None);
    let c = registry.place(String::from("cyd"), String::from("cccccccc")).expect("placed");
    assert_eq!((c.room, c.joined.player_id), (1, 0));
    assert_eq!(registry.len(), 2);
    assert_eq!(registry.room(0).unwrap().id(), "aaaaaaaa");
    assert_eq!(registry.room(1).unwrap().id(), "cccccccc");
    assert!(registry.room(2).is_none());
    match c.joined.welcome.msg {
        ServerMsg::Welcome { player_id, room_id } => {
            assert_eq!(player_id, 0);
            assert_eq!(room_id, "cccccccc");
        }
        other => panic!("expected a welcome, not {other:?}"),
    }
}

#[test]
fn a_taken_identifier_opens_no_room() {
    let mut registry = Registry::new();
    registry.place(String::from("ann"), String::from("aaaaaaaa")).expect("placed");
    registry.place(String::from("bob"), String::from("bbbbbbbb")).expect("placed");
    assert!(registry.has_id(&String::from("aaaaaaaa")));
    assert!(!registry.has_id(&String::from("bbbbbbbb")));
    assert_eq!(registry.find(&String::from("aaaaaaaa")), Some(0));
    assert_eq!(registry.find(&String::from("bbbbbbbb")), None);
    let refused = registry.place(String::from("cyd"), String::from("aaaaaaaa"));
    assert_eq!(refused, None);
    assert_eq!(registry.len(), 1);
    assert_eq!(registry.room(0).unwrap().player_count(), 2);
}

#[test]
fn an_idle_room_with_a_free_seat_takes_up_to_four() {
    let mut registry = Registry::new();
    registry.place(String::from("a"), String::from("aaaaaaaa")).expect("placed");
    // the only player leaves; the room stays, idle and open
    registry.remove_player(0, 0);
    assert_eq!(registry.find_open(), Some(0));
    let b = registry.place(String::from("b"), String::from("bbbbbbbb")).expect("placed");
    assert_eq!((b.room, b.joined.player_id), (0, 1));
    assert_eq!(registry.len(), 1);
    assert_eq!(MAX_PLAYERS, 4);
}

#[test]
fn join_draws_an_identifier_of_eight_hex_digits() {
    let mut registry = Registry::new();
    let mut ids = Vec::new();
    for round in 0..6 {
        let placed = registry.join(format!("p{round}")).expect("a fresh identifier");
        assert_eq!(placed.room, round / 2);
        assert_eq!(placed.joined.player_id as usize, round % 2);
        let id = registry.room(placed.room).unwrap().id().clone();
        assert_eq!(id.chars().count(), ROOM_ID_LEN);
        assert!(id.chars().all(|c| c.is_ascii_hexdigit() && !c.is_ascii_uppercase()), "{id}");
        if round % 2 == 0 {
            ids.push(id);
        }
    }
    assert_eq!(registry.len(), 3);
    assert_ne!(ids[0], ids[1]);
    assert_ne!(ids[1], ids[2]);
    assert_ne!(ids[0], ids[2]);
}

#[test]
fn the_registry_forwards_to_the_room_and_ignores_missing_rooms() {
    let mut registry = Registry::new();
    registry.place(String::from("a"), String::from("aaaaaaaa")).expect("placed");
    registry.place(String::from("b"), String::from("bbbbbbbb")).expect("placed");
    registry.apply_intent(0, 0, ClientMsg::PlaceBomb);
    registry.apply_intent(3, 0, ClientMsg::PlaceBomb);
    assert_eq!(registry.room(0).unwrap().game().bombs().len(), 1);
    let driven = registry.drive(0).expect("the room exists");
    assert!(driven.more);
    assert_eq!(registry.room(0).unwrap().game().ticks(), 1);
    assert_eq!(registry.drive(1), None);
    registry.remove_player(1, 0);
    registry.remove_player(0, 1);
    assert_eq!(registry.room(0).unwrap().connected(), vec![0]);
    assert!(registry.drive(0).unwrap().more);
    assert_eq!(registry.room(0).unwrap().game().phase(), Phase::Finished { winner: Some(0) });
    assert!(!registry.drive(0).unwrap().more);
}
