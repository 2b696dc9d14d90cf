use blast_arena::client::input::InputState;
use blast_arena::client::{ClientPhase, Frame, Game};
use blast_arena::constants::AXIS_UNIT;
use blast_arena::game::GameInstance;
use blast_arena::protocol::{ClientMsg, ServerMsg};

fn playing() -> Game {
    let mut game = Game::new();
    let mut server = GameInstance::new();
    server.add_player(0, String::from("ann"));
    server.add_player(1, String::from("bob"));
    game.receive(ServerMsg::Welcome { player_id: 1, room_id: String::from("abcd0123") });
    game.receive(ServerMsg::GameStart { map: server.map_rows(), players: server.player_states() });
    game
}

#[test]
fn a_new_client_is_connecting_and_knows_nothing() {
    let game = Game::new();
    assert_eq!(game.phase(), ClientPhase::Connecting);
    assert_eq!(game.my_id(), 0);
    assert_eq!(game.tick(), 0);
    assert!(game.map().is_empty());
    assert!(game.players().is_empty());
    assert!(game.bombs().is_empty());
    assert!(game.explosions().is_empty());
    assert!(game.items().is_empty());
}

#[test]
fn messages_move_the_client_through_its_phases() {
    let mut game = Game::new();
    game.receive(ServerMsg::Welcome { player_id: 3, room_id: String::from("abcd0123") });
    assert_eq!(game.my_id(), 3);
    assert_eq!(game.phase(), ClientPhase::Connecting);
    game.receive(ServerMsg::Waiting { player_count: 1, need: 2 });
    assert_eq!(game.phase(), ClientPhase::Waiting { count: 1, need: 2 });
    let mut server = GameInstance::new();
    server.add_player(0, String::from("ann"));
    game.receive(ServerMsg::GameStart { map: server.map_rows(), players: server.player_states() });
    assert_eq!(game.phase(), ClientPhase::Playing);
    assert_eq!(*game.map(), server.map_rows());
    assert_eq!(*game.players(), server.player_states());
    game.receive(ServerMsg::GameOver { winner: None });
    assert_eq!(game.phase(), ClientPhase::GameOver { winner: None });
    game.receive(ServerMsg::GameOver { winner: Some(3) });
    assert_eq!(game.phase(), ClientPhase::GameOver { winner: Some(3) });
}

#[test]
fn a_snapshot_replaces_what_the_client_knows_and_keeps_its_phase() {
    let mut game = playing();
    let mut server = GameInstance::new();
    server.add_player(0, String::from("ann"));
    server.start();
    server.place_bomb(0);
    server.create_explosion(1, 1, 0);
    server.tick();
    game.receive(server.get_state_msg());
    assert_eq!(game.phase(), ClientPhase::Playing);
    assert_eq!(game.tick(), 1);
    assert_eq!(game.bombs().len(), 1);
    assert_eq!(game.bombs()[0].timer, 39);
    assert_eq!(game.explosions().len(), 1);
    assert_eq!(game.players().len(), 1);
    assert_eq!(game.my_id(), 1);
}

#[test]
fn messages_are_taken_in_order() {
    let mut game = Game::new();
    game.process_network(vec![
        ServerMsg::Waiting { player_count: 1, need: 2 },
        ServerMsg::Welcome { player_id: 1, room_id: String::from("r") },
        ServerMsg::GameOver { winner: Some(0) },
        ServerMsg::Waiting { player_count: 2, need: 2 },
    ]);
    assert_eq!(game.phase(), ClientPhase::Waiting { count: 2, need: 2 });
    assert_eq!(game.my_id(), 1);
    game.process_network(vec![]);
    assert_eq!(game.phase(), ClientPhase::Waiting { count: 2, need: 2 });
}

#[test]
fn a_connected_client_asks_for_a_seat_once() {
    let mut game = Game::new();
    let mut input = InputState::new();
    assert!(game.update(vec![], false, &mut input, String::from("Player7")).is_empty());
    assert_eq!(
        game.update(vec![], true, &mut input, String::from("Player7")),
        vec![ClientMsg::Join { name: String::from("Player7") }]
    );
    assert!(game.update(vec![], true, &mut input, String::from("Player8")).is_empty());
}

#[test]
fn a_waiting_client_sends_nothing() {
    let mut game = Game::new();
    let mut input = InputState::new();
    input.key_down("ArrowUp");
    input.key_down(" ");
    let out = game.update(
        vec![ServerMsg::Waiting { player_count: 1, need: 2 }],
        true,
        &mut input,
        String::from("Player7"),
    );
    assert!(out.is_empty());
    assert!(!input.wants_bomb());
}

#[test]
fn a_playing_client_reports_changed_axes_and_bombs() {
    let mut game = playing();
    let mut input = InputState::new();
    let name = || String::from("n");
    assert!(game.update(vec![], true, &mut input, name()).is_empty());
    input.key_down("d");
    input.key_down(" ");
    assert_eq!(
        game.update(vec![], true, &mut input, name()),
        vec![ClientMsg::Move { dx: AXIS_UNIT, dy: 0 }, ClientMsg::PlaceBomb]
    );
    // the same keys held: nothing new to say, and the bomb key is spent
    assert!(game.update(vec![], true, &mut input, name()).is_empty());
    input.key_up("d");
    assert_eq!(game.update(vec![], true, &mut input, name()), vec![ClientMsg::Move { dx: 0, dy: 0 }]);
    input.key_up(" ");
    input.key_down(" ");
    assert_eq!(game.update(vec![], true, &mut input, name()), vec![ClientMsg::PlaceBomb]);
}

#[test]
fn a_frame_takes_in_messages_before_it_decides() {
    let mut game = playing();
    let mut input = InputState::new();
    input.key_down("ArrowLeft");
    let out = game.update(vec![ServerMsg::GameOver { winner: Some(1) }], true, &mut input, String::from("n"));
    assert!(out.is_empty());
    assert_eq!(game.phase(), ClientPhase::GameOver { winner: Some(1) });
}

#[test]
fn keys_map_to_axes_and_opposites_cancel() {
    let mut input = InputState::new();
    assert_eq!(input.get_movement(), (0, 0));
    input.key_down("ArrowUp");
    assert_eq!(input.get_movement(), (0, -1000));
    input.key_down("D");
    assert_eq!(input.get_movement(), (1000, -1000));
    input.key_down("s");
    assert_eq!(input.get_movement(), (1000, 0));
    input.key_up("ArrowUp");
    assert_eq!(input.get_movement(), (1000, 1000));
    input.key_down("a");
    input.key_down("A");
    input.key_down("ArrowLeft");
    assert_eq!(input.get_movement(), (0, 1000));
    input.key_up("D");
    assert_eq!(input.get_movement(), (-1000, 1000));
    input.key_down("w");
    input.key_down("W");
    input.key_up("s");
    assert_eq!(input.get_movement(), (-AXIS_UNIT, -AXIS_UNIT));
    input.key_down("S");
    input.key_down("ArrowDown");
    input.key_down("ArrowRight");
    input.key_down("d");
    assert_eq!(input.get_movement(), (0, 0));
    input.key_down("x");
    assert_eq!(input.get_movement(), (0, 0));
}

#[test]
fn a_key_is_just_pressed_once_per_press() {
    let mut input = InputState::new();
    assert!(!input.wants_bomb());
    input.key_down(" ");
    assert!(input.is_key_down(" "));
    assert!(input.is_key_just_pressed(" "));
    assert!(input.wants_bomb());
    input.clear_frame();
    assert!(input.is_key_down(" "));
    assert!(!input.is_key_just_pressed(" "));
    // auto-repeat of a held key is no new press
    input.key_down(" ");
    assert!(!input.wants_bomb());
    input.key_up(" ");
    assert!(!input.is_key_down(" "));
    input.key_down(" ");
    assert!(input.wants_bomb());
    // a key released within the frame was still just pressed
    input.key_up(" ");
    assert!(input.wants_bomb());
    assert!(!input.is_key_down(" "));
    input.key_up("never");
    assert!(!input.is_key_down("never"));
}

#[test]
fn each_phase_has_its_frame() {
    let mut game = Game::new();
    assert_eq!(game.render(), Frame::Waiting { count: 0, need: 2 });
    game.receive(ServerMsg::Waiting { player_count: 1, need: 2 });
    assert_eq!(game.render(), Frame::Waiting { count: 1, need: 2 });
    let game = playing();
    assert_eq!(game.render(), Frame::Playing);
    let mut game = playing();
    game.receive(ServerMsg::GameOver { winner: Some(1) });
    assert_eq!(game.render(), Frame::GameOver { winner: Some(1) });
}
