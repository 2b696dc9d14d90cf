use blast_arena::constants::{
    AXIS_UNIT, BOMB_TIMER_TICKS, DEFAULT_BOMB_RANGE, DEFAULT_MAX_BOMBS, DEFAULT_SPEED,
    EXPLOSION_DURATION_TICKS, MAP_COLS, MAP_ROWS, MAX_X, MAX_Y, TILE_UNITS,
};
use blast_arena::game::movement::can_move_to;
use blast_arena::game::{Bomb, Explosion, GameInstance, Phase, Rubble};
use blast_arena::map::{GameMap, Tile};
use blast_arena::protocol::{BombState, ExplosionState, ServerMsg};

fn open_field() -> GameMap {
    [[Tile::Empty; MAP_COLS]; MAP_ROWS]
}

fn solo_on(map: GameMap) -> GameInstance {
    let mut game = GameInstance::with_map(map);
    game.add_player(0, String::from("ann"));
    game.start();
    game
}

fn cells(explosions: &[Explosion]) -> Vec<(usize, usize)> {
    explosions.iter().map(|e| (e.x, e.y)).collect()
}

fn tick_n(game: &mut GameInstance, n: u32) {
    for _ in 0..n {
        game.tick();
    }
}

#[test]
fn new_game_is_idle_and_empty_on_the_generated_arena() {
    let game = GameInstance::new();
    assert_eq!(game.phase(), Phase::Idle);
    assert!(!game.running());
    assert!(!game.finished());
    assert_eq!(game.winner(), None);
    assert_eq!(game.ticks(), 0);
    assert!(game.players().is_empty());
    assert!(game.bombs().is_empty());
    assert!(game.explosions().is_empty());
    assert!(game.items().is_empty());
    assert_eq!(*game.map(), blast_arena::map::generate_map());
}

#[test]
fn players_spawn_on_the_corners_in_order_with_defaults() {
    let mut game = GameInstance::new();
    for (id, name) in ["a", "b", "c", "d"].iter().enumerate() {
        game.add_player(id as u8, name.to_string());
    }
    let spots: Vec<(i64, i64)> = game.players().iter().map(|p| (p.x, p.y)).collect();
    assert_eq!(spots, vec![(0, 0), (MAX_X, 0), (0, MAX_Y), (MAX_X, MAX_Y)]);
    assert_eq!(MAX_X, 14 * TILE_UNITS);
    assert_eq!(MAX_Y, 12 * TILE_UNITS);
    for (i, p) in game.players().iter().enumerate() {
        assert_eq!(p.id, i as u8);
        assert_eq!(p.color_index, i as u8);
        assert!(p.alive);
        assert_eq!(p.speed, DEFAULT_SPEED);
        assert_eq!(p.speed, 2000);
        assert_eq!(p.bomb_range, DEFAULT_BOMB_RANGE);
        assert_eq!(p.max_bombs, DEFAULT_MAX_BOMBS);
        assert_eq!(p.active_bombs, 0);
        assert_eq!((p.dx, p.dy), (0, 0));
    }
    assert_eq!(game.players()[2].name, "c");
}

#[test]
fn a_fifth_player_shares_the_last_slot() {
    let mut game = GameInstance::new();
    for id in 0..5u8 {
        game.add_player(id, format!("p{id}"));
    }
    let last = &game.players()[4];
    assert_eq!((last.x, last.y), (MAX_X, MAX_Y));
    assert_eq!(last.color_index, 3);
}

#[test]
fn start_runs_an_idle_game_only() {
    let mut game = GameInstance::new();
    game.start();
    assert_eq!(game.phase(), Phase::Running);
    assert!(game.running());
    game.start();
    assert_eq!(game.phase(), Phase::Running);
}

#[test]
fn an_idle_game_does_not_tick() {
    let mut game = GameInstance::new();
    game.add_player(0, String::from("ann"));
    game.set_player_movement(0, AXIS_UNIT, 0);
    game.place_bomb(0);
    let before = game.get_state_msg();
    game.tick();
    assert_eq!(game.get_state_msg(), before);
    assert_eq!(game.ticks(), 0);
    assert_eq!(game.bombs()[0].timer, BOMB_TIMER_TICKS);
}

#[test]
fn movement_intent_is_clamped_per_axis() {
    let mut game = GameInstance::new();
    game.add_player(0, String::from("ann"));
    game.set_player_movement(0, 5000, -5000);
    assert_eq!((game.players()[0].dx, game.players()[0].dy), (1000, -1000));
    game.set_player_movement(0, i32::MAX, i32::MIN);
    assert_eq!((game.players()[0].dx, game.players()[0].dy), (AXIS_UNIT, -AXIS_UNIT));
    game.set_player_movement(0, -250, 999);
    assert_eq!((game.players()[0].dx, game.players()[0].dy), (-250, 999));
}

#[test]
fn intents_for_unknown_players_are_ignored() {
    let mut game = GameInstance::new();
    game.add_player(0, String::from("ann"));
    game.start();
    let before = game.get_state_msg();
    game.set_player_movement(7, 1000, 1000);
    game.place_bomb(7);
    game.mark_dead(7);
    assert_eq!(game.get_state_msg(), before);
}

#[test]
fn one_tick_moves_a_tenth_of_a_tile_at_default_speed() {
    let mut game = solo_on(open_field());
    game.set_player_movement(0, AXIS_UNIT, 0);
    game.tick();
    assert_eq!(game.players()[0].x, 100_000_000);
    assert_eq!(game.players()[0].x, TILE_UNITS / 10);
    assert_eq!(game.players()[0].y, 0);
    assert_eq!(game.ticks(), 1);
    game.set_player_movement(0, 500, 250);
    game.tick();
    assert_eq!(game.players()[0].x, 150_000_000);
    assert_eq!(game.players()[0].y, 25_000_000);
}

#[test]
fn position_is_clamped_to_the_arena() {
    let mut game = solo_on(open_field());
    game.set_player_movement(0, -AXIS_UNIT, -AXIS_UNIT);
    game.tick();
    assert_eq!((game.players()[0].x, game.players()[0].y), (0, 0));
    game.set_player_movement(0, AXIS_UNIT, AXIS_UNIT);
    tick_n(&mut game, 200);
    assert_eq!((game.players()[0].x, game.players()[0].y), (MAX_X, MAX_Y));
}

#[test]
fn walls_stop_a_player_and_let_it_slide() {
    let mut game = solo_on(blast_arena::map::generate_map());
    // Row 0 is free up to column 2, column 0 up to row 2; (1, 2) is a block.
    game.set_player_movement(0, AXIS_UNIT, AXIS_UNIT);
    tick_n(&mut game, 60);
    let p = &game.players()[0];
    // The right-hand corners may not pass x = 3 tiles - margin, nor the lower
    // ones y = 3 tiles - margin; the box slides along whichever wall it meets.
    assert!(p.x < 2 * TILE_UNITS + 150_000_000);
    assert!(p.y < 2 * TILE_UNITS + 150_000_000);
    assert!(p.x > 0 && p.y > 0);
    let map = *game.map();
    assert!(can_move_to(&map, p.x, p.y));
}

#[test]
fn can_move_to_checks_the_four_inset_corners() {
    let mut map = open_field();
    map[0][1] = Tile::SoftBlock;
    map[1][0] = Tile::HardBlock;
    assert!(can_move_to(&map, 0, 0));
    // the far corners reach the next cell at 0.15 tile
    assert!(can_move_to(&map, 149_999_999, 149_999_999));
    assert!(!can_move_to(&map, 150_000_000, 0));
    assert!(!can_move_to(&map, 0, 150_000_000));
    assert!(can_move_to(&map, -100_000_000, -100_000_000));
    assert!(can_move_to(&map, i64::MIN, i64::MIN));
    assert!(!can_move_to(&map, i64::MAX, 0));
    assert!(!can_move_to(&map, 0, i64::MAX));
    let open = open_field();
    assert!(can_move_to(&open, MAX_X, MAX_Y));
    assert!(can_move_to(&open, MAX_X + 149_999_999, MAX_Y));
    assert!(!can_move_to(&open, MAX_X + 150_000_000, MAX_Y));
    assert!(!can_move_to(&open, MAX_X, MAX_Y + 150_000_000));
}

#[test]
fn dead_players_do_not_move() {
    let mut game = solo_on(open_field());
    game.set_player_movement(0, AXIS_UNIT, 0);
    game.mark_dead(0);
    game.tick();
    assert_eq!(game.players()[0].x, 0);
    assert!(!game.players()[0].alive);
}

#[test]
fn a_bomb_sits_on_the_nearest_cell_with_full_fuse_and_the_owners_range() {
    let mut game = solo_on(open_field());
    game.set_player_movement(0, AXIS_UNIT, AXIS_UNIT);
    tick_n(&mut game, 6); // at (0.6, 0.6): nearest cell is (1, 1)
    game.place_bomb(0);
    assert_eq!(game.bombs().len(), 1);
    assert_eq!(game.bombs()[0], Bomb { x: 1, y: 1, owner: 0, timer: 40, range: 1 });
    assert_eq!(game.players()[0].active_bombs, 1);
}

#[test]
fn fuse_loses_one_tick_per_tick_and_the_bomb_goes_off_once() {
    let mut game = solo_on(open_field());
    game.set_player_movement(0, AXIS_UNIT, 0);
    game.place_bomb(0);
    for k in 1..40u32 {
        game.tick();
        assert_eq!(game.bombs().len(), 1, "tick {k}");
        assert_eq!(game.bombs()[0].timer, BOMB_TIMER_TICKS - k, "tick {k}");
        assert!(game.explosions().is_empty(), "tick {k}");
    }
    game.tick();
    assert!(game.bombs().is_empty());
    assert_eq!(cells(game.explosions()), vec![(0, 0), (1, 0), (0, 1)]);
    assert_eq!(game.players()[0].active_bombs, 0);
    // No second detonation: the explosions burn out and nothing new appears.
    for k in 1..9u32 {
        game.tick();
        assert_eq!(game.explosions().len(), 3);
        assert!(game.explosions().iter().all(|e| e.timer == EXPLOSION_DURATION_TICKS - 1 - k));
    }
    game.tick();
    assert!(game.explosions().is_empty());
    tick_n(&mut game, 50);
    assert!(game.explosions().is_empty());
    assert!(game.bombs().is_empty());
}

#[test]
fn range_one_bomb_explodes_after_forty_ticks() {
    let mut game = solo_on(blast_arena::map::generate_map());
    game.place_bomb(0);
    tick_n(&mut game, 39);
    assert_eq!(game.bombs().len(), 1);
    assert!(game.explosions().is_empty());
    assert!(game.players()[0].alive);
    game.tick();
    assert_eq!(game.ticks(), 40);
    assert!(game.bombs().is_empty());
    assert_eq!(
        game.explosions().clone(),
        vec![
            Explosion { x: 0, y: 0, timer: 9, lit: 1 },
            Explosion { x: 1, y: 0, timer: 9, lit: 1 },
            Explosion { x: 0, y: 1, timer: 9, lit: 1 },
        ]
    );
    assert!(!game.players()[0].alive);
}

#[test]
fn blast_stops_at_adjacent_blocks() {
    let mut map = open_field();
    map[5][6] = Tile::SoftBlock; // right of (5, 5)
    map[6][5] = Tile::HardBlock; // below (5, 5)
    let mut game = solo_on(map);
    let broken = game.create_explosion(5, 5, 1);
    assert_eq!(cells(game.explosions()), vec![(5, 5), (4, 5), (6, 5), (5, 4)]);
    assert_eq!(broken, vec![Rubble { x: 6, y: 5, blast: 1 }]);
    assert_eq!(game.map()[5][6], Tile::Empty);
    assert_eq!(game.map()[6][5], Tile::HardBlock);
}

#[test]
fn blast_never_crosses_a_pillar_and_halts_after_the_first_block() {
    let mut map = open_field();
    map[5][7] = Tile::SoftBlock;
    map[5][8] = Tile::SoftBlock;
    map[5][3] = Tile::HardBlock;
    map[5][2] = Tile::SoftBlock;
    let mut game = solo_on(map);
    let broken = game.create_explosion(5, 5, 6);
    let lit = cells(game.explosions());
    // left arm: (4, 5) only, the pillar at column 3 stops it
    // right arm: (6, 5) and the block at (7, 5), which ends it
    // up arm: rows 4 to 0; down arm: rows 6 to 11
    let mut expected = vec![(5, 5), (4, 5), (6, 5), (7, 5)];
    expected.extend((0..5).rev().map(|y| (5, y)));
    expected.extend((6..12).map(|y| (5, y)));
    assert_eq!(lit, expected);
    assert_eq!(broken, vec![Rubble { x: 7, y: 5, blast: 1 }]);
    assert_eq!(game.map()[5][7], Tile::Empty);
    assert_eq!(game.map()[5][8], Tile::SoftBlock);
    assert_eq!(game.map()[5][3], Tile::HardBlock);
    assert_eq!(game.map()[5][2], Tile::SoftBlock);
    assert!(game.explosions().iter().all(|e| e.timer == 10));
}

#[test]
fn blast_of_range_zero_lights_its_own_cell_only() {
    let mut game = solo_on(open_field());
    let broken = game.create_explosion(14, 12, 0);
    assert_eq!(cells(game.explosions()), vec![(14, 12)]);
    assert!(broken.is_empty());
}

#[test]
fn blast_of_huge_range_ends_at_the_border() {
    let mut game = solo_on(open_field());
    game.create_explosion(0, 0, u32::MAX);
    assert_eq!(game.explosions().len(), 1 + 14 + 12);
}

#[test]
fn bomb_allowance_is_never_exceeded() {
    let mut game = solo_on(open_field());
    game.place_bomb(0);
    game.set_player_movement(0, AXIS_UNIT, 0);
    tick_n(&mut game, 15); // now on cell (2, 0), away from the bomb
    let before = game.get_state_msg();
    game.place_bomb(0);
    assert_eq!(game.get_state_msg(), before);
    assert_eq!(game.bombs().len(), 1);
    for _ in 0..60 {
        game.tick();
        game.place_bomb(0);
        for p in game.players() {
            assert!(p.active_bombs <= p.max_bombs);
        }
        assert!(game.bombs().len() <= 1);
    }
}

#[test]
fn dead_player_cannot_place_a_bomb() {
    let mut game = solo_on(open_field());
    game.mark_dead(0);
    game.place_bomb(0);
    assert!(game.bombs().is_empty());
    assert_eq!(game.players()[0].active_bombs, 0);
}

#[test]
fn bomb_on_an_occupied_cell_is_rejected_without_side_effects() {
    let mut game = GameInstance::with_map(open_field());
    game.add_player(0, String::from("ann"));
    game.add_player(1, String::from("bob"));
    game.start();
    game.set_player_movement(1, -AXIS_UNIT, 0);
    tick_n(&mut game, 140); // bob walks along row 0 to ann's corner
    assert_eq!(game.players()[1].x, 0);
    game.place_bomb(0);
    let before = game.get_state_msg();
    let bob_before = game.players()[1].clone();
    game.place_bomb(1);
    assert_eq!(game.get_state_msg(), before);
    assert_eq!(game.players()[1], bob_before);
    assert_eq!(game.bombs().len(), 1);
    assert_eq!(game.bombs()[0].owner, 0);
}

#[test]
fn chained_bomb_goes_off_in_the_same_tick() {
    let mut game = GameInstance::with_map(open_field());
    game.add_player(0, String::from("ann"));
    game.add_player(1, String::from("bob"));
    game.start();
    // bob walks from the far corner to cell (1, 0)
    game.set_player_movement(1, -AXIS_UNIT, 0);
    tick_n(&mut game, 130);
    game.set_player_movement(1, 0, 0);
    assert_eq!(game.players()[1].x, TILE_UNITS);
    // ann lays bomb A on (0, 0), bob lays bomb B on (1, 0) five ticks later
    game.place_bomb(0);
    game.set_player_movement(0, 0, AXIS_UNIT);
    tick_n(&mut game, 5);
    game.place_bomb(1);
    assert_eq!(game.bombs().len(), 2);
    // bob steps right onto (2, 0) and waits there; ann walks down out of reach
    game.set_player_movement(1, AXIS_UNIT, 0);
    tick_n(&mut game, 10);
    game.set_player_movement(1, 0, 0);
    tick_n(&mut game, 24);
    assert_eq!(game.bombs()[0].timer, 1);
    assert_eq!(game.bombs()[1].timer, 6);
    assert!(game.players()[0].alive && game.players()[1].alive);
    assert_eq!(game.phase(), Phase::Running);
    game.tick();
    // A went off and set off B within the same tick
    assert!(game.bombs().is_empty());
    assert_eq!(
        cells(game.explosions()),
        vec![(0, 0), (1, 0), (0, 1), (1, 0), (0, 0), (2, 0), (1, 1)]
    );
    assert!(game.explosions().len() > 3);
    assert!(game.explosions().len() > 4);
    let numbers: Vec<u64> = game.explosions().iter().map(|e| e.lit).collect();
    assert_eq!(numbers, vec![1, 1, 1, 2, 2, 2, 2]);
    assert_eq!(game.blasts(), 2);
    assert_eq!(game.players()[0].active_bombs, 0);
    assert_eq!(game.players()[1].active_bombs, 0);
}

#[test]
fn player_in_a_chained_blast_dies_in_the_same_tick() {
    let mut game = GameInstance::with_map(open_field());
    game.add_player(0, String::from("ann"));
    game.add_player(1, String::from("bob"));
    game.start();
    game.set_player_movement(1, -AXIS_UNIT, 0);
    tick_n(&mut game, 130);
    game.set_player_movement(1, 0, 0);
    game.place_bomb(0);
    game.set_player_movement(0, 0, AXIS_UNIT);
    tick_n(&mut game, 5);
    game.place_bomb(1);
    game.set_player_movement(1, AXIS_UNIT, 0);
    tick_n(&mut game, 10);
    game.set_player_movement(1, 0, 0);
    tick_n(&mut game, 24);
    // bob stands on (2, 0): out of reach of A, within reach of B
    assert_eq!(game.players()[1].x, 2 * TILE_UNITS);
    assert!(game.players()[1].alive);
    game.tick();
    assert!(!game.players()[1].alive);
    assert!(game.players()[0].alive);
    assert_eq!(game.phase(), Phase::Finished { winner: Some(0) });
    assert_eq!(game.winner(), Some(0));
    assert!(game.finished());
    assert!(!game.running());
}

#[test]
fn a_finished_game_never_ticks_again() {
    let mut game = GameInstance::with_map(open_field());
    game.add_player(0, String::from("ann"));
    game.add_player(1, String::from("bob"));
    game.start();
    game.place_bomb(1);
    game.set_player_movement(0, AXIS_UNIT, 0);
    game.mark_dead(1);
    game.tick();
    assert_eq!(game.phase(), Phase::Finished { winner: Some(0) });
    let done = game.get_state_msg();
    let ticks = game.ticks();
    tick_n(&mut game, 100);
    assert_eq!(game.get_state_msg(), done);
    assert_eq!(game.ticks(), ticks);
    assert_eq!(game.bombs().len(), 1);
    game.start();
    assert_eq!(game.phase(), Phase::Finished { winner: Some(0) });
}

#[test]
fn a_running_game_with_two_alive_goes_on() {
    let mut game = GameInstance::with_map(open_field());
    game.add_player(0, String::from("ann"));
    game.add_player(1, String::from("bob"));
    game.add_player(2, String::from("cyd"));
    game.start();
    game.mark_dead(2);
    tick_n(&mut game, 10);
    assert_eq!(game.phase(), Phase::Running);
    game.mark_dead(0);
    game.tick();
    assert_eq!(game.phase(), Phase::Finished { winner: Some(1) });
}

#[test]
fn simultaneous_elimination_is_a_draw() {
    let mut game = GameInstance::with_map(open_field());
    game.add_player(0, String::from("ann"));
    game.add_player(1, String::from("bob"));
    game.start();
    game.set_player_movement(1, -AXIS_UNIT, 0);
    tick_n(&mut game, 130);
    game.set_player_movement(1, 0, 0);
    game.place_bomb(0);
    tick_n(&mut game, 40);
    assert!(!game.players()[0].alive);
    assert!(!game.players()[1].alive);
    assert_eq!(game.phase(), Phase::Finished { winner: None });
    assert_eq!(game.winner(), None);
    assert!(game.finished());
}

#[test]
fn a_lone_player_never_finishes_the_game() {
    let mut game = solo_on(open_field());
    game.place_bomb(0);
    tick_n(&mut game, 45);
    assert!(!game.players()[0].alive);
    assert_eq!(game.phase(), Phase::Running);
}

#[test]
fn check_game_over_leaves_an_idle_game_idle() {
    let mut game = GameInstance::new();
    game.add_player(0, String::from("ann"));
    game.add_player(1, String::from("bob"));
    game.mark_dead(0);
    game.check_game_over();
    assert_eq!(game.phase(), Phase::Idle);
}

#[test]
fn snapshot_reports_the_whole_state() {
    let mut game = solo_on(open_field());
    game.place_bomb(0);
    game.create_explosion(3, 3, 0);
    game.tick();
    match game.get_state_msg() {
        ServerMsg::GameState { players, bombs, explosions, items, map, tick } => {
            assert_eq!(players, game.player_states());
            assert_eq!(players.len(), 1);
            assert_eq!(players[0].name, "ann");
            assert_eq!((players[0].x, players[0].y), (0, 0));
            assert_eq!(players[0].speed, 2000);
            assert_eq!(bombs, vec![BombState { x: 0, y: 0, owner: 0, timer: 39 }]);
            assert_eq!(explosions, vec![ExplosionState { x: 3, y: 3, timer: 9 }]);
            assert!(items.is_empty());
            assert_eq!(map.len(), 13);
            assert!(map.iter().all(|row| row.len() == 15));
            assert_eq!(map, game.map_rows());
            assert_eq!(tick, 1);
        }
        other => panic!("not a snapshot: {other:?}"),
    }
}

#[test]
fn update_bombs_reports_destroyed_blocks_in_order() {
    let mut map = open_field();
    map[0][1] = Tile::SoftBlock;
    map[1][0] = Tile::SoftBlock;
    let mut game = solo_on(map);
    game.place_bomb(0);
    for _ in 0..39 {
        assert!(game.update_bombs().is_empty());
    }
    assert_eq!(game.bombs()[0].timer, 1);
    let broken = game.update_bombs();
    assert_eq!(broken, vec![Rubble { x: 1, y: 0, blast: 1 }, Rubble { x: 0, y: 1, blast: 1 }]);
    assert_eq!(game.blasts(), 1);
    assert!(game.bombs().is_empty());
    assert_eq!(game.map()[0][1], Tile::Empty);
    assert_eq!(game.map()[1][0], Tile::Empty);
    assert_eq!(game.players()[0].active_bombs, 0);
}

#[test]
fn an_earlier_blast_clears_the_way_for_a_later_one() {
    let mut map = open_field();
    map[0][2] = Tile::SoftBlock;
    let mut game = solo_on(map);
    let first = game.create_explosion(1, 0, 3);
    assert_eq!(first, vec![Rubble { x: 2, y: 0, blast: 1 }]);
    let lit_first = game.explosions().len();
    let second = game.create_explosion(1, 0, 3);
    assert!(second.is_empty());
    assert_eq!(game.blasts(), 2);
    assert!(game.explosions().iter().take(lit_first).all(|e| e.lit == 1));
    assert!(game.explosions().iter().skip(lit_first).all(|e| e.lit == 2));
    let lit = cells(game.explosions());
    assert!(!lit[..lit.len() / 2].contains(&(3, 0)));
    assert!(lit.contains(&(3, 0)));
    assert!(lit.contains(&(4, 0)));
}
