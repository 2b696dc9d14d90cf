use blast_arena::constants::{AXIS_UNIT, MAP_COLS, MAP_ROWS, SPEED_BOOST, TILE_UNITS};
use blast_arena::game::drops::{drop_from_rolls, kind_from_roll, roll_drop, roll_drops};
use blast_arena::game::{Explosion, GameInstance, Item, Rubble};
use blast_arena::map::{GameMap, Tile};
use blast_arena::protocol::ItemKind;

fn open_field() -> GameMap {
    [[Tile::Empty; MAP_COLS]; MAP_ROWS]
}

/// Rubble on the given cells, all left by detonation `blast`.
fn rubble(cells: &[(usize, usize)], blast: u64) -> Vec<Rubble> {
    cells.iter().map(|&(x, y)| Rubble { x, y, blast }).collect()
}

fn solo_on(map: GameMap) -> GameInstance {
    let mut game = GameInstance::with_map(map);
    game.add_player(0, String::from("ann"));
    game.start();
    game
}

#[test]
fn kind_follows_the_roll() {
    assert_eq!(kind_from_roll(0), ItemKind::BombRange);
    assert_eq!(kind_from_roll(1), ItemKind::BombCount);
    assert_eq!(kind_from_roll(2), ItemKind::Speed);
    assert_eq!(kind_from_roll(u32::MAX), ItemKind::Speed);
}

#[test]
fn a_miss_drops_nothing_and_a_hit_drops_the_kind_drawn() {
    assert_eq!(drop_from_rolls(false, 0), None);
    assert_eq!(drop_from_rolls(false, 2), None);
    assert_eq!(drop_from_rolls(true, 0), Some(ItemKind::BombRange));
    assert_eq!(drop_from_rolls(true, 1), Some(ItemKind::BombCount));
    assert_eq!(drop_from_rolls(true, 2), Some(ItemKind::Speed));
}

#[test]
fn roll_drops_gives_one_outcome_per_block() {
    assert!(roll_drops(0).is_empty());
    assert_eq!(roll_drops(1).len(), 1);
    assert_eq!(roll_drops(57).len(), 57);
}

#[test]
fn drop_frequency_approaches_one_third_with_uniform_kinds() {
    let trials = 60_000;
    let mut range = 0u32;
    let mut count = 0u32;
    let mut speed = 0u32;
    for _ in 0..trials {
        match roll_drop() {
            Some(ItemKind::BombRange) => range += 1,
            Some(ItemKind::BombCount) => count += 1,
            Some(ItemKind::Speed) => speed += 1,
            None => {}
        }
    }
    let items = range + count + speed;
    let share = items as f64 / trials as f64;
    assert!((share - 1.0 / 3.0).abs() < 0.02, "drop share {share}");
    for (name, n) in [("range", range), ("count", count), ("speed", speed)] {
        let part = n as f64 / items as f64;
        assert!((part - 1.0 / 3.0).abs() < 0.03, "{name} share {part}");
    }
}

#[test]
fn spawn_items_lays_out_the_named_drops_in_order() {
    let mut game = solo_on(open_field());
    let cells = rubble(&[(3, 4), (5, 6), (7, 8), (9, 10)], 0);
    let drops = vec![Some(ItemKind::Speed), None, Some(ItemKind::BombRange)];
    game.spawn_items(&cells, &drops);
    assert_eq!(
        game.items().clone(),
        vec![
            Item { x: 3, y: 4, kind: ItemKind::Speed, born: 0 },
            Item { x: 7, y: 8, kind: ItemKind::BombRange, born: 0 },
        ]
    );
    game.spawn_items(&vec![], &vec![Some(ItemKind::Speed)]);
    assert_eq!(game.items().len(), 2);
}

#[test]
fn each_kind_grants_its_upgrade() {
    let mut game = solo_on(open_field());
    game.spawn_items(
        &rubble(&[(0, 0), (0, 0), (0, 0)], 0),
        &vec![Some(ItemKind::BombRange), Some(ItemKind::BombCount), Some(ItemKind::Speed)],
    );
    game.check_item_pickup();
    let p = &game.players()[0];
    assert_eq!(p.bomb_range, 2);
    assert_eq!(p.max_bombs, 2);
    assert_eq!(p.speed, 2500);
    assert_eq!(p.speed, 2000 + SPEED_BOOST);
    assert!(game.items().is_empty());
}

#[test]
fn picking_up_a_removed_item_has_no_effect() {
    let mut game = solo_on(open_field());
    game.spawn_items(&rubble(&[(0, 0), (4, 4)], 0), &vec![Some(ItemKind::Speed), Some(ItemKind::Speed)]);
    game.check_item_pickup();
    assert_eq!(game.players()[0].speed, 2500);
    assert_eq!(game.items().clone(), vec![Item { x: 4, y: 4, kind: ItemKind::Speed, born: 0 }]);
    let once = game.get_state_msg();
    game.check_item_pickup();
    game.check_item_pickup();
    assert_eq!(game.get_state_msg(), once);
    assert_eq!(game.players()[0].speed, 2500);
}

#[test]
fn the_first_living_player_on_the_cell_collects() {
    let mut game = GameInstance::with_map(open_field());
    game.add_player(0, String::from("ann"));
    game.add_player(1, String::from("bob"));
    game.add_player(2, String::from("cyd"));
    game.start();
    // bob walks to ann's corner; cyd stays on (0, 12)
    game.set_player_movement(1, -AXIS_UNIT, 0);
    for _ in 0..140 {
        game.move_players();
    }
    game.spawn_items(&rubble(&[(0, 0), (0, 12)], 0), &vec![Some(ItemKind::BombRange), Some(ItemKind::BombCount)]);
    game.check_item_pickup();
    assert_eq!(game.players()[0].bomb_range, 2);
    assert_eq!(game.players()[1].bomb_range, 1);
    assert_eq!(game.players()[2].max_bombs, 2);
    assert!(game.items().is_empty());
    // with ann dead, bob is the first living player on the corner
    game.mark_dead(0);
    game.spawn_items(&rubble(&[(0, 0)], 0), &vec![Some(ItemKind::BombRange)]);
    game.check_item_pickup();
    assert_eq!(game.players()[0].bomb_range, 2);
    assert_eq!(game.players()[1].bomb_range, 2);
}

#[test]
fn a_dead_player_collects_nothing() {
    let mut game = solo_on(open_field());
    game.mark_dead(0);
    game.spawn_items(&rubble(&[(0, 0)], 0), &vec![Some(ItemKind::Speed)]);
    game.check_item_pickup();
    assert_eq!(game.players()[0].speed, 2000);
    assert_eq!(game.items().len(), 1);
}

#[test]
fn a_faster_player_covers_more_ground() {
    let mut game = solo_on(open_field());
    game.spawn_items(&rubble(&[(0, 0)], 0), &vec![Some(ItemKind::Speed)]);
    game.check_item_pickup();
    game.set_player_movement(0, AXIS_UNIT, 0);
    game.tick();
    assert_eq!(game.players()[0].x, 125_000_000);
    assert_eq!(game.players()[0].x, TILE_UNITS / 8);
}

#[test]
fn a_longer_range_makes_a_longer_blast() {
    let mut game = solo_on(open_field());
    game.spawn_items(&rubble(&[(0, 0)], 0), &vec![Some(ItemKind::BombRange)]);
    game.check_item_pickup();
    game.place_bomb(0);
    assert_eq!(game.bombs()[0].range, 2);
    for _ in 0..40 {
        game.tick();
    }
    let lit: Vec<(usize, usize)> = game.explosions().iter().map(|e| (e.x, e.y)).collect();
    assert_eq!(lit, vec![(0, 0), (1, 0), (2, 0), (0, 1), (0, 2)]);
}

#[test]
fn a_second_bomb_needs_a_second_cell() {
    let mut game = solo_on(open_field());
    game.spawn_items(&rubble(&[(0, 0)], 0), &vec![Some(ItemKind::BombCount)]);
    game.check_item_pickup();
    assert_eq!(game.players()[0].max_bombs, 2);
    game.place_bomb(0);
    let before = game.get_state_msg();
    game.place_bomb(0); // same cell: rejected
    assert_eq!(game.get_state_msg(), before);
    assert_eq!(game.players()[0].active_bombs, 1);
    game.set_player_movement(0, AXIS_UNIT, 0);
    for _ in 0..10 {
        game.tick();
    }
    game.place_bomb(0); // next cell: accepted
    assert_eq!(game.bombs().len(), 2);
    assert_eq!(game.players()[0].active_bombs, 2);
    game.place_bomb(0);
    assert_eq!(game.bombs().len(), 2);
}

#[test]
fn aging_cools_explosions_and_drops_the_spent() {
    let mut game = solo_on(open_field());
    game.create_explosion(5, 5, 0);
    for left in (1..10u32).rev() {
        game.update_explosions();
        assert_eq!(game.explosions().clone(), vec![Explosion { x: 5, y: 5, timer: left, lit: 1 }]);
    }
    game.update_explosions();
    assert!(game.explosions().is_empty());
}

#[test]
fn an_item_is_lost_under_a_later_explosion() {
    let mut game = solo_on(open_field());
    game.spawn_items(&rubble(&[(5, 5), (6, 6)], 0), &vec![Some(ItemKind::Speed), Some(ItemKind::BombCount)]);
    game.create_explosion(5, 5, 0);
    assert_eq!(game.items().len(), 2);
    game.update_explosions();
    assert_eq!(game.items().clone(), vec![Item { x: 6, y: 6, kind: ItemKind::BombCount, born: 0 }]);
}

#[test]
fn a_drop_is_not_taken_by_the_explosion_that_made_it() {
    let mut map = open_field();
    map[5][6] = Tile::SoftBlock;
    let mut game = solo_on(map);
    let broken = game.create_explosion(5, 5, 1);
    assert_eq!(broken, vec![Rubble { x: 6, y: 5, blast: 1 }]);
    game.spawn_items(&broken, &vec![Some(ItemKind::Speed)]);
    for _ in 0..10 {
        game.update_explosions();
        assert_eq!(game.items().clone(), vec![Item { x: 6, y: 5, kind: ItemKind::Speed, born: 1 }]);
    }
    assert!(game.explosions().is_empty());
}

#[test]
fn a_drop_is_not_taken_by_an_older_explosion_either() {
    let mut game = solo_on(open_field());
    game.create_explosion(5, 5, 0);
    game.create_explosion(7, 7, 0);
    game.spawn_items(&rubble(&[(5, 5)], 2), &vec![Some(ItemKind::Speed)]);
    game.update_explosions();
    assert_eq!(game.items().len(), 1);
}

#[test]
fn a_drop_is_taken_by_a_later_detonation_of_the_same_tick() {
    // two detonations of range 2 in a row: the one on (1, 0) destroys the
    // block on (3, 0), the one on (2, 0) then lights (3, 0) again
    let mut map = open_field();
    map[0][3] = Tile::SoftBlock;
    let mut game = solo_on(map);
    let first = game.create_explosion(1, 0, 2);
    assert_eq!(first, vec![Rubble { x: 3, y: 0, blast: 1 }]);
    let second = game.create_explosion(2, 0, 2);
    assert!(second.is_empty());
    game.spawn_items(&first, &vec![Some(ItemKind::Speed)]);
    assert_eq!(game.items().len(), 1);
    game.update_explosions();
    assert!(game.items().is_empty());
}

#[test]
fn a_chain_takes_the_drop_of_the_bomb_that_set_it_off() {
    let mut map = open_field();
    map[0][3] = Tile::SoftBlock;
    let mut game = solo_on(map);
    // the player is given a range of two and an allowance of two bombs
    game.spawn_items(&rubble(&[(0, 0), (0, 0)], 0), &vec![Some(ItemKind::BombRange), Some(ItemKind::BombCount)]);
    game.check_item_pickup();
    // bomb A on (1, 0), bomb B on (2, 0) ten ticks later
    game.set_player_movement(0, AXIS_UNIT, 0);
    for _ in 0..10 {
        game.tick_with(&vec![]);
    }
    game.place_bomb(0);
    for _ in 0..10 {
        game.tick_with(&vec![]);
    }
    game.place_bomb(0);
    assert_eq!(game.bombs().len(), 2);
    assert_eq!((game.bombs()[0].x, game.bombs()[1].x), (1, 2));
    for _ in 0..29 {
        game.tick_with(&vec![Some(ItemKind::Speed)]);
    }
    assert_eq!(game.bombs()[0].timer, 1);
    assert!(game.items().is_empty());
    // A destroys the block and sets off B, whose blast lights the block's
    // cell again: the drop is gone with the tick
    game.tick_with(&vec![Some(ItemKind::Speed)]);
    assert!(game.bombs().is_empty());
    assert_eq!(game.map()[0][3], Tile::Empty);
    assert_eq!(game.blasts(), 2);
    assert!(game.explosions().iter().any(|e| (e.x, e.y, e.lit) == (3, 0, 1)));
    assert!(game.explosions().iter().any(|e| (e.x, e.y, e.lit) == (3, 0, 2)));
    assert!(game.items().is_empty());
}

#[test]
fn an_item_under_a_cell_that_just_went_out_stays() {
    let mut game = solo_on(open_field());
    game.spawn_items(&rubble(&[(5, 5)], 0), &vec![Some(ItemKind::Speed)]);
    game.create_explosion(5, 5, 0);
    // the item is laid again each time; the last time the explosion goes out
    for _ in 0..9 {
        game.update_explosions();
        assert!(game.items().is_empty());
        game.spawn_items(&rubble(&[(5, 5)], 0), &vec![Some(ItemKind::Speed)]);
    }
    assert_eq!(game.explosions()[0].timer, 1);
    game.update_explosions();
    assert!(game.explosions().is_empty());
    assert_eq!(game.items().len(), 1);
}

#[test]
fn a_tick_leaves_the_drops_of_the_blocks_it_destroys() {
    let mut map = open_field();
    map[0][1] = Tile::SoftBlock;
    map[1][0] = Tile::SoftBlock;
    let mut game = solo_on(map);
    game.place_bomb(0);
    for _ in 0..39 {
        game.tick_with(&vec![Some(ItemKind::Speed), Some(ItemKind::Speed)]);
        assert!(game.items().is_empty());
    }
    game.tick_with(&vec![None, Some(ItemKind::BombCount)]);
    assert_eq!(game.map()[0][1], Tile::Empty);
    assert_eq!(game.map()[1][0], Tile::Empty);
    assert_eq!(game.items().clone(), vec![Item { x: 0, y: 1, kind: ItemKind::BombCount, born: 1 }]);
    // the drop outlasts the explosion over it
    for _ in 0..20 {
        game.tick_with(&vec![]);
    }
    assert!(game.explosions().is_empty());
    assert_eq!(game.items().len(), 1);
}

#[test]
fn a_tick_with_too_few_outcomes_leaves_nothing_for_the_rest() {
    let mut map = open_field();
    map[0][1] = Tile::SoftBlock;
    map[1][0] = Tile::SoftBlock;
    let mut game = solo_on(map);
    game.place_bomb(0);
    for _ in 0..39 {
        game.tick_with(&vec![]);
    }
    game.tick_with(&vec![Some(ItemKind::BombRange)]);
    assert_eq!(game.items().clone(), vec![Item { x: 1, y: 0, kind: ItemKind::BombRange, born: 1 }]);
}

#[test]
fn a_dropped_item_is_collected_by_a_player_who_walks_onto_it() {
    let mut map = open_field();
    map[0][3] = Tile::SoftBlock;
    let mut game = GameInstance::with_map(map);
    game.add_player(0, String::from("ann"));
    game.add_player(1, String::from("bob"));
    game.start();
    // ann walks to (2, 0), lays a bomb next to the block, and steps back
    game.set_player_movement(0, AXIS_UNIT, 0);
    for _ in 0..20 {
        game.tick_with(&vec![]);
    }
    game.place_bomb(0);
    game.set_player_movement(0, -AXIS_UNIT, 0);
    for _ in 0..39 {
        game.tick_with(&vec![]);
    }
    game.set_player_movement(0, 0, 0);
    game.tick_with(&vec![Some(ItemKind::Speed)]);
    assert!(game.players()[0].alive);
    assert_eq!(game.items().clone(), vec![Item { x: 3, y: 0, kind: ItemKind::Speed, born: 1 }]);
    // once the fire is out she walks onto the item
    for _ in 0..10 {
        game.tick_with(&vec![]);
    }
    game.set_player_movement(0, AXIS_UNIT, 0);
    for _ in 0..30 {
        game.tick_with(&vec![]);
    }
    assert!(game.items().is_empty());
    assert_eq!(game.players()[0].speed, 2500);
    assert_eq!(game.players()[1].speed, 2000);
}

#[test]
fn tick_draws_one_outcome_for_each_destroyed_block() {
    // a tick leaves about a third of the blocks it destroys an item, each on
    // the cell of its block
    let mut map = open_field();
    map[0][1] = Tile::SoftBlock;
    map[1][0] = Tile::SoftBlock;
    let mut kept = 0usize;
    let mut total = 0usize;
    for _ in 0..600 {
        let mut game = solo_on(map);
        game.place_bomb(0);
        for _ in 0..40 {
            game.tick();
        }
        assert_eq!(game.blasts(), 1);
        assert_eq!(game.map()[0][1], Tile::Empty);
        for item in game.items() {
            assert!((item.x, item.y) == (1, 0) || (item.x, item.y) == (0, 1));
            assert_eq!(item.born, 1);
        }
        assert!(game.items().len() <= 2);
        kept += game.items().len();
        total += 2;
    }
    let share = kept as f64 / total as f64;
    assert!((share - 1.0 / 3.0).abs() < 0.08, "share {share}");
}
