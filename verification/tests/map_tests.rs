use blast_arena::constants::{MAP_COLS, MAP_ROWS};
use blast_arena::map::{generate_map, is_spawn_safe_zone, spawn_positions, Tile};

#[test]
fn spawn_corners_are_the_four_grid_corners() {
    assert_eq!(spawn_positions(), [(0, 0), (0, 14), (12, 0), (12, 14)]);
}

#[test]
fn generated_map_has_the_fixed_dimensions() {
    let map = generate_map();
    assert_eq!(map.len(), MAP_ROWS);
    assert_eq!(map.len(), 13);
    for row in map.iter() {
        assert_eq!(row.len(), MAP_COLS);
        assert_eq!(row.len(), 15);
    }
}

#[test]
fn pillars_stand_on_even_interior_intersections_only() {
    let map = generate_map();
    for r in 0..MAP_ROWS {
        for c in 0..MAP_COLS {
            let pillar = r % 2 == 0 && c % 2 == 0 && r > 0 && c > 0 && r < 12 && c < 14;
            assert_eq!(map[r][c] == Tile::HardBlock, pillar, "cell ({r}, {c})");
        }
    }
    assert_eq!(map[2][2], Tile::HardBlock);
    assert_eq!(map[10][12], Tile::HardBlock);
    assert_ne!(map[0][2], Tile::HardBlock);
    assert_ne!(map[12][12], Tile::HardBlock);
    assert_ne!(map[2][14], Tile::HardBlock);
}

#[test]
fn cells_within_two_steps_of_a_corner_are_free() {
    let map = generate_map();
    let free = [
        (0, 0), (0, 1), (0, 2), (1, 0), (1, 1), (2, 0),
        (0, 14), (0, 13), (0, 12), (1, 14), (1, 13), (2, 14),
        (12, 0), (12, 1), (12, 2), (11, 0), (11, 1), (10, 0),
        (12, 14), (12, 13), (12, 12), (11, 14), (11, 13), (10, 14),
    ];
    for (r, c) in free {
        assert_eq!(map[r][c], Tile::Empty, "cell ({r}, {c})");
    }
    let mut empty = 0;
    for r in 0..MAP_ROWS {
        for c in 0..MAP_COLS {
            if map[r][c] == Tile::Empty {
                empty += 1;
            }
        }
    }
    assert_eq!(empty, 24);
}

#[test]
fn everything_else_is_a_destructible_block() {
    let map = generate_map();
    assert_eq!(map[0][3], Tile::SoftBlock);
    assert_eq!(map[3][0], Tile::SoftBlock);
    assert_eq!(map[1][2], Tile::SoftBlock);
    assert_eq!(map[6][7], Tile::SoftBlock);
    assert_eq!(map[5][5], Tile::SoftBlock);
    let mut hard = 0;
    let mut soft = 0;
    for r in 0..MAP_ROWS {
        for c in 0..MAP_COLS {
            match map[r][c] {
                Tile::HardBlock => hard += 1,
                Tile::SoftBlock => soft += 1,
                Tile::Empty => {}
            }
        }
    }
    assert_eq!(hard, 5 * 6);
    assert_eq!(soft, 15 * 13 - 30 - 24);
}

#[test]
fn generation_is_deterministic() {
    assert_eq!(generate_map(), generate_map());
}

#[test]
fn safe_zone_is_the_manhattan_ball_of_radius_two() {
    assert!(is_spawn_safe_zone(0, 0));
    assert!(is_spawn_safe_zone(1, 1));
    assert!(is_spawn_safe_zone(2, 0));
    assert!(!is_spawn_safe_zone(2, 1));
    assert!(!is_spawn_safe_zone(0, 3));
    assert!(is_spawn_safe_zone(12, 13));
    assert!(is_spawn_safe_zone(10, 14));
    assert!(!is_spawn_safe_zone(6, 7));
}

#[test]
fn safe_zone_accepts_cells_outside_the_grid() {
    assert!(is_spawn_safe_zone(0, 15));
    assert!(is_spawn_safe_zone(13, 14));
    assert!(!is_spawn_safe_zone(0, 17));
    assert!(!is_spawn_safe_zone(usize::MAX, usize::MAX));
    assert!(!is_spawn_safe_zone(usize::MAX, 0));
}
