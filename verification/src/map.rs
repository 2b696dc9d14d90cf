//! The tile grid and its generator.
//!
//! The arena is a fixed pattern: indestructible pillars on every even interior
//! row and column, destructible blocks everywhere else, except that the cells
//! within two steps of a spawn corner are left free.

use vstd::prelude::*;
use crate::constants::{MAP_COLS, MAP_ROWS, MAX_PLAYERS};

verus! {

/// What occupies one grid cell.
#[derive(Clone, Copy, Debug, PartialEq, Eq, Structural)]
pub enum Tile {
    /// Free ground: passable, and a blast runs through it.
    Empty,
    /// Permanent wall: impassable, and a blast stops in front of it.
    HardBlock,
    /// Destructible block: impassable until a blast turns it into `Empty`.
    SoftBlock,
}

/// The grid, indexed by row and then by column.
pub type GameMap = [[Tile; MAP_COLS]; MAP_ROWS];

/// The grid as a sequence of rows.
pub type Grid = Seq<Seq<Tile>>;

/// The mathematical view of a grid: `MAP_ROWS` rows of `MAP_COLS` tiles each.
pub open spec fn grid_view(map: GameMap) -> Grid {
    Seq::new(MAP_ROWS as nat, |r: int| map[r]@)
}

/// A grid of the arena's dimensions.
pub open spec fn grid_wf(grid: Grid) -> bool {
    &&& grid.len() == MAP_ROWS
    &&& forall|r: int| 0 <= r < MAP_ROWS ==> (#[trigger] grid[r]).len() == MAP_COLS
}

/// Whether `(row, col)` names a cell of the grid.
pub open spec fn in_grid(row: int, col: int) -> bool {
    0 <= row < MAP_ROWS && 0 <= col < MAP_COLS
}

/// The four spawn corners as `(row, column)`, in slot order.
pub open spec fn spawn_cells() -> Seq<(int, int)> {
    seq![(0, 0), (0, MAP_COLS - 1), (MAP_ROWS - 1, 0), (MAP_ROWS - 1, MAP_COLS - 1)]
}

/// Number of single steps between two cells.
pub open spec fn manhattan(r1: int, c1: int, r2: int, c2: int) -> int {
    (if r1 >= r2 { r1 - r2 } else { r2 - r1 }) + (if c1 >= c2 { c1 - c2 } else { c2 - c1 })
}

/// Whether `(row, col)` lies within two steps of spawn corner `slot`.
pub open spec fn near_spawn(slot: int, row: int, col: int) -> bool {
    manhattan(row, col, spawn_cells()[slot].0, spawn_cells()[slot].1) <= 2
}

/// Whether `(row, col)` lies within two steps of some spawn corner.
pub open spec fn in_safe_zone(row: int, col: int) -> bool {
    exists|slot: int| 0 <= slot < MAX_PLAYERS && #[trigger] near_spawn(slot, row, col)
}

/// Whether a pillar stands at `(row, col)`: an even row and column, both
/// strictly inside the border.
pub open spec fn is_pillar(row: int, col: int) -> bool {
    &&& row % 2 == 0
    &&& col % 2 == 0
    &&& 0 < row < MAP_ROWS - 1
    &&& 0 < col < MAP_COLS - 1
}

/// The tile that a freshly generated arena has at `(row, col)`.
pub open spec fn generated_tile(row: int, col: int) -> Tile {
    if is_pillar(row, col) {
        Tile::HardBlock
    } else if in_safe_zone(row, col) {
        Tile::Empty
    } else {
        Tile::SoftBlock
    }
}

/// The freshly generated arena.
pub open spec fn arena() -> Grid {
    Seq::new(MAP_ROWS as nat, |r: int| Seq::new(MAP_COLS as nat, |c: int| generated_tile(r, c)))
}

/// The spawn corners as `(row, column)`, in slot order.
pub fn spawn_positions() -> (spawns: [(usize, usize); MAX_PLAYERS])
    ensures
        forall|slot: int| 0 <= slot < MAX_PLAYERS ==> {
            &&& (#[trigger] spawns[slot]).0 == spawn_cells()[slot].0
            &&& spawns[slot].1 == spawn_cells()[slot].1
        },
{
    [(0, 0), (0, MAP_COLS - 1), (MAP_ROWS - 1, 0), (MAP_ROWS - 1, MAP_COLS - 1)]
}

/// Whether `(r, c)` lies within two steps of a spawn corner. Total: any pair of
/// coordinates is accepted, also one outside the grid.
pub fn is_spawn_safe_zone(r: usize, c: usize) -> (safe: bool)
    ensures
        safe == in_safe_zone(r as int, c as int),
{
    let spawns = spawn_positions();
    let mut slot: usize = 0;
    while slot < MAX_PLAYERS
        invariant
            slot <= MAX_PLAYERS,
            forall|k: int| 0 <= k < MAX_PLAYERS ==> {
                &&& (#[trigger] spawns[k]).0 == spawn_cells()[k].0
                &&& spawns[k].1 == spawn_cells()[k].1
            },
            forall|k: int| 0 <= k < slot ==> !#[trigger] near_spawn(k, r as int, c as int),
        decreases MAX_PLAYERS - slot,
    {
        let (sr, sc) = spawns[slot];
        let dr: usize = if r >= sr { r - sr } else { sr - r };
        let dc: usize = if c >= sc { c - sc } else { sc - c };
        if dr <= 2 && dc <= 2 - dr {
            assert(near_spawn(slot as int, r as int, c as int));
            return true;
        }
        slot += 1;
    }
    false
}

/// Builds the arena: pillars on the even interior intersections, free ground
/// around the four spawn corners, destructible blocks everywhere else.
pub fn generate_map() -> (map: GameMap)
    ensures
        grid_view(map) == arena(),
{
    let mut map: GameMap = [[Tile::Empty; MAP_COLS]; MAP_ROWS];
    let mut r: usize = 0;
    while r < MAP_ROWS
        invariant
            r <= MAP_ROWS,
            forall|i: int, j: int| 0 <= i < r && 0 <= j < MAP_COLS ==> #[trigger] map[i][j] == generated_tile(i, j),
        decreases MAP_ROWS - r,
    {
        let mut c: usize = 0;
        while c < MAP_COLS
            invariant
                r < MAP_ROWS,
                c <= MAP_COLS,
                forall|i: int, j: int| 0 <= i < r && 0 <= j < MAP_COLS ==> #[trigger] map[i][j] == generated_tile(i, j),
                forall|j: int| 0 <= j < c ==> #[trigger] map[r as int][j] == generated_tile(r as int, j),
            decreases MAP_COLS - c,
        {
            let pillar = r % 2 == 0 && c % 2 == 0 && r > 0 && c > 0 && r < MAP_ROWS - 1 && c < MAP_COLS - 1;
            let tile = if pillar {
                Tile::HardBlock
            } else if is_spawn_safe_zone(r, c) {
                Tile::Empty
            } else {
                Tile::SoftBlock
            };
            map[r][c] = tile;
            c += 1;
        }
        r += 1;
    }
    assert(grid_view(map) =~~= arena());
    map
}

} // verus!
