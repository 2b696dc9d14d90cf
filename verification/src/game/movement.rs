//! Movement: where a player's intent takes it in one tick.

use vstd::prelude::*;
use crate::constants::{
    AXIS_UNIT, COLLISION_MARGIN, MAP_COLS, MAP_ROWS, MAX_X, MAX_Y, TICK_RATE_MS, TILE_UNITS,
};
use crate::game::{GameInstance, GameView, Player};
use crate::map::{grid_view, GameMap, Grid, Tile};

verus! {

/// Column or row under a corner of a bounding box at coordinate `v`. A corner
/// left of or above the arena counts for the first column or row.
pub open spec fn corner_index(v: int) -> int {
    if v < 0 {
        0
    } else {
        v / (TILE_UNITS as int)
    }
}

/// Whether the point `(px, py)` lies over free ground of the grid.
pub open spec fn open_ground(grid: Grid, px: int, py: int) -> bool {
    let col = corner_index(px);
    let row = corner_index(py);
    col < MAP_COLS && row < MAP_ROWS && grid[row][col] == Tile::Empty
}

/// Whether a player fits at `(x, y)`: all four corners of its bounding box,
/// inset by the collision margin, lie over free ground.
pub open spec fn can_stand(grid: Grid, x: int, y: int) -> bool {
    &&& open_ground(grid, x + COLLISION_MARGIN, y + COLLISION_MARGIN)
    &&& open_ground(grid, x + TILE_UNITS - COLLISION_MARGIN, y + COLLISION_MARGIN)
    &&& open_ground(grid, x + COLLISION_MARGIN, y + TILE_UNITS - COLLISION_MARGIN)
    &&& open_ground(grid, x + TILE_UNITS - COLLISION_MARGIN, y + TILE_UNITS - COLLISION_MARGIN)
}

/// Distance covered in one tick along an axis with the given intent and speed.
pub open spec fn stride(intent: int, speed: int) -> int {
    intent * speed * TICK_RATE_MS
}

/// `v` held within `lo ..= hi`.
pub open spec fn clamped(v: int, lo: int, hi: int) -> int {
    if v < lo {
        lo
    } else if v > hi {
        hi
    } else {
        v
    }
}

/// A player after one tick of movement. The two axes are tried one after the
/// other, x first, so a player pushed diagonally into a wall slides along it.
/// A dead player stays where it is.
pub open spec fn moved(p: Player, grid: Grid) -> Player {
    if !p.alive {
        p
    } else {
        let new_x = p.x + stride(p.dx as int, p.speed as int);
        let x1 = if can_stand(grid, new_x, p.y as int) {
            new_x
        } else {
            p.x as int
        };
        let new_y = p.y + stride(p.dy as int, p.speed as int);
        let y1 = if can_stand(grid, x1, new_y) {
            new_y
        } else {
            p.y as int
        };
        Player { x: clamped(x1, 0, MAX_X as int) as i64, y: clamped(y1, 0, MAX_Y as int) as i64, ..p }
    }
}

/// The game after every player moved.
pub open spec fn players_moved(s: GameView) -> GameView {
    GameView { players: s.players.map_values(|p: Player| moved(p, s.grid)), ..s }
}

/// Column or row under a corner at coordinate `v`.
fn corner(v: i64) -> (c: usize)
    requires
        v < 16 * TILE_UNITS,
    ensures
        c == corner_index(v as int),
{
    if v < 0 {
        0
    } else {
        (v / TILE_UNITS) as usize
    }
}

/// Whether the point `(px, py)` lies over free ground.
fn is_open(map: &GameMap, px: i64, py: i64) -> (open: bool)
    requires
        px < 16 * TILE_UNITS,
        py < 16 * TILE_UNITS,
    ensures
        open == open_ground(grid_view(*map), px as int, py as int),
{
    let col = corner(px);
    let row = corner(py);
    if col >= MAP_COLS || row >= MAP_ROWS {
        return false;
    }
    match map[row][col] {
        Tile::Empty => true,
        _ => false,
    }
}

/// Whether a player fits at `(x, y)` on `map`. Total: any position is
/// accepted, also one far outside the arena.
pub fn can_move_to(map: &GameMap, x: i64, y: i64) -> (ok: bool)
    ensures
        ok == can_stand(grid_view(*map), x as int, y as int),
{
    if x >= MAX_X + COLLISION_MARGIN || y >= MAX_Y + COLLISION_MARGIN {
        return false;
    }
    let near = COLLISION_MARGIN;
    let far = TILE_UNITS - COLLISION_MARGIN;
    is_open(map, x + near, y + near) && is_open(map, x + far, y + near) && is_open(
        map,
        x + near,
        y + far,
    ) && is_open(map, x + far, y + far)
}

/// Distance covered in one tick along an axis.
fn stride_of(intent: i32, speed: u32) -> (d: i64)
    requires
        -AXIS_UNIT <= intent <= AXIS_UNIT,
    ensures
        d == stride(intent as int, speed as int),
        -250_000_000_000_000 <= d <= 250_000_000_000_000,
{
    assert(-1000 * 0xffff_ffff <= (intent as int) * (speed as int) <= 1000 * 0xffff_ffff)
        by (nonlinear_arith)
        requires
            -1000 <= intent <= 1000,
            0 <= speed <= 0xffff_ffff,
    ;
    let along: i64 = (intent as i64) * (speed as i64);
    let rate: i64 = TICK_RATE_MS as i64;
    assert(rate == 50);
    assert(along * rate == along * 50) by (nonlinear_arith)
        requires
            rate == 50,
    ;
    along * rate
}

impl GameInstance {
    /// The movement phase of a tick: every living player moves by its intent,
    /// as far as walls and the border allow.
    pub fn move_players(&mut self)
        requires
            old(self).wf(),
        ensures
            final(self).wf(),
            final(self)@ == players_moved(old(self)@),
    {
        let ghost start = self@;
        let mut i: usize = 0;
        while i < self.players.len()
            invariant
                start.wf(),
                self.wf(),
                i <= self.players.len(),
                self@.grid == start.grid,
                self@.bombs == start.bombs,
                self@.explosions == start.explosions,
                self@.items == start.items,
                self@.tick == start.tick,
                self@.phase == start.phase,
                self@.blasts == start.blasts,
                self@.players.len() == start.players.len(),
                forall|j: int| 0 <= j < i ==> #[trigger] self@.players[j] == moved(start.players[j], start.grid),
                forall|j: int| i <= j < self@.players.len() ==> #[trigger] self@.players[j] == start.players[j],
            decreases self.players.len() - i,
        {
            if self.players[i].alive {
                let x = self.players[i].x;
                let y = self.players[i].y;
                let new_x = x + stride_of(self.players[i].dx, self.players[i].speed);
                let new_y = y + stride_of(self.players[i].dy, self.players[i].speed);
                let x1 = if can_move_to(&self.map, new_x, y) {
                    new_x
                } else {
                    x
                };
                let y1 = if can_move_to(&self.map, x1, new_y) {
                    new_y
                } else {
                    y
                };
                self.players[i].x = if x1 < 0 {
                    0
                } else if x1 > MAX_X {
                    MAX_X
                } else {
                    x1
                };
                self.players[i].y = if y1 < 0 {
                    0
                } else if y1 > MAX_Y {
                    MAX_Y
                } else {
                    y1
                };
            }
            i += 1;
        }
        assert(self@.players =~= start.players.map_values(|p: Player| moved(p, start.grid)));
    }
}

} // verus!
