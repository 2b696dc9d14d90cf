//! Fixed parameters of the arena.
//!
//! Positions, speeds and movement intents are fixed-point integers. The units
//! are chosen so that the distance covered in one tick,
//! `intent * speed * TICK_RATE_MS`, is an exact number of position units:
//! an intent is in thousandths, a speed in thousandths of a tile per second,
//! a tick lasts `TICK_RATE_MS` thousandths of a second, and a position is in
//! billionths of a tile.

use vstd::prelude::*;

verus! {

/// Grid width in cells.
pub const MAP_COLS: usize = 15;

/// Grid height in cells.
pub const MAP_ROWS: usize = 13;

/// Length of one tick in milliseconds (20 ticks per second).
pub const TICK_RATE_MS: u64 = 50;

/// Fuse of a freshly placed bomb, in ticks (2 seconds).
pub const BOMB_TIMER_TICKS: u32 = 40;

/// Lifetime of an explosion cell, in ticks (0.5 seconds).
pub const EXPLOSION_DURATION_TICKS: u32 = 10;

/// The intent value that stands for a full push along an axis.
pub const AXIS_UNIT: i32 = 1000;

/// The speed value that stands for one tile per second.
pub const SPEED_UNIT: u32 = 1000;

/// Position units per tile.
pub const TILE_UNITS: i64 = 1_000_000_000;

/// Half a tile, added before truncation to round a position to its cell.
pub const HALF_TILE: i64 = 500_000_000;

/// Inset of a player's bounding box from the edges of its tile (0.15 tile).
pub const COLLISION_MARGIN: i64 = 150_000_000;

/// Largest x coordinate a player can have: the left edge of the last column.
pub const MAX_X: i64 = 14_000_000_000;

/// Largest y coordinate a player can have: the top edge of the last row.
pub const MAX_Y: i64 = 12_000_000_000;

/// Speed of a new player (2 tiles per second).
pub const DEFAULT_SPEED: u32 = 2000;

/// Speed gained from one speed item (0.5 tile per second).
pub const SPEED_BOOST: u32 = 500;

/// Blast range of a new player.
pub const DEFAULT_BOMB_RANGE: u32 = 1;

/// Bombs a new player may have ticking at once.
pub const DEFAULT_MAX_BOMBS: u32 = 1;

/// An item drops from a destroyed block with probability
/// `ITEM_DROP_NUMERATOR / ITEM_DROP_DENOMINATOR`.
pub const ITEM_DROP_NUMERATOR: u32 = 1;

pub const ITEM_DROP_DENOMINATOR: u32 = 3;

/// Number of item kinds, each equally likely in a drop.
pub const ITEM_KINDS: u32 = 3;

/// Most players one session holds; also the number of spawn slots.
pub const MAX_PLAYERS: usize = 4;

/// Connected players a session needs before it starts.
pub const MIN_PLAYERS: usize = 2;

/// Length of a session identifier, in characters.
pub const ROOM_ID_LEN: usize = 8;

} // verus!
