//! The messages exchanged between a client and the server.
//!
//! Positions, speeds and movement axes travel in the engine's fixed-point units
//! (see `constants`).

use vstd::prelude::*;
use crate::map::{Grid, Tile};

verus! {

/// What a client sends.
#[derive(Debug, Clone, PartialEq, Eq)]
pub enum ClientMsg {
    /// Asks for a seat under a display name.
    Join { name: String },
    /// The raw direction axes the player pushes, in axis units, before
    /// clamping.
    Move { dx: i32, dy: i32 },
    /// Asks for a bomb on the player's cell.
    PlaceBomb,
}

/// What the server sends.
#[derive(Debug, Clone, PartialEq, Eq)]
pub enum ServerMsg {
    /// Sent once to a connection that has joined.
    Welcome { player_id: u8, room_id: String },
    /// The full snapshot after one tick.
    GameState {
        players: Vec<PlayerState>,
        bombs: Vec<BombState>,
        explosions: Vec<ExplosionState>,
        items: Vec<ItemState>,
        map: Vec<Vec<Tile>>,
        tick: u64,
    },
    /// Sent once when the session reaches its quorum.
    GameStart { map: Vec<Vec<Tile>>, players: Vec<PlayerState> },
    /// Sent once when the session has ended; no winner means a draw.
    GameOver { winner: Option<u8> },
    /// Sent on a join that leaves the session below its quorum.
    Waiting { player_count: usize, need: usize },
}

/// One roster entry of a snapshot.
#[derive(Debug, Clone, PartialEq, Eq)]
pub struct PlayerState {
    pub id: u8,
    pub name: String,
    /// Left edge of the player, in position units.
    pub x: i64,
    /// Top edge of the player, in position units.
    pub y: i64,
    pub alive: bool,
    /// Speed, in speed units.
    pub speed: u32,
    pub bomb_range: u32,
    pub max_bombs: u32,
    pub color_index: u8,
}

/// One ticking bomb of a snapshot.
#[derive(Debug, Clone, Copy, PartialEq, Eq, Structural)]
pub struct BombState {
    pub x: usize,
    pub y: usize,
    pub owner: u8,
    pub timer: u32,
}

/// One burning cell of a snapshot.
#[derive(Debug, Clone, Copy, PartialEq, Eq, Structural)]
pub struct ExplosionState {
    pub x: usize,
    pub y: usize,
    pub timer: u32,
}

/// What an item grants to the player who collects it.
#[derive(Debug, Clone, Copy, PartialEq, Eq, Structural)]
pub enum ItemKind {
    /// One more cell of blast range.
    BombRange,
    /// One more bomb ticking at once.
    BombCount,
    /// A fixed gain in speed.
    Speed,
}

/// One item of a snapshot.
#[derive(Debug, Clone, Copy, PartialEq, Eq, Structural)]
pub struct ItemState {
    pub x: usize,
    pub y: usize,
    pub kind: ItemKind,
}

/// The grid that a message carries: its rows, each as a sequence of tiles.
pub open spec fn rows_view(map: Vec<Vec<Tile>>) -> Grid {
    Seq::new(map@.len(), |r: int| map@[r]@)
}

/// The mathematical content of a [`ServerMsg`].
pub enum ServerMsgView {
    Welcome { player_id: u8, room_id: Seq<char> },
    GameState {
        players: Seq<PlayerState>,
        bombs: Seq<BombState>,
        explosions: Seq<ExplosionState>,
        items: Seq<ItemState>,
        map: Grid,
        tick: u64,
    },
    GameStart { map: Grid, players: Seq<PlayerState> },
    GameOver { winner: Option<u8> },
    Waiting { player_count: usize, need: usize },
}

impl View for ServerMsg {
    type V = ServerMsgView;

    open spec fn view(&self) -> ServerMsgView {
        match *self {
            ServerMsg::Welcome { player_id, room_id } => ServerMsgView::Welcome {
                player_id,
                room_id: room_id@,
            },
            ServerMsg::GameState { players, bombs, explosions, items, map, tick } => ServerMsgView::GameState {
                players: players@,
                bombs: bombs@,
                explosions: explosions@,
                items: items@,
                map: rows_view(map),
                tick,
            },
            ServerMsg::GameStart { map, players } => ServerMsgView::GameStart {
                map: rows_view(map),
                players: players@,
            },
            ServerMsg::GameOver { winner } => ServerMsgView::GameOver { winner },
            ServerMsg::Waiting { player_count, need } => ServerMsgView::Waiting { player_count, need },
        }
    }
}

} // verus!
