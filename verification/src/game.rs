//! The simulation engine: one arena with its players, bombs, explosions and
//! items, advanced one tick at a time.
//!
//! The engine's state is viewed as a [`GameView`]; every operation is stated as
//! a function on views. The submodules hold one phase of a tick each.

use vstd::prelude::*;
use crate::constants::{
    AXIS_UNIT, DEFAULT_BOMB_RANGE, DEFAULT_MAX_BOMBS, DEFAULT_SPEED, HALF_TILE, MAP_COLS, MAP_ROWS,
    MAX_PLAYERS, MAX_X, MAX_Y, TILE_UNITS,
};
use crate::game::aging::aged;
use crate::game::blast::{bombs_phase, bombs_phase_broken};
use crate::game::drops::{roll_drops, spawned, with_items};
use crate::game::movement::players_moved;
use crate::game::outcome::judged;
use crate::game::pickup::items_collected;
use crate::map::{
    arena, generate_map, grid_view, grid_wf, in_grid, spawn_cells, spawn_positions, GameMap, Grid,
};
use crate::protocol::ItemKind;

pub mod aging;
pub mod blast;
pub mod chain;
pub mod drops;
pub mod fuse;
pub mod ground;
pub mod intents;
pub mod laws;
pub mod movement;
pub mod outcome;
pub mod pickup;
pub mod snapshot;
pub mod wellformed;

verus! {

/// One participant. A player is never removed: one that leaves or is
/// eliminated stays in the roster, marked dead.
#[derive(Debug, Clone, PartialEq, Eq)]
pub struct Player {
    /// Identity, unique within the session.
    pub id: u8,
    /// Display name.
    pub name: String,
    /// Left edge of the player, in position units.
    pub x: i64,
    /// Top edge of the player, in position units.
    pub y: i64,
    pub alive: bool,
    /// Speed, in speed units.
    pub speed: u32,
    /// Range that the player's next bomb will have, in cells.
    pub bomb_range: u32,
    /// Bombs the player may have ticking at once.
    pub max_bombs: u32,
    /// Bombs the player has ticking.
    pub active_bombs: u32,
    /// Spawn slot, which also selects the player's colour.
    pub color_index: u8,
    /// Movement intent along x, in axis units.
    pub dx: i32,
    /// Movement intent along y, in axis units.
    pub dy: i32,
}

/// A ticking bomb. Its range is the owner's range at the time it was placed.
#[derive(Debug, Clone, Copy, PartialEq, Eq, Structural)]
pub struct Bomb {
    /// Column of its cell.
    pub x: usize,
    /// Row of its cell.
    pub y: usize,
    /// Identity of the player who placed it.
    pub owner: u8,
    /// Ticks left on the fuse; a bomb with none left is due.
    pub timer: u32,
    /// Cells that each arm of its blast may reach.
    pub range: u32,
}

/// A burning cell.
#[derive(Debug, Clone, Copy, PartialEq, Eq, Structural)]
pub struct Explosion {
    /// Column of its cell.
    pub x: usize,
    /// Row of its cell.
    pub y: usize,
    /// Ticks left to burn.
    pub timer: u32,
    /// Number of the detonation that lit it.
    pub lit: u64,
}

/// An item lying on a cell.
#[derive(Debug, Clone, Copy, PartialEq, Eq, Structural)]
pub struct Item {
    /// Column of its cell.
    pub x: usize,
    /// Row of its cell.
    pub y: usize,
    pub kind: ItemKind,
    /// Number of the detonation that destroyed the block it dropped from.
    pub born: u64,
}

/// What is left of a destroyed block: its cell, and the number of the
/// detonation that destroyed it.
#[derive(Debug, Clone, Copy, PartialEq, Eq, Structural)]
pub struct Rubble {
    /// Column of its cell.
    pub x: usize,
    /// Row of its cell.
    pub y: usize,
    /// Number of the detonation that destroyed the block.
    pub blast: u64,
}

/// Where a game stands in its life.
#[derive(Debug, Clone, Copy, PartialEq, Eq)]
pub enum Phase {
    /// Accepting players, not ticking.
    Idle,
    /// Ticking.
    Running,
    /// Over for good. No winner means that the last players fell together.
    Finished { winner: Option<u8> },
}

/// The mathematical state of a game.
pub struct GameView {
    pub grid: Grid,
    pub players: Seq<Player>,
    pub bombs: Seq<Bomb>,
    pub explosions: Seq<Explosion>,
    pub items: Seq<Item>,
    pub tick: u64,
    pub phase: Phase,
    /// Number of detonations so far. The detonations are numbered from one.
    pub blasts: u64,
}

/// The column (for an x coordinate) or row (for a y coordinate) of the cell
/// that a player at coordinate `v` occupies: the nearest one.
pub open spec fn cell_of(v: int) -> int {
    (v + HALF_TILE) / (TILE_UNITS as int)
}

/// A player inside the arena, with no more bombs out than allowed and with a
/// clamped movement intent.
pub open spec fn player_wf(p: Player) -> bool {
    &&& 0 <= p.x <= MAX_X
    &&& 0 <= p.y <= MAX_Y
    &&& p.active_bombs <= p.max_bombs
    &&& -AXIS_UNIT <= p.dx <= AXIS_UNIT
    &&& -AXIS_UNIT <= p.dy <= AXIS_UNIT
}

/// Every player is well formed, and no identity occurs twice.
pub open spec fn players_wf(players: Seq<Player>) -> bool {
    &&& forall|i: int| 0 <= i < players.len() ==> player_wf(#[trigger] players[i])
    &&& forall|i: int, j: int|
        #![trigger players[i], players[j]]
        0 <= i < j < players.len() ==> players[i].id != players[j].id
}

/// Whether a player of identity `id` is in the roster.
pub open spec fn has_player(players: Seq<Player>, id: u8) -> bool {
    exists|k: int| 0 <= k < players.len() && (#[trigger] players[k]).id == id
}

/// The seat of the player of identity `id`, if the roster has one.
pub open spec fn seat_of(players: Seq<Player>, id: u8) -> int {
    choose|k: int| 0 <= k < players.len() && (#[trigger] players[k]).id == id
}

/// Every bomb sits on a cell of the grid, and no cell holds two.
pub open spec fn bombs_wf(bombs: Seq<Bomb>) -> bool {
    &&& forall|i: int| 0 <= i < bombs.len() ==> in_grid((#[trigger] bombs[i]).y as int, bombs[i].x as int)
    &&& forall|i: int, j: int|
        #![trigger bombs[i], bombs[j]]
        0 <= i < j < bombs.len() ==> !(bombs[i].x == bombs[j].x && bombs[i].y == bombs[j].y)
}

/// Every explosion burns on a cell of the grid, and was lit by one of the
/// first `blasts` detonations.
pub open spec fn explosions_wf(explosions: Seq<Explosion>, blasts: u64) -> bool {
    forall|i: int|
        0 <= i < explosions.len() ==> in_grid((#[trigger] explosions[i]).y as int, explosions[i].x as int)
            && explosions[i].lit <= blasts
}

/// Every item lies on a cell of the grid, and dropped in one of the first
/// `blasts` detonations.
pub open spec fn items_wf(items: Seq<Item>, blasts: u64) -> bool {
    forall|i: int|
        0 <= i < items.len() ==> in_grid((#[trigger] items[i]).y as int, items[i].x as int) && items[i].born
            <= blasts
}

/// Every destroyed block lay on a cell of the grid, and was destroyed by one
/// of the first `blasts` detonations.
pub open spec fn rubble_wf(rubble: Seq<Rubble>, blasts: u64) -> bool {
    forall|i: int|
        0 <= i < rubble.len() ==> in_grid((#[trigger] rubble[i]).y as int, rubble[i].x as int)
            && rubble[i].blast <= blasts
}

impl GameView {
    /// The invariant of a game.
    pub open spec fn wf(self) -> bool {
        &&& grid_wf(self.grid)
        &&& players_wf(self.players)
        &&& bombs_wf(self.bombs)
        &&& explosions_wf(self.explosions, self.blasts)
        &&& items_wf(self.items, self.blasts)
    }
}

/// One game.
pub struct GameInstance {
    map: GameMap,
    players: Vec<Player>,
    bombs: Vec<Bomb>,
    explosions: Vec<Explosion>,
    items: Vec<Item>,
    tick: u64,
    phase: Phase,
    blasts: u64,
}

impl View for GameInstance {
    type V = GameView;

    closed spec fn view(&self) -> GameView {
        GameView {
            grid: grid_view(self.map),
            players: self.players@,
            bombs: self.bombs@,
            explosions: self.explosions@,
            items: self.items@,
            tick: self.tick,
            phase: self.phase,
            blasts: self.blasts,
        }
    }
}

/// The spawn slot of the player who joins a roster of `n`: the slots are
/// handed out in order, and whoever comes after they ran out shares the last.
pub open spec fn spawn_slot(n: int) -> int {
    if n < MAX_PLAYERS - 1 {
        n
    } else {
        MAX_PLAYERS - 1
    }
}

/// A new player on spawn slot `slot`: alive, standing still on the slot's
/// corner, with the default speed, range and bomb allowance.
pub open spec fn recruit(id: u8, name: String, slot: int) -> Player {
    Player {
        id,
        name,
        x: (spawn_cells()[slot].1 * TILE_UNITS) as i64,
        y: (spawn_cells()[slot].0 * TILE_UNITS) as i64,
        alive: true,
        speed: DEFAULT_SPEED,
        bomb_range: DEFAULT_BOMB_RANGE,
        max_bombs: DEFAULT_MAX_BOMBS,
        active_bombs: 0,
        color_index: slot as u8,
        dx: 0,
        dy: 0,
    }
}

/// An empty game on `grid`, not yet started.
pub open spec fn opening(grid: Grid) -> GameView {
    GameView {
        grid,
        players: Seq::empty(),
        bombs: Seq::empty(),
        explosions: Seq::empty(),
        items: Seq::empty(),
        tick: 0,
        phase: Phase::Idle,
        blasts: 0,
    }
}

/// The game with its tick counter advanced. The counter stops at the largest
/// value it can hold.
pub open spec fn counted(s: GameView) -> GameView {
    GameView { tick: if s.tick < u64::MAX { (s.tick + 1) as u64 } else { s.tick }, ..s }
}

/// The game after the movement and the bomb phase of a tick.
pub open spec fn blown(s: GameView) -> GameView {
    bombs_phase(players_moved(counted(s)))
}

/// The blocks that a tick destroys, in the order of their destruction.
pub open spec fn tick_rubble(s: GameView) -> Seq<Rubble> {
    bombs_phase_broken(players_moved(counted(s)))
}

/// The game one tick later, given what the blocks destroyed in the tick
/// drop: `drops` holds one outcome for each of them, in the order of their
/// destruction. Only a running game moves: the tick is counted, the players
/// move, the fuses burn and the due bombs go off, the destroyed blocks leave
/// their drops, the explosions age, the items are collected, and the win
/// check is made.
pub open spec fn step(s: GameView, drops: Seq<Option<ItemKind>>) -> GameView {
    if s.phase == Phase::Running {
        judged(items_collected(aged(with_items(blown(s), spawned(tick_rubble(s), drops)))))
    } else {
        s
    }
}

impl GameInstance {
    /// The invariant that every operation keeps.
    pub open spec fn wf(&self) -> bool {
        self@.wf()
    }

    /// An empty game on the generated arena, not yet started.
    pub fn new() -> (game: GameInstance)
        ensures
            game.wf(),
            game@ == opening(arena()),
    {
        GameInstance::with_map(generate_map())
    }

    /// An empty game on the given grid, not yet started.
    pub fn with_map(map: GameMap) -> (game: GameInstance)
        ensures
            game.wf(),
            game@ == opening(grid_view(map)),
    {
        GameInstance {
            map,
            players: Vec::new(),
            bombs: Vec::new(),
            explosions: Vec::new(),
            items: Vec::new(),
            tick: 0,
            phase: Phase::Idle,
            blasts: 0,
        }
    }

    /// Adds a player under a fresh identity, on the next spawn slot.
    pub fn add_player(&mut self, id: u8, name: String)
        requires
            old(self).wf(),
            !has_player(old(self)@.players, id),
        ensures
            final(self).wf(),
            final(self)@ == (GameView {
                players: old(self)@.players.push(recruit(id, name, spawn_slot(old(self)@.players.len() as int))),
                ..old(self)@
            }),
    {
        let spawns = spawn_positions();
        let slot: usize = if self.players.len() < MAX_PLAYERS - 1 {
            self.players.len()
        } else {
            MAX_PLAYERS - 1
        };
        let (sr, sc) = spawns[slot];
        assert(sr == spawn_cells()[slot as int].0 && sc == spawn_cells()[slot as int].1);
        self.players.push(
            Player {
                id,
                name,
                x: (sc as i64) * TILE_UNITS,
                y: (sr as i64) * TILE_UNITS,
                alive: true,
                speed: DEFAULT_SPEED,
                bomb_range: DEFAULT_BOMB_RANGE,
                max_bombs: DEFAULT_MAX_BOMBS,
                active_bombs: 0,
                color_index: slot as u8,
                dx: 0,
                dy: 0,
            },
        );
    }

    /// Starts a game that has not started yet. A running or finished game is
    /// left as it is.
    pub fn start(&mut self)
        requires
            old(self).wf(),
        ensures
            final(self).wf(),
            final(self)@ == (GameView {
                phase: if old(self)@.phase == Phase::Idle {
                    Phase::Running
                } else {
                    old(self)@.phase
                },
                ..old(self)@
            }),
    {
        match self.phase {
            Phase::Idle => {
                self.phase = Phase::Running;
            },
            _ => {},
        }
    }

    /// The first half of a tick of a running game: counts the tick, moves
    /// the players and runs the bomb phase. Returns the destroyed blocks.
    fn open_tick(&mut self) -> (rubble: Vec<Rubble>)
        requires
            old(self).wf(),
            old(self)@.phase == Phase::Running,
        ensures
            final(self).wf(),
            final(self)@ == blown(old(self)@),
            rubble@ == tick_rubble(old(self)@),
            rubble_wf(rubble@, final(self)@.blasts),
    {
        if self.tick < u64::MAX {
            self.tick += 1;
        }
        self.move_players();
        self.update_bombs()
    }

    /// The second half of a tick: lays out the drops, ages the explosions,
    /// lets the players collect, and makes the win check.
    fn close_tick(&mut self, rubble: &Vec<Rubble>, drops: &Vec<Option<ItemKind>>)
        requires
            old(self).wf(),
            rubble_wf(rubble@, old(self)@.blasts),
        ensures
            final(self).wf(),
            final(self)@ == judged(items_collected(aged(with_items(old(self)@, spawned(rubble@, drops@))))),
    {
        self.spawn_items(rubble, drops);
        self.update_explosions();
        self.check_item_pickup();
        self.check_game_over();
    }

    /// Advances a running game by one tick, with what the destroyed blocks
    /// drop given: `drops` names, for each block that the tick destroys, in
    /// the order of their destruction, the item it leaves, if any. A block for
    /// which `drops` is too short leaves nothing. Any other game is left as it
    /// is.
    pub fn tick_with(&mut self, drops: &Vec<Option<ItemKind>>)
        requires
            old(self).wf(),
        ensures
            final(self).wf(),
            final(self)@ == step(old(self)@, drops@),
    {
        match self.phase {
            Phase::Running => {},
            _ => {
                return ;
            },
        }
        let rubble = self.open_tick();
        self.close_tick(&rubble, drops);
    }

    /// Advances a running game by one tick; leaves any other game as it is.
    /// What each destroyed block drops is drawn: the game after the tick is
    /// what `tick_with` gives for some list of outcomes, one for each block
    /// that the tick destroys.
    pub fn tick(&mut self)
        requires
            old(self).wf(),
        ensures
            final(self).wf(),
            exists|drops: Seq<Option<ItemKind>>|
                drops.len() == tick_rubble(old(self)@).len() && final(self)@ == #[trigger] step(old(self)@, drops),
    {
        match self.phase {
            Phase::Running => {},
            _ => {
                proof {
                    let none = Seq::new(tick_rubble(self@).len(), |i: int| None::<ItemKind>);
                    assert(self@ == step(self@, none));
                }
                return ;
            },
        }
        let rubble = self.open_tick();
        let drops = roll_drops(rubble.len());
        self.close_tick(&rubble, &drops);
        assert(self@ == step(old(self)@, drops@));
    }

    /// Number of detonations so far.
    pub fn blasts(&self) -> (n: u64)
        ensures
            n == self@.blasts,
    {
        self.blasts
    }

    /// The grid.
    pub fn map(&self) -> (map: &GameMap)
        ensures
            grid_view(*map) == self@.grid,
    {
        &self.map
    }

    /// The roster, in joining order.
    pub fn players(&self) -> (players: &Vec<Player>)
        ensures
            players@ == self@.players,
    {
        &self.players
    }

    /// The ticking bombs, in the order in which they were placed.
    pub fn bombs(&self) -> (bombs: &Vec<Bomb>)
        ensures
            bombs@ == self@.bombs,
    {
        &self.bombs
    }

    /// The burning cells, in the order in which they were lit.
    pub fn explosions(&self) -> (explosions: &Vec<Explosion>)
        ensures
            explosions@ == self@.explosions,
    {
        &self.explosions
    }

    /// The items on the ground, in the order in which they dropped.
    pub fn items(&self) -> (items: &Vec<Item>)
        ensures
            items@ == self@.items,
    {
        &self.items
    }

    /// Number of ticks that the game has run.
    pub fn ticks(&self) -> (n: u64)
        ensures
            n == self@.tick,
    {
        self.tick
    }

    /// Where the game stands in its life.
    pub fn phase(&self) -> (phase: Phase)
        ensures
            phase == self@.phase,
    {
        self.phase
    }

    /// Whether the game is ticking.
    pub fn running(&self) -> (yes: bool)
        ensures
            yes == (self@.phase == Phase::Running),
    {
        match self.phase {
            Phase::Running => true,
            _ => false,
        }
    }

    /// Whether the game is over.
    pub fn finished(&self) -> (yes: bool)
        ensures
            yes == (self@.phase is Finished),
    {
        match self.phase {
            Phase::Finished { .. } => true,
            _ => false,
        }
    }

    /// The winner of a finished game, if it has one.
    pub fn winner(&self) -> (winner: Option<u8>)
        ensures
            winner == match self@.phase {
                Phase::Finished { winner } => winner,
                _ => None,
            },
    {
        match self.phase {
            Phase::Finished { winner } => winner,
            _ => None,
        }
    }
}

impl GameInstance {
    /// Where in the roster the player with identity `id` stands, if there is
    /// one.
    pub(crate) fn find_player(&self, id: u8) -> (found: Option<usize>)
        ensures
            found matches Some(k) ==> k < self@.players.len() && self@.players[k as int].id == id,
            found is None ==> forall|j: int| 0 <= j < self@.players.len() ==> (#[trigger] self@.players[j]).id != id,
    {
        let mut k: usize = 0;
        while k < self.players.len()
            invariant
                k <= self.players.len(),
                forall|j: int| 0 <= j < k ==> (#[trigger] self@.players[j]).id != id,
            decreases self.players.len() - k,
        {
            if self.players[k].id == id {
                return Some(k);
            }
            k += 1;
        }
        None
    }
}

/// The column or row of the cell that a player at coordinate `v` occupies.
pub(crate) fn cell_index(v: i64) -> (c: usize)
    requires
        0 <= v <= MAX_X,
    ensures
        c == cell_of(v as int),
        c < MAP_COLS,
        v <= MAX_Y ==> c < MAP_ROWS,
{
    ((v + HALF_TILE) / TILE_UNITS) as usize
}

} // verus!
