//! Snapshots: the game as the messages report it.

use vstd::prelude::*;
use crate::constants::{MAP_COLS, MAP_ROWS};
use crate::game::{Bomb, Explosion, GameInstance, GameView, Item, Player};
use crate::map::Tile;
use crate::protocol::{
    rows_view, BombState, ExplosionState, ItemState, PlayerState, ServerMsg, ServerMsgView,
};

verus! {

/// The roster entry of a player: all of it but what only the engine needs,
/// the bombs out and the movement intent.
pub open spec fn roster_entry(p: Player) -> PlayerState {
    PlayerState {
        id: p.id,
        name: p.name,
        x: p.x,
        y: p.y,
        alive: p.alive,
        speed: p.speed,
        bomb_range: p.bomb_range,
        max_bombs: p.max_bombs,
        color_index: p.color_index,
    }
}

/// The report of a bomb: its cell, owner and fuse.
pub open spec fn bomb_entry(b: Bomb) -> BombState {
    BombState { x: b.x, y: b.y, owner: b.owner, timer: b.timer }
}

/// The report of an explosion.
pub open spec fn explosion_entry(e: Explosion) -> ExplosionState {
    ExplosionState { x: e.x, y: e.y, timer: e.timer }
}

/// The report of an item.
pub open spec fn item_entry(it: Item) -> ItemState {
    ItemState { x: it.x, y: it.y, kind: it.kind }
}

/// The roster of a game, in joining order.
pub open spec fn roster(players: Seq<Player>) -> Seq<PlayerState> {
    players.map_values(|p: Player| roster_entry(p))
}

/// The full snapshot of a game.
pub open spec fn snapshot(s: GameView) -> ServerMsgView {
    ServerMsgView::GameState {
        players: roster(s.players),
        bombs: s.bombs.map_values(|b: Bomb| bomb_entry(b)),
        explosions: s.explosions.map_values(|e: Explosion| explosion_entry(e)),
        items: s.items.map_values(|it: Item| item_entry(it)),
        map: s.grid,
        tick: s.tick,
    }
}

impl GameInstance {
    /// The roster, in joining order.
    pub fn player_states(&self) -> (entries: Vec<PlayerState>)
        ensures
            entries@ == roster(self@.players),
    {
        let mut entries: Vec<PlayerState> = Vec::new();
        let mut i: usize = 0;
        while i < self.players.len()
            invariant
                i <= self.players.len(),
                entries@.len() == i,
                forall|j: int| 0 <= j < i ==> #[trigger] entries@[j] == roster_entry(self@.players[j]),
            decreases self.players.len() - i,
        {
            let p = &self.players[i];
            entries.push(
                PlayerState {
                    id: p.id,
                    name: p.name.clone(),
                    x: p.x,
                    y: p.y,
                    alive: p.alive,
                    speed: p.speed,
                    bomb_range: p.bomb_range,
                    max_bombs: p.max_bombs,
                    color_index: p.color_index,
                },
            );
            i += 1;
        }
        assert(entries@ =~= roster(self@.players));
        entries
    }

    /// The grid as rows of tiles, as a message carries it.
    pub fn map_rows(&self) -> (rows: Vec<Vec<Tile>>)
        ensures
            rows_view(rows) == self@.grid,
    {
        let mut rows: Vec<Vec<Tile>> = Vec::new();
        let mut r: usize = 0;
        while r < MAP_ROWS
            invariant
                r <= MAP_ROWS,
                rows@.len() == r,
                forall|i: int| 0 <= i < r ==> (#[trigger] rows@[i])@ == self@.grid[i],
            decreases MAP_ROWS - r,
        {
            let mut row: Vec<Tile> = Vec::new();
            let mut c: usize = 0;
            while c < MAP_COLS
                invariant
                    r < MAP_ROWS,
                    c <= MAP_COLS,
                    row@.len() == c,
                    forall|j: int| 0 <= j < c ==> #[trigger] row@[j] == self@.grid[r as int][j],
                decreases MAP_COLS - c,
            {
                row.push(self.map[r][c]);
                c += 1;
            }
            assert(row@ =~= self@.grid[r as int]);
            rows.push(row);
            r += 1;
        }
        assert(rows_view(rows) =~= self@.grid);
        rows
    }

    /// The full snapshot of the game.
    pub fn get_state_msg(&self) -> (msg: ServerMsg)
        ensures
            msg@ == snapshot(self@),
    {
        let mut bombs: Vec<BombState> = Vec::new();
        let mut i: usize = 0;
        while i < self.bombs.len()
            invariant
                i <= self.bombs.len(),
                bombs@.len() == i,
                forall|j: int| 0 <= j < i ==> #[trigger] bombs@[j] == bomb_entry(self@.bombs[j]),
            decreases self.bombs.len() - i,
        {
            let b = self.bombs[i];
            bombs.push(BombState { x: b.x, y: b.y, owner: b.owner, timer: b.timer });
            i += 1;
        }
        let mut explosions: Vec<ExplosionState> = Vec::new();
        let mut i: usize = 0;
        while i < self.explosions.len()
            invariant
                i <= self.explosions.len(),
                explosions@.len() == i,
                forall|j: int| 0 <= j < i ==> #[trigger] explosions@[j] == explosion_entry(self@.explosions[j]),
            decreases self.explosions.len() - i,
        {
            let e = self.explosions[i];
            explosions.push(ExplosionState { x: e.x, y: e.y, timer: e.timer });
            i += 1;
        }
        let mut items: Vec<ItemState> = Vec::new();
        let mut i: usize = 0;
        while i < self.items.len()
            invariant
                i <= self.items.len(),
                items@.len() == i,
                forall|j: int| 0 <= j < i ==> #[trigger] items@[j] == item_entry(self@.items[j]),
            decreases self.items.len() - i,
        {
            let it = self.items[i];
            items.push(ItemState { x: it.x, y: it.y, kind: it.kind });
            i += 1;
        }
        assert(bombs@ =~= self@.bombs.map_values(|b: Bomb| bomb_entry(b)));
        assert(explosions@ =~= self@.explosions.map_values(|e: Explosion| explosion_entry(e)));
        assert(items@ =~= self@.items.map_values(|it: Item| item_entry(it)));
        ServerMsg::GameState {
            players: self.player_states(),
            bombs,
            explosions,
            items,
            map: self.map_rows(),
            tick: self.tick,
        }
    }
}

} // verus!
