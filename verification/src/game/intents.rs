//! Player intents: steering and placing bombs. An intent changes the game at
//! once, between two ticks; one that names no player changes nothing.

use vstd::prelude::*;
use crate::constants::{AXIS_UNIT, BOMB_TIMER_TICKS};
use crate::game::{cell_index, cell_of, has_player, seat_of, Bomb, GameInstance, GameView, Player};

verus! {

/// A raw axis value held within `-AXIS_UNIT ..= AXIS_UNIT`.
pub open spec fn axis_clamped(v: i32) -> i32 {
    if v < -AXIS_UNIT {
        (-AXIS_UNIT) as i32
    } else if v > AXIS_UNIT {
        AXIS_UNIT
    } else {
        v
    }
}

/// A player after it was steered.
pub open spec fn steered(p: Player, dx: i32, dy: i32) -> Player {
    Player { dx: axis_clamped(dx), dy: axis_clamped(dy), ..p }
}

/// The game after the player `player_id` was steered.
pub open spec fn movement_set(s: GameView, player_id: u8, dx: i32, dy: i32) -> GameView {
    GameView {
        players: s.players.map_values(
            |p: Player|
                if p.id == player_id {
                    steered(p, dx, dy)
                } else {
                    p
                },
        ),
        ..s
    }
}

/// Whether a bomb sits on cell `(x, y)`.
pub open spec fn bomb_at(bombs: Seq<Bomb>, x: int, y: int) -> bool {
    exists|k: int| 0 <= k < bombs.len() && (#[trigger] bombs[k]).x == x && bombs[k].y == y
}

/// Whether the player in seat `k` may place a bomb: it lives, has fewer bombs
/// out than it may, and its cell holds no bomb yet.
pub open spec fn may_place(s: GameView, k: int) -> bool {
    let p = s.players[k];
    &&& p.alive
    &&& p.active_bombs < p.max_bombs
    &&& !bomb_at(s.bombs, cell_of(p.x as int), cell_of(p.y as int))
}

/// The bomb that player `p` places: on its cell, with a full fuse and the
/// player's range of the moment.
pub open spec fn bomb_of(p: Player) -> Bomb {
    Bomb {
        x: cell_of(p.x as int) as usize,
        y: cell_of(p.y as int) as usize,
        owner: p.id,
        timer: BOMB_TIMER_TICKS,
        range: p.bomb_range,
    }
}

/// The game after the player in seat `k` placed a bomb.
pub open spec fn placed(s: GameView, k: int) -> GameView {
    let p = s.players[k];
    GameView {
        bombs: s.bombs.push(bomb_of(p)),
        players: s.players.update(k, Player { active_bombs: (p.active_bombs + 1) as u32, ..p }),
        ..s
    }
}

/// The game after the player `player_id` asked for a bomb: placed if there is
/// such a player and it may place one, nothing otherwise.
pub open spec fn bomb_placed(s: GameView, player_id: u8) -> GameView {
    if has_player(s.players, player_id) && may_place(s, seat_of(s.players, player_id)) {
        placed(s, seat_of(s.players, player_id))
    } else {
        s
    }
}

impl GameInstance {
    /// Whether a bomb sits on cell `(x, y)`.
    fn has_bomb_at(&self, x: usize, y: usize) -> (found: bool)
        ensures
            found == bomb_at(self@.bombs, x as int, y as int),
    {
        let mut k: usize = 0;
        while k < self.bombs.len()
            invariant
                k <= self.bombs.len(),
                forall|j: int| 0 <= j < k ==> !((#[trigger] self@.bombs[j]).x == x && self@.bombs[j].y == y),
            decreases self.bombs.len() - k,
        {
            if self.bombs[k].x == x && self.bombs[k].y == y {
                return true;
            }
            k += 1;
        }
        false
    }

    /// Sets the movement intent of the player `player_id`, each axis clamped
    /// to `-AXIS_UNIT ..= AXIS_UNIT`. Changes nothing if there is no such
    /// player.
    pub fn set_player_movement(&mut self, player_id: u8, dx: i32, dy: i32)
        requires
            old(self).wf(),
        ensures
            final(self).wf(),
            final(self)@ == movement_set(old(self)@, player_id, dx, dy),
    {
        let ghost start = self@;
        match self.find_player(player_id) {
            Some(k) => {
                self.players[k].dx = if dx < -AXIS_UNIT {
                    -AXIS_UNIT
                } else if dx > AXIS_UNIT {
                    AXIS_UNIT
                } else {
                    dx
                };
                self.players[k].dy = if dy < -AXIS_UNIT {
                    -AXIS_UNIT
                } else if dy > AXIS_UNIT {
                    AXIS_UNIT
                } else {
                    dy
                };
            },
            None => {},
        }
        assert(self@.players =~= movement_set(start, player_id, dx, dy).players);
    }

    /// Marks the player `player_id` dead. Changes nothing if there is no such
    /// player.
    pub fn mark_dead(&mut self, player_id: u8)
        requires
            old(self).wf(),
        ensures
            final(self).wf(),
            final(self)@ == (GameView {
                players: old(self)@.players.map_values(
                    |p: Player|
                        if p.id == player_id {
                            Player { alive: false, ..p }
                        } else {
                            p
                        },
                ),
                ..old(self)@
            }),
    {
        let ghost start = self@;
        match self.find_player(player_id) {
            Some(k) => {
                self.players[k].alive = false;
            },
            None => {},
        }
        assert(self@.players =~= start.players.map_values(
            |p: Player|
                if p.id == player_id {
                    Player { alive: false, ..p }
                } else {
                    p
                },
        ));
    }

    /// Places a bomb on the cell of the player `player_id`, with a full fuse
    /// and the player's range. Changes nothing if there is no such player, if
    /// it is dead, if it already has as many bombs out as it may, or if its
    /// cell holds a bomb.
    pub fn place_bomb(&mut self, player_id: u8)
        requires
            old(self).wf(),
        ensures
            final(self).wf(),
            final(self)@ == bomb_placed(old(self)@, player_id),
    {
        let ghost start = self@;
        match self.find_player(player_id) {
            Some(k) => {
                assert(has_player(start.players, player_id));
                assert(seat_of(start.players, player_id) == k);
                let p = &self.players[k];
                if !p.alive || p.active_bombs >= p.max_bombs {
                    return ;
                }
                let bx = cell_index(p.x);
                let by = cell_index(p.y);
                let range = p.bomb_range;
                if self.has_bomb_at(bx, by) {
                    return ;
                }
                self.bombs.push(Bomb { x: bx, y: by, owner: player_id, timer: BOMB_TIMER_TICKS, range });
                self.players[k].active_bombs += 1;
                assert(self@.players =~= placed(start, k as int).players);
            },
            None => {},
        }
    }
}

} // verus!
