//! Item pickup: a living player standing on an item collects it.

use vstd::prelude::*;
use crate::constants::SPEED_BOOST;
use crate::game::{cell_index, cell_of, items_wf, GameInstance, GameView, Item, Player};
use crate::protocol::ItemKind;

verus! {

/// Whether `p` is alive and occupies cell `(x, y)`.
pub open spec fn stands_on(p: Player, x: int, y: int) -> bool {
    p.alive && cell_of(p.x as int) == x && cell_of(p.y as int) == y
}

/// Index of the first player at or after `from` who stands on `(x, y)`; the
/// number of players if there is none.
pub open spec fn picker(players: Seq<Player>, x: int, y: int, from: int) -> int
    decreases players.len() - from,
{
    if from >= players.len() {
        players.len() as int
    } else if stands_on(players[from], x, y) {
        from
    } else {
        picker(players, x, y, from + 1)
    }
}

/// `v + by`, held at the largest value of a `u32`.
pub open spec fn raised(v: u32, by: u32) -> u32 {
    if v + by > u32::MAX {
        u32::MAX
    } else {
        (v + by) as u32
    }
}

/// A player after collecting an item of the given kind.
pub open spec fn upgraded(p: Player, kind: ItemKind) -> Player {
    match kind {
        ItemKind::BombRange => Player { bomb_range: raised(p.bomb_range, 1), ..p },
        ItemKind::BombCount => Player { max_bombs: raised(p.max_bombs, 1), ..p },
        ItemKind::Speed => Player { speed: raised(p.speed, SPEED_BOOST), ..p },
    }
}

/// The roster after `item` was offered: the first living player on its cell,
/// in roster order, collects it.
pub open spec fn awarded(players: Seq<Player>, item: Item) -> Seq<Player> {
    let k = picker(players, item.x as int, item.y as int, 0);
    if 0 <= k < players.len() {
        players.update(k, upgraded(players[k], item.kind))
    } else {
        players
    }
}

/// The roster after each of `items` was offered, in order.
pub open spec fn awarded_all(players: Seq<Player>, items: Seq<Item>) -> Seq<Player>
    decreases items.len(),
{
    if items.len() == 0 {
        players
    } else {
        awarded(awarded_all(players, items.drop_last()), items.last())
    }
}

/// The items on whose cell no living player stands.
pub open spec fn unclaimed(players: Seq<Player>) -> spec_fn(Item) -> bool {
    |it: Item| picker(players, it.x as int, it.y as int, 0) >= players.len()
}

/// The game after item pickup: every item with a living player on its cell
/// went to the first such player and is gone; the others stay.
pub open spec fn items_collected(s: GameView) -> GameView {
    GameView {
        players: awarded_all(s.players, s.items),
        items: s.items.filter(unclaimed(s.players)),
        ..s
    }
}

/// Two rosters in which the same players stand on the same cells.
pub open spec fn same_stance(a: Seq<Player>, b: Seq<Player>) -> bool {
    &&& a.len() == b.len()
    &&& forall|j: int|
        0 <= j < a.len() ==> (#[trigger] a[j]).alive == b[j].alive && a[j].x == b[j].x && a[j].y == b[j].y
}

/// Who collects an item depends only on where the living players stand.
pub proof fn lemma_picker_same_stance(a: Seq<Player>, b: Seq<Player>, x: int, y: int, from: int)
    requires
        same_stance(a, b),
        0 <= from,
    ensures
        picker(a, x, y, from) == picker(b, x, y, from),
    decreases a.len() - from,
{
    if from < a.len() {
        assert(a[from].alive == b[from].alive);
        if !stands_on(a[from], x, y) {
            lemma_picker_same_stance(a, b, x, y, from + 1);
        }
    }
}

/// `v + by`, held at the largest value of a `u32`.
fn raise(v: u32, by: u32) -> (r: u32)
    ensures
        r == raised(v, by),
{
    if v > u32::MAX - by {
        u32::MAX
    } else {
        v + by
    }
}

impl GameInstance {
    /// Index of the first living player on cell `(x, y)`; the number of
    /// players if there is none.
    fn find_picker(&self, x: usize, y: usize) -> (k: usize)
        requires
            self.wf(),
        ensures
            k == picker(self@.players, x as int, y as int, 0),
            k <= self@.players.len(),
    {
        let mut k: usize = 0;
        while k < self.players.len()
            invariant
                self.wf(),
                k <= self.players.len(),
                picker(self@.players, x as int, y as int, 0) == picker(self@.players, x as int, y as int, k as int),
            decreases self.players.len() - k,
        {
            let p = &self.players[k];
            if p.alive && cell_index(p.x) == x && cell_index(p.y) == y {
                return k;
            }
            k += 1;
        }
        k
    }

    /// Grants player `k` what an item of the given kind grants.
    fn upgrade(&mut self, k: usize, kind: ItemKind)
        requires
            old(self).wf(),
            k < old(self)@.players.len(),
        ensures
            final(self).wf(),
            final(self)@ == (GameView {
                players: old(self)@.players.update(k as int, upgraded(old(self)@.players[k as int], kind)),
                ..old(self)@
            }),
    {
        let ghost start = self@;
        match kind {
            ItemKind::BombRange => {
                let r = raise(self.players[k].bomb_range, 1);
                self.players[k].bomb_range = r;
            },
            ItemKind::BombCount => {
                let m = raise(self.players[k].max_bombs, 1);
                self.players[k].max_bombs = m;
            },
            ItemKind::Speed => {
                let v = raise(self.players[k].speed, SPEED_BOOST);
                self.players[k].speed = v;
            },
        }
        assert(self@.players =~= start.players.update(k as int, upgraded(start.players[k as int], kind)));
    }

    /// The pickup phase of a tick: each item, in order, goes to the first
    /// living player standing on its cell, if there is one, and is then gone.
    pub fn check_item_pickup(&mut self)
        requires
            old(self).wf(),
        ensures
            final(self).wf(),
            final(self)@ == items_collected(old(self)@),
    {
        let ghost start = self@;
        let ghost keep = unclaimed(start.players);
        let mut kept: Vec<Item> = Vec::new();
        let mut i: usize = 0;
        while i < self.items.len()
            invariant
                start.wf(),
                self.wf(),
                keep == unclaimed(start.players),
                i <= self.items.len(),
                self@.grid == start.grid,
                self@.bombs == start.bombs,
                self@.explosions == start.explosions,
                self@.items == start.items,
                self@.tick == start.tick,
                self@.phase == start.phase,
                self@.blasts == start.blasts,
                same_stance(self@.players, start.players),
                self@.players == awarded_all(start.players, start.items.subrange(0, i as int)),
                kept@ == start.items.subrange(0, i as int).filter(keep),
                items_wf(kept@, start.blasts),
            decreases self.items.len() - i,
        {
            let it = self.items[i];
            proof {
                let upto = start.items.subrange(0, i + 1);
                assert(upto.drop_last() =~= start.items.subrange(0, i as int));
                assert(upto.last() == it);
                assert(upto =~= start.items.subrange(0, i as int).push(it));
                start.items.subrange(0, i as int).lemma_filter_push(it, keep);
                lemma_picker_same_stance(self@.players, start.players, it.x as int, it.y as int, 0);
            }
            let k = self.find_picker(it.x, it.y);
            if k < self.players.len() {
                self.upgrade(k, it.kind);
            } else {
                kept.push(it);
            }
            i += 1;
        }
        assert(start.items.subrange(0, i as int) =~= start.items);
        self.items = kept;
    }
}

} // verus!
