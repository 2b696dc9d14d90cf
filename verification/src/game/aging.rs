//! Explosion aging: explosions cool down and go out, and an item is lost
//! where an explosion lit after it dropped still burns.

use vstd::prelude::*;
use crate::game::{explosions_wf, items_wf, Explosion, GameInstance, GameView, Item};

verus! {

/// An explosion one tick later.
pub open spec fn cooled(e: Explosion) -> Explosion {
    Explosion { timer: if e.timer > 0 { (e.timer - 1) as u32 } else { 0 }, ..e }
}

/// Whether the explosion `e` catches the item `it`: it still burns, on the
/// item's cell, and was lit by a later detonation than the one that dropped
/// the item.
pub open spec fn catches(e: Explosion, it: Item) -> bool {
    e.x == it.x && e.y == it.y && e.timer > 0 && e.lit > it.born
}

/// Whether one of `cells` catches the item `it`.
pub open spec fn caught(cells: Seq<Explosion>, it: Item) -> bool {
    exists|k: int| 0 <= k < cells.len() && catches(#[trigger] cells[k], it)
}

/// The explosions that have not gone out.
pub open spec fn still_burning() -> spec_fn(Explosion) -> bool {
    |e: Explosion| e.timer > 0
}

/// The items that none of `cells` catches.
pub open spec fn clear_of(cells: Seq<Explosion>) -> spec_fn(Item) -> bool {
    |it: Item| !caught(cells, it)
}

/// The game after explosion aging: every explosion is one tick older, those
/// that went out are dropped, and so is every item caught by one that still
/// burns. An explosion catches only the items that lay there before it was
/// lit: the item that a destroyed block drops is not caught by the
/// detonation that destroyed the block, nor by any before it.
pub open spec fn aged(s: GameView) -> GameView {
    let cooler = s.explosions.map_values(|e: Explosion| cooled(e));
    GameView {
        explosions: cooler.filter(still_burning()),
        items: s.items.filter(clear_of(cooler)),
        ..s
    }
}

/// Whether one of `explosions` catches the item `it`.
fn is_caught(explosions: &Vec<Explosion>, it: &Item) -> (hit: bool)
    ensures
        hit == caught(explosions@, *it),
{
    let mut k: usize = 0;
    while k < explosions.len()
        invariant
            k <= explosions.len(),
            forall|j: int| 0 <= j < k ==> !catches(#[trigger] explosions@[j], *it),
        decreases explosions.len() - k,
    {
        let e = &explosions[k];
        if e.x == it.x && e.y == it.y && e.timer > 0 && e.lit > it.born {
            return true;
        }
        k += 1;
    }
    false
}

impl GameInstance {
    /// Makes every explosion one tick older.
    fn cool_explosions(&mut self)
        requires
            old(self).wf(),
        ensures
            final(self).wf(),
            final(self)@ == (GameView {
                explosions: old(self)@.explosions.map_values(|e: Explosion| cooled(e)),
                ..old(self)@
            }),
    {
        let ghost start = self@;
        let mut i: usize = 0;
        while i < self.explosions.len()
            invariant
                start.wf(),
                self.wf(),
                i <= self.explosions.len(),
                self@.grid == start.grid,
                self@.players == start.players,
                self@.bombs == start.bombs,
                self@.items == start.items,
                self@.tick == start.tick,
                self@.phase == start.phase,
                self@.blasts == start.blasts,
                self@.explosions.len() == start.explosions.len(),
                forall|j: int| 0 <= j < i ==> #[trigger] self@.explosions[j] == cooled(start.explosions[j]),
                forall|j: int|
                    i <= j < self@.explosions.len() ==> #[trigger] self@.explosions[j] == start.explosions[j],
            decreases self.explosions.len() - i,
        {
            if self.explosions[i].timer > 0 {
                self.explosions[i].timer -= 1;
            }
            i += 1;
        }
        assert(self@.explosions =~= start.explosions.map_values(|e: Explosion| cooled(e)));
    }

    /// Drops every item that an explosion catches.
    fn burn_items(&mut self)
        requires
            old(self).wf(),
        ensures
            final(self).wf(),
            final(self)@ == (GameView {
                items: old(self)@.items.filter(clear_of(old(self)@.explosions)),
                ..old(self)@
            }),
    {
        let ghost start = self@;
        let ghost keep = clear_of(start.explosions);
        let mut kept: Vec<Item> = Vec::new();
        let mut i: usize = 0;
        while i < self.items.len()
            invariant
                self@ == start,
                start.wf(),
                keep == clear_of(start.explosions),
                i <= self.items.len(),
                kept@ == start.items.subrange(0, i as int).filter(keep),
                items_wf(kept@, start.blasts),
            decreases self.items.len() - i,
        {
            let it = self.items[i];
            proof {
                assert(start.items.subrange(0, i + 1) =~= start.items.subrange(0, i as int).push(it));
                start.items.subrange(0, i as int).lemma_filter_push(it, keep);
            }
            if !is_caught(&self.explosions, &it) {
                kept.push(it);
            }
            i += 1;
        }
        assert(start.items.subrange(0, i as int) =~= start.items);
        self.items = kept;
    }

    /// Drops every explosion that has gone out.
    fn drop_spent(&mut self)
        requires
            old(self).wf(),
        ensures
            final(self).wf(),
            final(self)@ == (GameView {
                explosions: old(self)@.explosions.filter(still_burning()),
                ..old(self)@
            }),
    {
        let ghost start = self@;
        let ghost keep = still_burning();
        let mut kept: Vec<Explosion> = Vec::new();
        let mut i: usize = 0;
        while i < self.explosions.len()
            invariant
                self@ == start,
                start.wf(),
                keep == still_burning(),
                i <= self.explosions.len(),
                kept@ == start.explosions.subrange(0, i as int).filter(keep),
                explosions_wf(kept@, start.blasts),
            decreases self.explosions.len() - i,
        {
            let e = self.explosions[i];
            proof {
                assert(start.explosions.subrange(0, i + 1) =~= start.explosions.subrange(0, i as int).push(e));
                start.explosions.subrange(0, i as int).lemma_filter_push(e, keep);
            }
            if e.timer > 0 {
                kept.push(e);
            }
            i += 1;
        }
        assert(start.explosions.subrange(0, i as int) =~= start.explosions);
        self.explosions = kept;
    }

    /// The aging phase of a tick: every explosion grows one tick older, every
    /// item caught by one that still burns is lost, and the explosions that
    /// went out are dropped.
    pub fn update_explosions(&mut self)
        requires
            old(self).wf(),
        ensures
            final(self).wf(),
            final(self)@ == aged(old(self)@),
    {
        self.cool_explosions();
        self.burn_items();
        self.drop_spent();
    }
}

} // verus!
