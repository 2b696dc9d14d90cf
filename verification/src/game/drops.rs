//! Item drops: what a destroyed block leaves behind.
//!
//! Which blocks a tick destroys is decided by the bomb phase alone; what each
//! of them drops is a matter of chance. The two are kept apart: the draws are
//! made here, and `spawn_items` lays out a given list of outcomes. An item
//! remembers the detonation that destroyed its block: only a later one can
//! take it again.

use vstd::prelude::*;
use crate::constants::{ITEM_DROP_DENOMINATOR, ITEM_DROP_NUMERATOR, ITEM_KINDS};
use crate::game::{items_wf, rubble_wf, GameInstance, GameView, Item, Rubble};
use crate::map::in_grid;
use crate::protocol::ItemKind;
use crate::random::{random_below, random_ratio};

verus! {

/// The kind that a draw `k` from `0 .. ITEM_KINDS` selects.
pub open spec fn kind_of_roll(k: u32) -> ItemKind {
    if k == 0 {
        ItemKind::BombRange
    } else if k == 1 {
        ItemKind::BombCount
    } else {
        ItemKind::Speed
    }
}

/// The item that a destroyed block leaves when its draw gave `kind`: it lies
/// on the block's cell, and is as old as the detonation that destroyed the
/// block.
pub open spec fn drop_on(rubble: Rubble, kind: ItemKind) -> Item {
    Item { x: rubble.x, y: rubble.y, kind, born: rubble.blast }
}

/// The items that the destroyed blocks `rubble` leave, given one outcome per
/// block in `drops`. A block without an outcome leaves nothing.
pub open spec fn spawned(rubble: Seq<Rubble>, drops: Seq<Option<ItemKind>>) -> Seq<Item>
    decreases rubble.len(),
{
    if rubble.len() == 0 {
        Seq::empty()
    } else {
        let k = rubble.len() - 1;
        let rest = spawned(rubble.drop_last(), drops);
        if k < drops.len() && drops[k] is Some {
            rest.push(drop_on(rubble[k], drops[k]->0))
        } else {
            rest
        }
    }
}

/// The game with `extra` added to its items.
pub open spec fn with_items(s: GameView, extra: Seq<Item>) -> GameView {
    GameView { items: s.items + extra, ..s }
}

/// Every item that destroyed blocks leave is the drop of one of them, under
/// the outcome drawn for it.
pub proof fn lemma_spawned_from_rubble(rubble: Seq<Rubble>, drops: Seq<Option<ItemKind>>, i: int)
    requires
        0 <= i < spawned(rubble, drops).len(),
    ensures
        exists|k: int|
            0 <= k < rubble.len() && k < drops.len() && drops[k] is Some && spawned(rubble, drops)[i] == drop_on(
                #[trigger] rubble[k],
                drops[k]->0,
            ),
    decreases rubble.len(),
{
    let k = rubble.len() - 1;
    let rest = spawned(rubble.drop_last(), drops);
    if i < rest.len() {
        lemma_spawned_from_rubble(rubble.drop_last(), drops, i);
        let w = choose|w: int|
            0 <= w < rubble.drop_last().len() && w < drops.len() && drops[w] is Some && rest[i] == drop_on(
                #[trigger] rubble.drop_last()[w],
                drops[w]->0,
            );
        assert(rubble[w] == rubble.drop_last()[w]);
    } else {
        assert(spawned(rubble, drops)[i] == drop_on(rubble[k], drops[k]->0));
    }
}

/// Every destroyed block whose draw hit leaves its item.
pub proof fn lemma_spawned_holds(rubble: Seq<Rubble>, drops: Seq<Option<ItemKind>>, k: int)
    requires
        0 <= k < rubble.len(),
        k < drops.len(),
        drops[k] is Some,
    ensures
        spawned(rubble, drops).contains(drop_on(rubble[k], drops[k]->0)),
    decreases rubble.len(),
{
    let last = rubble.len() - 1;
    let rest = spawned(rubble.drop_last(), drops);
    let all = spawned(rubble, drops);
    if k == last {
        assert(all[all.len() - 1] == drop_on(rubble[k], drops[k]->0));
    } else {
        lemma_spawned_holds(rubble.drop_last(), drops, k);
        let w = choose|w: int| 0 <= w < rest.len() && rest[w] == drop_on(rubble.drop_last()[k], drops[k]->0);
        assert(all[w] == rest[w]);
    }
}

/// The drops of well-formed rubble are well-formed items.
pub proof fn lemma_spawned_wf(rubble: Seq<Rubble>, drops: Seq<Option<ItemKind>>, blasts: u64)
    requires
        rubble_wf(rubble, blasts),
    ensures
        items_wf(spawned(rubble, drops), blasts),
{
    let all = spawned(rubble, drops);
    assert forall|i: int| 0 <= i < all.len() implies in_grid((#[trigger] all[i]).y as int, all[i].x as int)
        && all[i].born <= blasts by {
        lemma_spawned_from_rubble(rubble, drops, i);
    }
}

/// The kind that a draw `k` selects.
pub fn kind_from_roll(k: u32) -> (kind: ItemKind)
    ensures
        kind == kind_of_roll(k),
{
    if k == 0 {
        ItemKind::BombRange
    } else if k == 1 {
        ItemKind::BombCount
    } else {
        ItemKind::Speed
    }
}

/// Draws what one destroyed block drops: an item with probability
/// `ITEM_DROP_NUMERATOR / ITEM_DROP_DENOMINATOR`, of a kind drawn uniformly.
/// Every outcome is possible, so nothing is promised of the result; what the
/// draws are turned into is stated on `drop_from_rolls`.
pub fn roll_drop() -> (outcome: Option<ItemKind>) {
    let hit = random_ratio(ITEM_DROP_NUMERATOR, ITEM_DROP_DENOMINATOR);
    let k = if hit {
        random_below(ITEM_KINDS)
    } else {
        0
    };
    drop_from_rolls(hit, k)
}

/// Draws the outcomes for `n` destroyed blocks, one after the other.
pub fn roll_drops(n: usize) -> (drops: Vec<Option<ItemKind>>)
    ensures
        drops@.len() == n,
{
    let mut drops: Vec<Option<ItemKind>> = Vec::new();
    let mut i: usize = 0;
    while i < n
        invariant
            i <= n,
            drops@.len() == i,
        decreases n - i,
    {
        drops.push(roll_drop());
        i += 1;
    }
    drops
}

/// What a destroyed block drops, given whether the drop draw hit and what the
/// kind draw gave: nothing on a miss, else an item of the kind drawn.
pub open spec fn drop_of(hit: bool, k: u32) -> Option<ItemKind> {
    if hit {
        Some(kind_of_roll(k))
    } else {
        None
    }
}

/// What a destroyed block drops, given whether the drop draw hit and what the
/// kind draw gave.
pub fn drop_from_rolls(hit: bool, k: u32) -> (outcome: Option<ItemKind>)
    ensures
        outcome == drop_of(hit, k),
{
    if hit {
        Some(kind_from_roll(k))
    } else {
        None
    }
}

impl GameInstance {
    /// Lays out what the destroyed blocks `rubble` leave behind: for each of
    /// them, in order, the item that `drops` names at the same index, if it
    /// names one.
    pub fn spawn_items(&mut self, rubble: &Vec<Rubble>, drops: &Vec<Option<ItemKind>>)
        requires
            old(self).wf(),
            rubble_wf(rubble@, old(self)@.blasts),
        ensures
            final(self).wf(),
            final(self)@ == with_items(old(self)@, spawned(rubble@, drops@)),
    {
        let ghost start = self@;
        let mut k: usize = 0;
        while k < rubble.len()
            invariant
                start.wf(),
                self.wf(),
                k <= rubble.len(),
                rubble_wf(rubble@, start.blasts),
                self@ == with_items(start, spawned(rubble@.subrange(0, k as int), drops@)),
            decreases rubble.len() - k,
        {
            proof {
                let upto = rubble@.subrange(0, k + 1);
                assert(upto.drop_last() =~= rubble@.subrange(0, k as int));
                assert(upto[k as int] == rubble@[k as int]);
            }
            if k < drops.len() {
                match drops[k] {
                    Some(kind) => {
                        let r = rubble[k];
                        self.items.push(Item { x: r.x, y: r.y, kind, born: r.blast });
                        assert(self@.items =~= start.items + spawned(rubble@.subrange(0, k + 1), drops@));
                    },
                    None => {},
                }
            }
            k += 1;
        }
        assert(rubble@.subrange(0, k as int) =~= rubble@);
    }
}

} // verus!
