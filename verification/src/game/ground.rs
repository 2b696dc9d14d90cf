//! What stays on the ground: an item lasts until a player collects it or a
//! detonation later than its own lights its cell.

use vstd::prelude::*;
use crate::game::aging::{aged, catches, caught, clear_of, cooled};
use crate::game::blast::{
    arm_breaks, arm_broken, arm_explosion, arm_explosions, arm_len, blast, centre, covers, detonate,
    first_due, fuses_burned, lemma_resolve_extends, next_blast, resolve, resolve_broken, with_arm, Blast,
    Direction,
};
use crate::game::drops::{drop_on, lemma_spawned_holds, spawned, with_items};
use crate::game::laws::lemma_resolve_frame;
use crate::game::pickup::{picker, stands_on, unclaimed};
use crate::game::{blown, counted, step, tick_rubble, Explosion, GameView, Item, Phase, Player};
use crate::game::movement::players_moved;
use crate::map::Grid;
use crate::protocol::ItemKind;

verus! {

/// Whether a detonation later than the item's own has lit the item's cell
/// with an explosion that will still burn after the next aging.
pub open spec fn struck(explosions: Seq<Explosion>, it: Item) -> bool {
    exists|j: int|
        0 <= j < explosions.len() && (#[trigger] explosions[j]).x == it.x && explosions[j].y == it.y
            && explosions[j].lit > it.born && explosions[j].timer >= 2
}

/// Aging spares every item that no later detonation has struck: the item is
/// still there afterwards, on its cell and of its kind. In particular the
/// explosion that destroyed an item's block does not take the item.
pub proof fn lemma_aging_spares(s: GameView, i: int)
    requires
        0 <= i < s.items.len(),
        !struck(s.explosions, s.items[i]),
    ensures
        aged(s).items.contains(s.items[i]),
{
    let cooler = s.explosions.map_values(|e: Explosion| cooled(e));
    let it = s.items[i];
    assert(!caught(cooler, it)) by {
        if caught(cooler, it) {
            let k = choose|k: int| 0 <= k < cooler.len() && catches(#[trigger] cooler[k], it);
            assert(s.explosions[k].x == it.x && s.explosions[k].timer >= 2);
        }
    }
    s.items.lemma_filter_contains(clear_of(cooler), i);
}

/// Aging takes every item that a later detonation has struck.
pub proof fn lemma_aging_takes(s: GameView, it: Item)
    requires
        struck(s.explosions, it),
    ensures
        !aged(s).items.contains(it),
{
    let cooler = s.explosions.map_values(|e: Explosion| cooled(e));
    let j = choose|j: int|
        0 <= j < s.explosions.len() && (#[trigger] s.explosions[j]).x == it.x && s.explosions[j].y == it.y
            && s.explosions[j].lit > it.born && s.explosions[j].timer >= 2;
    assert(catches(cooler[j], it));
    assert(caught(cooler, it));
    if aged(s).items.contains(it) {
        let w = choose|w: int| 0 <= w < aged(s).items.len() && aged(s).items[w] == it;
        s.items.lemma_filter_pred(clear_of(cooler), w);
    }
}

/// Whether one of the explosions from index `from` on burns on `(x, y)`.
pub open spec fn lit_since(explosions: Seq<Explosion>, from: int, x: usize, y: usize) -> bool {
    exists|j: int| from <= j < explosions.len() && (#[trigger] explosions[j]).x == x && explosions[j].y == y
}

/// Setting off the due bombs moves nobody and revives nobody.
pub proof fn lemma_resolve_stance(s: GameView)
    ensures
        resolve(s).players.len() == s.players.len(),
        forall|p: int|
            0 <= p < s.players.len() ==> (#[trigger] resolve(s).players[p]).x == s.players[p].x && resolve(
                s,
            ).players[p].y == s.players[p].y && (resolve(s).players[p].alive ==> s.players[p].alive),
        s.explosions.len() <= resolve(s).explosions.len(),
    decreases s.bombs.len(),
{
    let i = first_due(s.bombs, 0);
    if 0 <= i < s.bombs.len() {
        lemma_resolve_stance(detonate(s, i));
    }
}

/// No living player is left standing on a cell that a detonation lit while
/// the due bombs went off.
pub proof fn lemma_resolve_kills(s: GameView, x: usize, y: usize, p: int)
    requires
        lit_since(resolve(s).explosions, s.explosions.len() as int, x, y),
        0 <= p < s.players.len(),
    ensures
        !stands_on(resolve(s).players[p], x as int, y as int),
    decreases s.bombs.len(),
{
    let i = first_due(s.bombs, 0);
    lemma_resolve_stance(s);
    if 0 <= i < s.bombs.len() {
        let b = s.bombs[i];
        let d = detonate(s, i);
        let cells = blast(s.grid, b.x as int, b.y as int, b.range as int, next_blast(s.blasts)).explosions;
        let end = resolve(s);
        lemma_resolve_stance(d);
        lemma_resolve_extends(d);
        let j = choose|j: int|
            s.explosions.len() <= j < end.explosions.len() && (#[trigger] end.explosions[j]).x == x
                && end.explosions[j].y == y;
        if j < d.explosions.len() {
            assert(end.explosions.subrange(0, d.explosions.len() as int)[j] == end.explosions[j]);
            assert(d.explosions[j] == cells[j - s.explosions.len()]);
            if stands_on(end.players[p], x as int, y as int) {
                assert(d.players[p].alive);
                assert(covers(cells, x as int, y as int));
            }
        } else {
            assert(lit_since(resolve(d).explosions, d.explosions.len() as int, x, y));
            lemma_resolve_kills(d, x, y, p);
        }
    }
}

/// Nobody collects an item on whose cell no living player stands.
pub proof fn lemma_picker_nobody(players: Seq<Player>, x: int, y: int, from: int)
    requires
        0 <= from,
        forall|p: int| 0 <= p < players.len() ==> !stands_on(#[trigger] players[p], x, y),
    ensures
        picker(players, x, y, from) >= players.len(),
    decreases players.len() - from,
{
    if from < players.len() {
        lemma_picker_nobody(players, x, y, from + 1);
    }
}

/// The block that an arm destroys lies under the arm's last explosion.
pub proof fn lemma_arm_rubble_lit(grid: Grid, cx: int, cy: int, dir: Direction, range: int, number: u64)
    ensures
        forall|k: int|
            0 <= k < arm_broken(grid, cx, cy, dir, range, number).len() ==> lit_since(
                arm_explosions(grid, cx, cy, dir, range, number),
                0,
                (#[trigger] arm_broken(grid, cx, cy, dir, range, number)[k]).x,
                arm_broken(grid, cx, cy, dir, range, number)[k].y,
            ),
{
    let n = arm_len(grid, cx, cy, dir, range);
    if arm_breaks(grid, cx, cy, dir, range) {
        let cells = arm_explosions(grid, cx, cy, dir, range, number);
        assert(cells[n - 1] == arm_explosion(cx, cy, dir, n, number));
    }
}

/// Whether every block of `b` lies under one of `b`'s explosions.
pub open spec fn rubble_lit(b: Blast) -> bool {
    forall|k: int| 0 <= k < b.broken.len() ==> lit_since(b.explosions, 0, (#[trigger] b.broken[k]).x, b.broken[k].y)
}

/// Adding an arm keeps every destroyed block under an explosion of the
/// detonation.
pub proof fn lemma_with_arm_rubble_lit(b: Blast, cx: int, cy: int, dir: Direction, range: int)
    requires
        rubble_lit(b),
    ensures
        rubble_lit(with_arm(b, cx, cy, dir, range)),
{
    let arm = arm_explosions(b.grid, cx, cy, dir, range, b.number);
    let more = arm_broken(b.grid, cx, cy, dir, range, b.number);
    let w = with_arm(b, cx, cy, dir, range);
    lemma_arm_rubble_lit(b.grid, cx, cy, dir, range, b.number);
    assert forall|k: int| 0 <= k < w.broken.len() implies lit_since(
        w.explosions,
        0,
        (#[trigger] w.broken[k]).x,
        w.broken[k].y,
    ) by {
        if k < b.broken.len() {
            assert(w.broken[k] == b.broken[k]);
            let j = choose|j: int|
                0 <= j < b.explosions.len() && (#[trigger] b.explosions[j]).x == b.broken[k].x
                    && b.explosions[j].y == b.broken[k].y;
            assert(w.explosions[j] == b.explosions[j]);
        } else {
            let r = more[k - b.broken.len()];
            assert(w.broken[k] == r);
            let j = choose|j: int| 0 <= j < arm.len() && (#[trigger] arm[j]).x == r.x && arm[j].y == r.y;
            assert(w.explosions[b.explosions.len() + j] == arm[j]);
        }
    }
}

/// Every block that a detonation destroys lies under one of its explosions.
pub proof fn lemma_blast_rubble_lit(grid: Grid, cx: int, cy: int, range: int, number: u64)
    ensures
        rubble_lit(blast(grid, cx, cy, range, number)),
{
    let b0 = centre(grid, cx, cy, number);
    let b1 = with_arm(b0, cx, cy, Direction::Left, range);
    let b2 = with_arm(b1, cx, cy, Direction::Right, range);
    let b3 = with_arm(b2, cx, cy, Direction::Up, range);
    lemma_with_arm_rubble_lit(b0, cx, cy, Direction::Left, range);
    lemma_with_arm_rubble_lit(b1, cx, cy, Direction::Right, range);
    lemma_with_arm_rubble_lit(b2, cx, cy, Direction::Up, range);
    lemma_with_arm_rubble_lit(b3, cx, cy, Direction::Down, range);
}

/// Every block destroyed while the due bombs go off lies, at the end, under
/// an explosion that was lit meanwhile.
pub proof fn lemma_resolve_rubble_lit(s: GameView, k: int)
    requires
        0 <= k < resolve_broken(s).len(),
    ensures
        lit_since(resolve(s).explosions, s.explosions.len() as int, resolve_broken(s)[k].x, resolve_broken(s)[k].y),
    decreases s.bombs.len(),
{
    let i = first_due(s.bombs, 0);
    if 0 <= i < s.bombs.len() {
        let b = s.bombs[i];
        let d = detonate(s, i);
        let bl = blast(s.grid, b.x as int, b.y as int, b.range as int, next_blast(s.blasts));
        let end = resolve(s);
        let all = resolve_broken(s);
        lemma_resolve_extends(d);
        if k < bl.broken.len() {
            assert(all[k] == bl.broken[k]);
            lemma_blast_rubble_lit(s.grid, b.x as int, b.y as int, b.range as int, next_blast(s.blasts));
            let j = choose|j: int|
                0 <= j < bl.explosions.len() && (#[trigger] bl.explosions[j]).x == all[k].x && bl.explosions[j].y
                    == all[k].y;
            let at = s.explosions.len() + j;
            assert(d.explosions[at] == bl.explosions[j]);
            assert(end.explosions.subrange(0, d.explosions.len() as int)[at] == end.explosions[at]);
        } else {
            assert(all[k] == resolve_broken(d)[k - bl.broken.len()]);
            lemma_resolve_rubble_lit(d, k - bl.broken.len());
            let j = choose|j: int|
                d.explosions.len() <= j < end.explosions.len() && (#[trigger] end.explosions[j]).x == all[k].x
                    && end.explosions[j].y == all[k].y;
            assert(s.explosions.len() <= j);
        }
    }
}

/// A tick leaves, for every block it destroys whose draw hit, the item drawn,
/// on the block's cell, unless a later detonation of the same tick lit that
/// cell. With `drops[k]` the outcome for the `k`-th block destroyed: if it
/// names a kind, and no explosion of the game after the bomb phase strikes
/// the drop, the drop is among the items after the tick.
pub proof fn lemma_tick_leaves_drop(s: GameView, drops: Seq<Option<ItemKind>>, k: int)
    requires
        s.phase == Phase::Running,
        0 <= k < tick_rubble(s).len(),
        k < drops.len(),
        drops[k] is Some,
        !struck(blown(s).explosions, drop_on(tick_rubble(s)[k], drops[k]->0)),
    ensures
        step(s, drops).items.contains(drop_on(tick_rubble(s)[k], drops[k]->0)),
{
    let a = players_moved(counted(s));
    let u = fuses_burned(a);
    let t = blown(s);
    let rubble = tick_rubble(s);
    let extra = spawned(rubble, drops);
    let it = drop_on(rubble[k], drops[k]->0);
    let laid = with_items(t, extra);
    lemma_spawned_holds(rubble, drops, k);
    let w = choose|w: int| 0 <= w < extra.len() && extra[w] == it;
    assert(laid.items[t.items.len() + w] == it);
    assert(!struck(laid.explosions, laid.items[t.items.len() + w]));
    lemma_aging_spares(laid, t.items.len() + w);
    let old = aged(laid);
    // nobody is left alive on the cell of a destroyed block
    lemma_resolve_rubble_lit(u, k);
    lemma_resolve_stance(u);
    assert forall|p: int| 0 <= p < old.players.len() implies !stands_on(
        #[trigger] old.players[p],
        it.x as int,
        it.y as int,
    ) by {
        lemma_resolve_kills(u, it.x, it.y, p);
    }
    lemma_picker_nobody(old.players, it.x as int, it.y as int, 0);
    let v = choose|v: int| 0 <= v < old.items.len() && old.items[v] == it;
    old.items.lemma_filter_contains(unclaimed(old.players), v);
    lemma_resolve_frame(u);
}

} // verus!
