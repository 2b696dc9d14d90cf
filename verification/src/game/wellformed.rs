//! The invariant of a game is kept by every phase of a tick.

use vstd::prelude::*;
use crate::game::aging::{aged, clear_of, cooled, still_burning};
use crate::game::blast::{
    arm_breaks, arm_broken, arm_explosions, arm_len, arm_x, arm_y, blast, centre, detonate, explode,
    first_due, fuses_burned, next_blast, resolve, resolve_broken, with_arm, Blast, Direction,
};
use crate::game::drops::{lemma_spawned_wf, spawned, with_items};
use crate::game::laws::lemma_arm_reach;
use crate::game::movement::players_moved;
use crate::game::pickup::{awarded, awarded_all, items_collected, unclaimed};
use crate::game::{
    counted, explosions_wf, items_wf, player_wf, players_wf, rubble_wf, step, tick_rubble, Explosion,
    GameView, Item, Phase, Player,
};
use crate::protocol::ItemKind;
use crate::map::{grid_wf, in_grid, Grid};

verus! {

/// Movement keeps the invariant.
pub proof fn lemma_moved_wf(s: GameView)
    requires
        s.wf(),
    ensures
        players_moved(s).wf(),
{
    let t = players_moved(s);
    assert forall|i: int| 0 <= i < t.players.len() implies player_wf(#[trigger] t.players[i]) by {
        assert(player_wf(s.players[i]));
    }
}

/// Burning the fuses keeps the invariant.
pub proof fn lemma_fuses_burned_wf(s: GameView)
    requires
        s.wf(),
    ensures
        fuses_burned(s).wf(),
{
    let t = fuses_burned(s);
    assert forall|i: int| 0 <= i < t.bombs.len() implies in_grid(
        (#[trigger] t.bombs[i]).y as int,
        t.bombs[i].x as int,
    ) by {
        assert(in_grid(s.bombs[i].y as int, s.bombs[i].x as int));
    }
    assert forall|i: int, j: int| 0 <= i < j < t.bombs.len() implies !(#[trigger] t.bombs[i].x
        == #[trigger] t.bombs[j].x && t.bombs[i].y == t.bombs[j].y) by {
        assert(!(s.bombs[i].x == s.bombs[j].x && s.bombs[i].y == s.bombs[j].y));
    }
}

/// An arm leaves a grid of the right dimensions, lights cells of the grid
/// only, and destroys blocks on cells of the grid only.
pub proof fn lemma_with_arm_wf(b: Blast, cx: int, cy: int, dir: Direction, range: int)
    requires
        grid_wf(b.grid),
        explosions_wf(b.explosions, b.number),
        rubble_wf(b.broken, b.number),
    ensures
        grid_wf(with_arm(b, cx, cy, dir, range).grid),
        explosions_wf(with_arm(b, cx, cy, dir, range).explosions, b.number),
        rubble_wf(with_arm(b, cx, cy, dir, range).broken, b.number),
{
    lemma_arm_reach(b.grid, cx, cy, dir, 1, range);
    let n = arm_len(b.grid, cx, cy, dir, range);
    let w = with_arm(b, cx, cy, dir, range);
    let arm = arm_explosions(b.grid, cx, cy, dir, range, b.number);
    let more = arm_broken(b.grid, cx, cy, dir, range, b.number);
    assert forall|i: int| 0 <= i < w.explosions.len() implies in_grid(
        (#[trigger] w.explosions[i]).y as int,
        w.explosions[i].x as int,
    ) && w.explosions[i].lit <= b.number by {
        if i < b.explosions.len() {
            assert(w.explosions[i] == b.explosions[i]);
        } else {
            let k = i - b.explosions.len();
            assert(w.explosions[i] == arm[k]);
            assert(in_grid(arm_y(cy, dir, k + 1), arm_x(cx, dir, k + 1)));
        }
    }
    if arm_breaks(b.grid, cx, cy, dir, range) {
        assert(in_grid(arm_y(cy, dir, n), arm_x(cx, dir, n)));
        assert forall|r: int| 0 <= r < w.grid.len() implies (#[trigger] w.grid[r]).len() == b.grid[r].len() by {}
    }
    assert forall|i: int| 0 <= i < w.broken.len() implies in_grid(
        (#[trigger] w.broken[i]).y as int,
        w.broken[i].x as int,
    ) && w.broken[i].blast <= b.number by {
        if i < b.broken.len() {
            assert(w.broken[i] == b.broken[i]);
        } else {
            assert(w.broken[i] == more[i - b.broken.len()]);
            assert(in_grid(arm_y(cy, dir, n), arm_x(cx, dir, n)));
        }
    }
}

/// A detonation on a cell of the grid leaves a grid of the right dimensions,
/// and lights cells and destroys blocks of the grid only, all under its own
/// number.
pub proof fn lemma_blast_wf(grid: Grid, cx: int, cy: int, range: int, number: u64)
    requires
        grid_wf(grid),
        in_grid(cy, cx),
    ensures
        blast(grid, cx, cy, range, number).number == number,
        grid_wf(blast(grid, cx, cy, range, number).grid),
        explosions_wf(blast(grid, cx, cy, range, number).explosions, number),
        rubble_wf(blast(grid, cx, cy, range, number).broken, number),
{
    let b0 = centre(grid, cx, cy, number);
    let b1 = with_arm(b0, cx, cy, Direction::Left, range);
    let b2 = with_arm(b1, cx, cy, Direction::Right, range);
    let b3 = with_arm(b2, cx, cy, Direction::Up, range);
    lemma_with_arm_wf(b0, cx, cy, Direction::Left, range);
    lemma_with_arm_wf(b1, cx, cy, Direction::Right, range);
    lemma_with_arm_wf(b2, cx, cy, Direction::Up, range);
    lemma_with_arm_wf(b3, cx, cy, Direction::Down, range);
}

/// A detonation on a cell of the grid keeps the invariant.
pub proof fn lemma_explode_wf(s: GameView, cx: int, cy: int, range: int)
    requires
        s.wf(),
        in_grid(cy, cx),
    ensures
        explode(s, cx, cy, range).wf(),
        explode(s, cx, cy, range).blasts == next_blast(s.blasts),
{
    let b = blast(s.grid, cx, cy, range, next_blast(s.blasts));
    let t = explode(s, cx, cy, range);
    lemma_blast_wf(s.grid, cx, cy, range, next_blast(s.blasts));
    assert forall|i: int| 0 <= i < t.explosions.len() implies in_grid(
        (#[trigger] t.explosions[i]).y as int,
        t.explosions[i].x as int,
    ) && t.explosions[i].lit <= t.blasts by {
        if i < s.explosions.len() {
            assert(t.explosions[i] == s.explosions[i]);
        } else {
            assert(t.explosions[i] == b.explosions[i - s.explosions.len()]);
        }
    }
    assert forall|i: int| 0 <= i < t.items.len() implies in_grid(
        (#[trigger] t.items[i]).y as int,
        t.items[i].x as int,
    ) && t.items[i].born <= t.blasts by {
        assert(t.items[i] == s.items[i]);
    }
    assert forall|i: int| 0 <= i < t.players.len() implies player_wf(#[trigger] t.players[i]) by {
        assert(player_wf(s.players[i]));
    }
    assert forall|i: int, j: int| 0 <= i < j < t.players.len() implies #[trigger] t.players[i].id
        != #[trigger] t.players[j].id by {
        assert(s.players[i].id != s.players[j].id);
    }
    assert forall|i: int| 0 <= i < t.bombs.len() implies in_grid(
        (#[trigger] t.bombs[i]).y as int,
        t.bombs[i].x as int,
    ) by {
        assert(in_grid(s.bombs[i].y as int, s.bombs[i].x as int));
    }
    assert forall|i: int, j: int| 0 <= i < j < t.bombs.len() implies !(#[trigger] t.bombs[i].x
        == #[trigger] t.bombs[j].x && t.bombs[i].y == t.bombs[j].y) by {
        assert(!(s.bombs[i].x == s.bombs[j].x && s.bombs[i].y == s.bombs[j].y));
    }
}

/// Setting off one bomb keeps the invariant.
pub proof fn lemma_detonate_wf(s: GameView, i: int)
    requires
        s.wf(),
        0 <= i < s.bombs.len(),
    ensures
        detonate(s, i).wf(),
{
    let b = s.bombs[i];
    let gone = GameView { bombs: s.bombs.remove(i), ..s };
    assert(in_grid(b.y as int, b.x as int));
    assert forall|k: int| 0 <= k < gone.bombs.len() implies in_grid(
        (#[trigger] gone.bombs[k]).y as int,
        gone.bombs[k].x as int,
    ) by {
        if k < i {
            assert(gone.bombs[k] == s.bombs[k]);
        } else {
            assert(gone.bombs[k] == s.bombs[k + 1]);
        }
    }
    assert forall|k: int, l: int| 0 <= k < l < gone.bombs.len() implies !(#[trigger] gone.bombs[k].x
        == #[trigger] gone.bombs[l].x && gone.bombs[k].y == gone.bombs[l].y) by {
        let k0 = if k < i { k } else { k + 1 };
        let l0 = if l < i { l } else { l + 1 };
        assert(gone.bombs[k] == s.bombs[k0]);
        assert(gone.bombs[l] == s.bombs[l0]);
        assert(!(s.bombs[k0].x == s.bombs[l0].x && s.bombs[k0].y == s.bombs[l0].y));
    }
    lemma_explode_wf(gone, b.x as int, b.y as int, b.range as int);
    let t = explode(gone, b.x as int, b.y as int, b.range as int);
    let d = detonate(s, i);
    assert forall|k: int| 0 <= k < d.players.len() implies player_wf(#[trigger] d.players[k]) by {
        assert(player_wf(t.players[k]));
    }
    assert forall|k: int, l: int| 0 <= k < l < d.players.len() implies #[trigger] d.players[k].id
        != #[trigger] d.players[l].id by {
        assert(t.players[k].id != t.players[l].id);
    }
}

/// Setting off all due bombs keeps the invariant.
pub proof fn lemma_resolve_wf(s: GameView)
    requires
        s.wf(),
    ensures
        resolve(s).wf(),
    decreases s.bombs.len(),
{
    let i = first_due(s.bombs, 0);
    if 0 <= i < s.bombs.len() {
        lemma_detonate_wf(s, i);
        lemma_resolve_wf(detonate(s, i));
    }
}

/// Explosion aging keeps the invariant.
pub proof fn lemma_aged_wf(s: GameView)
    requires
        s.wf(),
    ensures
        aged(s).wf(),
{
    let cooler = s.explosions.map_values(|e: Explosion| cooled(e));
    let t = aged(s);
    assert forall|i: int| 0 <= i < t.explosions.len() implies in_grid(
        (#[trigger] t.explosions[i]).y as int,
        t.explosions[i].x as int,
    ) && t.explosions[i].lit <= t.blasts by {
        assert(t.explosions.contains(t.explosions[i]));
        cooler.lemma_filter_contains_rev(still_burning(), t.explosions[i]);
        let j = choose|j: int| 0 <= j < cooler.len() && cooler[j] == t.explosions[i];
        assert(in_grid(s.explosions[j].y as int, s.explosions[j].x as int));
    }
    assert forall|i: int| 0 <= i < t.items.len() implies in_grid(
        (#[trigger] t.items[i]).y as int,
        t.items[i].x as int,
    ) && t.items[i].born <= t.blasts by {
        assert(t.items.contains(t.items[i]));
        s.items.lemma_filter_contains_rev(clear_of(cooler), t.items[i]);
        let j = choose|j: int| 0 <= j < s.items.len() && s.items[j] == t.items[i];
        assert(in_grid(s.items[j].y as int, s.items[j].x as int));
    }
}

/// Offering items keeps the roster well formed.
pub proof fn lemma_awarded_all_wf(players: Seq<Player>, items: Seq<Item>)
    requires
        players_wf(players),
    ensures
        players_wf(awarded_all(players, items)),
    decreases items.len(),
{
    if items.len() > 0 {
        let before = awarded_all(players, items.drop_last());
        lemma_awarded_all_wf(players, items.drop_last());
        let after = awarded(before, items.last());
        assert forall|i: int| 0 <= i < after.len() implies player_wf(#[trigger] after[i]) by {
            assert(player_wf(before[i]));
        }
        assert forall|i: int, j: int| 0 <= i < j < after.len() implies #[trigger] after[i].id
            != #[trigger] after[j].id by {
            assert(before[i].id != before[j].id);
        }
    }
}

/// Item pickup keeps the invariant.
pub proof fn lemma_items_collected_wf(s: GameView)
    requires
        s.wf(),
    ensures
        items_collected(s).wf(),
{
    let t = items_collected(s);
    lemma_awarded_all_wf(s.players, s.items);
    assert forall|i: int| 0 <= i < t.items.len() implies in_grid(
        (#[trigger] t.items[i]).y as int,
        t.items[i].x as int,
    ) && t.items[i].born <= t.blasts by {
        assert(t.items.contains(t.items[i]));
        s.items.lemma_filter_contains_rev(unclaimed(s.players), t.items[i]);
        let j = choose|j: int| 0 <= j < s.items.len() && s.items[j] == t.items[i];
        assert(in_grid(s.items[j].y as int, s.items[j].x as int));
    }
}

/// The blocks destroyed while all due bombs go off lay on cells of the grid,
/// and none was destroyed by a detonation that is yet to come. The count of
/// detonations never goes down.
pub proof fn lemma_resolve_rubble_wf(s: GameView)
    requires
        s.wf(),
    ensures
        s.blasts <= resolve(s).blasts,
        rubble_wf(resolve_broken(s), resolve(s).blasts),
    decreases s.bombs.len(),
{
    let i = first_due(s.bombs, 0);
    if 0 <= i < s.bombs.len() {
        let b = s.bombs[i];
        let d = detonate(s, i);
        let first = blast(s.grid, b.x as int, b.y as int, b.range as int, next_blast(s.blasts)).broken;
        let all = resolve_broken(s);
        assert(in_grid(b.y as int, b.x as int));
        lemma_detonate_wf(s, i);
        lemma_blast_wf(s.grid, b.x as int, b.y as int, b.range as int, next_blast(s.blasts));
        lemma_resolve_rubble_wf(d);
        assert(d.blasts == next_blast(s.blasts));
        assert forall|k: int| 0 <= k < all.len() implies in_grid((#[trigger] all[k]).y as int, all[k].x as int)
            && all[k].blast <= resolve(s).blasts by {
            if k < first.len() {
                assert(all[k] == first[k]);
            } else {
                assert(all[k] == resolve_broken(d)[k - first.len()]);
            }
        }
    }
}

/// Laying out what destroyed blocks leave keeps the invariant.
pub proof fn lemma_with_items_wf(s: GameView, extra: Seq<Item>)
    requires
        s.wf(),
        items_wf(extra, s.blasts),
    ensures
        with_items(s, extra).wf(),
{
    let t = with_items(s, extra);
    assert forall|i: int| 0 <= i < t.items.len() implies in_grid(
        (#[trigger] t.items[i]).y as int,
        t.items[i].x as int,
    ) && t.items[i].born <= t.blasts by {
        if i < s.items.len() {
            assert(t.items[i] == s.items[i]);
        } else {
            assert(t.items[i] == extra[i - s.items.len()]);
        }
    }
}

/// A tick keeps the invariant of a game, whatever the destroyed blocks drop.
/// In particular, after every tick every player stands inside the arena and
/// has no more bombs out than it may, no cell holds two bombs, and every
/// bomb, explosion and item lies on a cell of the grid.
pub proof fn lemma_step_wf(s: GameView, drops: Seq<Option<ItemKind>>)
    requires
        s.wf(),
    ensures
        step(s, drops).wf(),
{
    if s.phase == Phase::Running {
        let a = players_moved(counted(s));
        lemma_moved_wf(counted(s));
        lemma_fuses_burned_wf(a);
        lemma_resolve_wf(fuses_burned(a));
        lemma_resolve_rubble_wf(fuses_burned(a));
        let b = resolve(fuses_burned(a));
        let extra = spawned(tick_rubble(s), drops);
        lemma_spawned_wf(tick_rubble(s), drops, b.blasts);
        lemma_with_items_wf(b, extra);
        lemma_aged_wf(with_items(b, extra));
        lemma_items_collected_wf(aged(with_items(b, extra)));
    }
}

} // verus!
