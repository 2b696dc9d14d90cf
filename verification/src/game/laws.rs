//! What holds of every game, proved from the definitions of the phases.

use vstd::prelude::*;
use crate::game::aging::aged;
use crate::game::blast::{
    arm_len, arm_reach, arm_x, arm_y, bombs_phase, detonate, first_due, fuses_burned, resolve,
    Direction,
};
use crate::game::intents::{bomb_at, bomb_placed};
use crate::game::outcome::{decided, first_alive};
use crate::game::drops::{spawned, with_items};
use crate::game::{cell_of, has_player, seat_of, tick_rubble, Phase};
use crate::protocol::ItemKind;
use crate::map::{in_grid, Grid, Tile};
use crate::game::movement::players_moved;
use crate::game::pickup::{
    awarded, awarded_all, items_collected, lemma_picker_same_stance, same_stance, unclaimed,
};
use crate::game::{counted, step, GameView, Item, Player};

verus! {

/// Two rosters of the same players: as many, and seat by seat the same
/// identity, name and colour.
pub open spec fn same_roster(a: Seq<Player>, b: Seq<Player>) -> bool {
    &&& a.len() == b.len()
    &&& forall|i: int|
        0 <= i < a.len() ==> (#[trigger] a[i]).id == b[i].id && a[i].name == b[i].name && a[i].color_index
            == b[i].color_index
}

/// Setting off the due bombs neither adds nor removes a player.
pub proof fn lemma_resolve_roster(s: GameView)
    ensures
        same_roster(resolve(s).players, s.players),
    decreases s.bombs.len(),
{
    let i = first_due(s.bombs, 0);
    if 0 <= i < s.bombs.len() {
        lemma_resolve_roster(detonate(s, i));
    }
}

/// Setting off the due bombs touches neither the items, nor the tick counter,
/// nor the phase.
pub proof fn lemma_resolve_frame(s: GameView)
    ensures
        resolve(s).items == s.items,
        resolve(s).tick == s.tick,
        resolve(s).phase == s.phase,
    decreases s.bombs.len(),
{
    let i = first_due(s.bombs, 0);
    if 0 <= i < s.bombs.len() {
        lemma_resolve_frame(detonate(s, i));
    }
}

/// Offering a single item neither adds nor removes a player.
pub proof fn lemma_awarded_roster(players: Seq<Player>, item: Item)
    ensures
        same_roster(awarded(players, item), players),
{
}

/// Offering items neither adds nor removes a player.
pub proof fn lemma_awarded_all_roster(players: Seq<Player>, items: Seq<Item>)
    ensures
        same_roster(awarded_all(players, items), players),
    decreases items.len(),
{
    if items.len() > 0 {
        lemma_awarded_all_roster(players, items.drop_last());
        lemma_awarded_roster(awarded_all(players, items.drop_last()), items.last());
    }
}

/// A tick neither adds nor removes a player, whatever the destroyed blocks
/// drop: the roster keeps its length, and every seat its identity, name and
/// colour.
pub proof fn lemma_step_roster(s: GameView, drops: Seq<Option<ItemKind>>)
    ensures
        same_roster(step(s, drops).players, s.players),
{
    let a = players_moved(counted(s));
    let b = fuses_burned(a);
    lemma_resolve_roster(b);
    let c = aged(with_items(bombs_phase(a), spawned(tick_rubble(s), drops)));
    lemma_awarded_all_roster(c.players, c.items);
}

/// What holds of an arm from step `from` on, given that it got that far.
pub proof fn lemma_arm_reach(grid: Grid, cx: int, cy: int, dir: Direction, from: int, range: int)
    requires
        from >= 1,
    ensures
        0 <= arm_reach(grid, cx, cy, dir, from, range),
        from <= range + 1 ==> arm_reach(grid, cx, cy, dir, from, range) <= range - from + 1,
        from > range + 1 ==> arm_reach(grid, cx, cy, dir, from, range) == 0,
        forall|i: int|
            from <= i < from + arm_reach(grid, cx, cy, dir, from, range) ==> in_grid(
                #[trigger] arm_y(cy, dir, i),
                arm_x(cx, dir, i),
            ) && grid[arm_y(cy, dir, i)][arm_x(cx, dir, i)] != Tile::HardBlock,
        forall|i: int|
            from <= i < from + arm_reach(grid, cx, cy, dir, from, range) - 1 ==> grid[#[trigger] arm_y(
                cy,
                dir,
                i,
            )][arm_x(cx, dir, i)] == Tile::Empty,
        ({
            let end = from + arm_reach(grid, cx, cy, dir, from, range);
            end <= range ==> {
                ||| !in_grid(arm_y(cy, dir, end), arm_x(cx, dir, end))
                ||| grid[arm_y(cy, dir, end)][arm_x(cx, dir, end)] == Tile::HardBlock
                ||| (end > from && grid[arm_y(cy, dir, end - 1)][arm_x(cx, dir, end - 1)] == Tile::SoftBlock)
            }
        }),
    decreases range - from + 1,
{
    if from <= range && in_grid(arm_y(cy, dir, from), arm_x(cx, dir, from)) {
        if grid[arm_y(cy, dir, from)][arm_x(cx, dir, from)] == Tile::Empty {
            lemma_arm_reach(grid, cx, cy, dir, from + 1, range);
        }
    }
}

/// A blast never crosses a pillar and stops right after the first block it
/// destroys. Of the arm that runs from `(cx, cy)` in direction `dir`, `n`
/// cells long:
/// - it is no longer than the range;
/// - every cell it lights lies in the grid and holds no pillar;
/// - every cell it lights but the last is free ground, so if it lights a
///   destructible block, that block is its last cell;
/// - if it is shorter than the range, the next cell would lie outside the
///   grid or hold a pillar, or the arm's last cell holds a destructible block.
pub proof fn lemma_arm_stops(grid: Grid, cx: int, cy: int, dir: Direction, range: int)
    requires
        range >= 0,
    ensures
        0 <= arm_len(grid, cx, cy, dir, range) <= range,
        forall|i: int|
            1 <= i <= arm_len(grid, cx, cy, dir, range) ==> in_grid(
                #[trigger] arm_y(cy, dir, i),
                arm_x(cx, dir, i),
            ) && grid[arm_y(cy, dir, i)][arm_x(cx, dir, i)] != Tile::HardBlock,
        forall|i: int|
            1 <= i < arm_len(grid, cx, cy, dir, range) ==> grid[#[trigger] arm_y(cy, dir, i)][arm_x(
                cx,
                dir,
                i,
            )] == Tile::Empty,
        ({
            let n = arm_len(grid, cx, cy, dir, range);
            n < range ==> {
                ||| !in_grid(arm_y(cy, dir, n + 1), arm_x(cx, dir, n + 1))
                ||| grid[arm_y(cy, dir, n + 1)][arm_x(cx, dir, n + 1)] == Tile::HardBlock
                ||| (n >= 1 && grid[arm_y(cy, dir, n)][arm_x(cx, dir, n)] == Tile::SoftBlock)
            }
        }),
{
    lemma_arm_reach(grid, cx, cy, dir, 1, range);
}

/// A player who has as many bombs out as it may cannot place another: the
/// request changes nothing.
pub proof fn lemma_no_bomb_beyond_allowance(s: GameView, player_id: u8)
    requires
        has_player(s.players, player_id),
        s.players[seat_of(s.players, player_id)].active_bombs >= s.players[seat_of(
            s.players,
            player_id,
        )].max_bombs,
    ensures
        bomb_placed(s, player_id) == s,
{
}

/// A request for a bomb on a cell that holds one is turned down, and nothing
/// else changes either.
pub proof fn lemma_no_second_bomb_on_cell(s: GameView, player_id: u8)
    requires
        has_player(s.players, player_id),
        ({
            let p = s.players[seat_of(s.players, player_id)];
            bomb_at(s.bombs, cell_of(p.x as int), cell_of(p.y as int))
        }),
    ensures
        bomb_placed(s, player_id) == s,
{
}

/// A game finishes exactly when a tick leaves at most one player alive of at
/// least two, and never ticks again afterwards, whatever the destroyed blocks
/// drop:
/// - a tick of a running game ends in a finished game exactly if the roster
///   it leaves is decided, and it then names the survivor, if there is one;
///   otherwise the game runs on;
/// - a tick changes nothing of a game that is finished, or that has not
///   started.
pub proof fn lemma_finish(s: GameView, drops: Seq<Option<ItemKind>>)
    ensures
        s.phase == Phase::Running ==> (step(s, drops).phase is Finished <==> decided(step(s, drops).players)),
        s.phase == Phase::Running && decided(step(s, drops).players) ==> step(s, drops).phase
            == (Phase::Finished { winner: first_alive(step(s, drops).players) }),
        s.phase == Phase::Running && !decided(step(s, drops).players) ==> step(s, drops).phase
            == Phase::Running,
        s.phase != Phase::Running ==> step(s, drops) == s,
{
    lemma_resolve_frame(fuses_burned(players_moved(counted(s))));
}

/// Offering items moves nobody and revives nobody.
pub proof fn lemma_awarded_all_stance(players: Seq<Player>, items: Seq<Item>)
    ensures
        same_stance(awarded_all(players, items), players),
    decreases items.len(),
{
    if items.len() > 0 {
        lemma_awarded_all_stance(players, items.drop_last());
    }
}

/// Offering items that nobody stands on changes nothing.
pub proof fn lemma_awarded_all_unclaimed(players: Seq<Player>, items: Seq<Item>)
    requires
        forall|i: int| 0 <= i < items.len() ==> unclaimed(players)(#[trigger] items[i]),
    ensures
        awarded_all(players, items) == players,
    decreases items.len(),
{
    if items.len() > 0 {
        assert forall|i: int| 0 <= i < items.drop_last().len() implies unclaimed(players)(
            #[trigger] items.drop_last()[i],
        ) by {
            assert(items.drop_last()[i] == items[i]);
        }
        lemma_awarded_all_unclaimed(players, items.drop_last());
        assert(unclaimed(players)(items[items.len() - 1]));
    }
}

/// A filter keeps a sequence whole if every element passes.
pub proof fn lemma_filter_all_pass<A>(s: Seq<A>, pred: spec_fn(A) -> bool)
    requires
        forall|i: int| 0 <= i < s.len() ==> pred(#[trigger] s[i]),
    ensures
        s.filter(pred) == s,
    decreases s.len(),
{
    reveal(Seq::filter);
    if s.len() > 0 {
        assert forall|i: int| 0 <= i < s.drop_last().len() implies pred(#[trigger] s.drop_last()[i]) by {
            assert(s.drop_last()[i] == s[i]);
        }
        lemma_filter_all_pass(s.drop_last(), pred);
        assert(pred(s[s.len() - 1]));
        assert(s.drop_last().push(s.last()) =~= s);
    }
}

/// An item that was collected is gone: collecting again gives nothing to
/// anybody and leaves the remaining items where they are.
pub proof fn lemma_pickup_once(s: GameView)
    ensures
        items_collected(items_collected(s)) == items_collected(s),
{
    let t = items_collected(s);
    lemma_awarded_all_stance(s.players, s.items);
    assert forall|i: int| 0 <= i < t.items.len() implies unclaimed(t.players)(#[trigger] t.items[i]) by {
        s.items.lemma_filter_pred(unclaimed(s.players), i);
        lemma_picker_same_stance(t.players, s.players, t.items[i].x as int, t.items[i].y as int, 0);
    }
    lemma_awarded_all_unclaimed(t.players, t.items);
    lemma_filter_all_pass(t.items, unclaimed(t.players));
}

} // verus!
