//! The life of a bomb: its fuse burns down tick by tick, and it goes off
//! once, in the tick in which the fuse runs out or a blast reaches it.

use vstd::prelude::*;
use crate::constants::EXPLOSION_DURATION_TICKS;
use crate::game::aging::{cooled, still_burning};
use crate::game::blast::{
    blast, bombs_phase, bombs_phase_detonated, detonate, first_due, fresh_on, fuses_burned,
    lemma_resolve_extends, next_blast, resolve, resolve_detonated,
};
use crate::protocol::ItemKind;
use crate::game::intents::bomb_at;
use crate::game::movement::players_moved;
use crate::game::wellformed::{lemma_detonate_wf, lemma_fuses_burned_wf, lemma_moved_wf};
use crate::game::{counted, step, Bomb, Explosion, GameView, Phase};

verus! {

/// The first due bomb is due, and none before it is.
pub proof fn lemma_first_due(bombs: Seq<Bomb>, from: int)
    requires
        0 <= from,
    ensures
        from <= first_due(bombs, from) || first_due(bombs, from) == bombs.len(),
        first_due(bombs, from) < bombs.len() ==> bombs[first_due(bombs, from)].timer == 0,
        forall|k: int| from <= k < first_due(bombs, from) && k < bombs.len() ==> (#[trigger] bombs[k]).timer != 0,
        first_due(bombs, from) <= bombs.len() || from > bombs.len(),
    decreases bombs.len() - from,
{
    if from < bombs.len() && bombs[from].timer != 0 {
        lemma_first_due(bombs, from + 1);
    }
}

/// The seat in `s.bombs` of the bomb that stands at seat `m` once bomb `i`
/// went off.
pub open spec fn seat_before(i: int, m: int) -> int {
    if m < i {
        m
    } else {
        m + 1
    }
}

/// Once bomb `i` went off, the bombs that remain are the others, in order,
/// each on its cell and with its owner and range; the fuse of each is as it
/// was, or has run out.
pub proof fn lemma_detonate_bombs(s: GameView, i: int)
    requires
        0 <= i < s.bombs.len(),
    ensures
        detonate(s, i).bombs.len() == s.bombs.len() - 1,
        forall|m: int|
            0 <= m < detonate(s, i).bombs.len() ==> {
                let after = #[trigger] detonate(s, i).bombs[m];
                let before = s.bombs[seat_before(i, m)];
                &&& after.x == before.x
                &&& after.y == before.y
                &&& after.owner == before.owner
                &&& after.range == before.range
                &&& (after.timer == before.timer || after.timer == 0)
            },
{
    let d = detonate(s, i);
    assert forall|m: int| 0 <= m < d.bombs.len() implies {
        let after = #[trigger] d.bombs[m];
        let before = s.bombs[seat_before(i, m)];
        &&& after.x == before.x
        &&& after.y == before.y
        &&& after.owner == before.owner
        &&& after.range == before.range
        &&& (after.timer == before.timer || after.timer == 0)
    } by {
        assert(s.bombs.remove(i)[m] == s.bombs[seat_before(i, m)]);
    }
}

/// Whether two bombs are the same but for their fuses: on the same cell, of
/// the same owner and range.
pub open spec fn same_bomb(a: Bomb, b: Bomb) -> bool {
    a.x == b.x && a.y == b.y && a.owner == b.owner && a.range == b.range
}

/// Whether `b` is, but for its fuse, one of `bombs`.
pub open spec fn was_there(bombs: Seq<Bomb>, b: Bomb) -> bool {
    exists|i: int| 0 <= i < bombs.len() && same_bomb(#[trigger] bombs[i], b)
}

/// The fate of every bomb while all due bombs go off, in a game in which no
/// cell holds two bombs:
/// - a bomb that is left is one of those that were there, with a fuse that
///   has not run out, and untouched;
/// - a bomb that went off was there, whatever its fuse showed;
/// - no bomb went off twice;
/// - every bomb that was there either is left or went off, never both;
/// - every bomb that was due went off.
pub proof fn lemma_resolve_fates(s: GameView)
    requires
        s.wf(),
    ensures
        forall|j: int|
            0 <= j < resolve(s).bombs.len() ==> (#[trigger] resolve(s).bombs[j]).timer > 0 && s.bombs.contains(
                resolve(s).bombs[j],
            ),
        forall|k: int|
            0 <= k < resolve_detonated(s).len() ==> was_there(s.bombs, #[trigger] resolve_detonated(s)[k]),
        forall|k: int, l: int|
            #![trigger resolve_detonated(s)[k], resolve_detonated(s)[l]]
            0 <= k < l < resolve_detonated(s).len() ==> !(resolve_detonated(s)[k].x == resolve_detonated(s)[l].x
                && resolve_detonated(s)[k].y == resolve_detonated(s)[l].y),
        forall|i: int|
            0 <= i < s.bombs.len() ==> (bomb_at(
                resolve(s).bombs,
                (#[trigger] s.bombs[i]).x as int,
                s.bombs[i].y as int,
            ) <==> !bomb_at(resolve_detonated(s), s.bombs[i].x as int, s.bombs[i].y as int)),
        forall|i: int|
            0 <= i < s.bombs.len() && (#[trigger] s.bombs[i]).timer == 0 ==> resolve_detonated(s).contains(
                s.bombs[i],
            ),
    decreases s.bombs.len(),
{
    let i0 = first_due(s.bombs, 0);
    lemma_first_due(s.bombs, 0);
    let end = resolve(s);
    let went = resolve_detonated(s);
    if 0 <= i0 < s.bombs.len() {
        let b0 = s.bombs[i0];
        let d = detonate(s, i0);
        let went_d = resolve_detonated(d);
        lemma_detonate_wf(s, i0);
        lemma_detonate_bombs(s, i0);
        lemma_resolve_fates(d);
        assert(went =~= seq![b0] + went_d);
        // a bomb that is left
        assert forall|j: int| 0 <= j < end.bombs.len() implies (#[trigger] end.bombs[j]).timer > 0
            && s.bombs.contains(end.bombs[j]) by {
            let m = choose|m: int| 0 <= m < d.bombs.len() && d.bombs[m] == end.bombs[j];
            assert(d.bombs[m] == s.bombs[seat_before(i0, m)]);
        }
        // a bomb that went off
        assert forall|k: int| 0 <= k < went.len() implies was_there(s.bombs, #[trigger] went[k]) by {
            if k > 0 {
                assert(went[k] == went_d[k - 1]);
                let m = choose|m: int| 0 <= m < d.bombs.len() && same_bomb(#[trigger] d.bombs[m], went_d[k - 1]);
                assert(same_bomb(s.bombs[seat_before(i0, m)], went[k]));
            } else {
                assert(same_bomb(s.bombs[i0], went[0]));
            }
        }
        // none twice
        assert forall|k: int, l: int| 0 <= k < l < went.len() implies !(#[trigger] went[k].x
            == #[trigger] went[l].x && went[k].y == went[l].y) by {
            assert(went[l] == went_d[l - 1]);
            let m = choose|m: int| 0 <= m < d.bombs.len() && same_bomb(#[trigger] d.bombs[m], went_d[l - 1]);
            if k == 0 {
                assert(d.bombs[m].x == s.bombs[seat_before(i0, m)].x);
                assert(!(s.bombs[i0].x == s.bombs[seat_before(i0, m)].x && s.bombs[i0].y == s.bombs[seat_before(
                    i0,
                    m,
                )].y));
            } else {
                assert(went[k] == went_d[k - 1]);
            }
        }
        // left or gone, never both
        assert forall|i: int| 0 <= i < s.bombs.len() implies (bomb_at(
            end.bombs,
            (#[trigger] s.bombs[i]).x as int,
            s.bombs[i].y as int,
        ) <==> !bomb_at(went, s.bombs[i].x as int, s.bombs[i].y as int)) by {
            let x = s.bombs[i].x as int;
            let y = s.bombs[i].y as int;
            if i == i0 {
                assert(went[0].x == x && went[0].y == y);
                if bomb_at(end.bombs, x, y) {
                    let j = choose|j: int| 0 <= j < end.bombs.len() && (#[trigger] end.bombs[j]).x == x
                        && end.bombs[j].y == y;
                    let m = choose|m: int| 0 <= m < d.bombs.len() && d.bombs[m] == end.bombs[j];
                    assert(d.bombs[m].x == s.bombs[seat_before(i0, m)].x);
                    assert(!(s.bombs[i0].x == s.bombs[seat_before(i0, m)].x && s.bombs[i0].y == s.bombs[seat_before(
                        i0,
                        m,
                    )].y));
                }
            } else {
                let m = if i < i0 { i } else { i - 1 };
                assert(seat_before(i0, m) == i);
                assert(d.bombs[m].x == x && d.bombs[m].y == y);
                assert(!(s.bombs[i0].x == x && s.bombs[i0].y == y));
                if bomb_at(went, x, y) {
                    let k = choose|k: int| 0 <= k < went.len() && (#[trigger] went[k]).x == x && went[k].y == y;
                    assert(k > 0);
                    assert(went_d[k - 1].x == x && went_d[k - 1].y == y);
                }
                if bomb_at(went_d, x, y) {
                    let k = choose|k: int| 0 <= k < went_d.len() && (#[trigger] went_d[k]).x == x && went_d[k].y
                        == y;
                    assert(went[k + 1].x == x && went[k + 1].y == y);
                }
            }
        }
        // every due bomb went off
        assert forall|i: int| 0 <= i < s.bombs.len() && (#[trigger] s.bombs[i]).timer == 0 implies went.contains(
            s.bombs[i],
        ) by {
            if i == i0 {
                assert(went[0] == s.bombs[i]);
            } else {
                let m = if i < i0 { i } else { i - 1 };
                assert(seat_before(i0, m) == i);
                assert(d.bombs[m] == s.bombs[i]);
                let k = choose|k: int| 0 <= k < went_d.len() && went_d[k] == d.bombs[m];
                assert(went[k + 1] == s.bombs[i]);
            }
        }
    } else {
        assert forall|j: int| 0 <= j < end.bombs.len() implies (#[trigger] end.bombs[j]).timer > 0
            && s.bombs.contains(end.bombs[j]) by {}
        assert forall|i: int| 0 <= i < s.bombs.len() implies (bomb_at(
            end.bombs,
            (#[trigger] s.bombs[i]).x as int,
            s.bombs[i].y as int,
        ) <==> !bomb_at(went, s.bombs[i].x as int, s.bombs[i].y as int)) by {}
    }
}

/// The bombs that go off in one tick of a running game, in the order in
/// which they do.
pub open spec fn tick_detonated(s: GameView) -> Seq<Bomb> {
    bombs_phase_detonated(players_moved(counted(s)))
}

/// Every bomb that goes off while all due bombs go off leaves a fresh
/// explosion on its cell.
pub proof fn lemma_resolve_detonated_lit(s: GameView)
    ensures
        forall|k: int|
            0 <= k < resolve_detonated(s).len() ==> fresh_on(
                resolve(s).explosions,
                (#[trigger] resolve_detonated(s)[k]).x,
                resolve_detonated(s)[k].y,
            ),
    decreases s.bombs.len(),
{
    let i0 = first_due(s.bombs, 0);
    let went = resolve_detonated(s);
    let end = resolve(s);
    if 0 <= i0 < s.bombs.len() {
        let b0 = s.bombs[i0];
        let d = detonate(s, i0);
        lemma_resolve_detonated_lit(d);
        lemma_resolve_extends(d);
        assert forall|k: int| 0 <= k < went.len() implies fresh_on(end.explosions, (#[trigger] went[k]).x, went[k].y) by {
            if k == 0 {
                let at = s.explosions.len() as int;
                let lit = blast(s.grid, b0.x as int, b0.y as int, b0.range as int, next_blast(s.blasts)).explosions;
                assert(d.explosions[at] == lit[0]);
                assert(end.explosions.subrange(0, d.explosions.len() as int)[at] == end.explosions[at]);
                assert(end.explosions[at].x == went[0].x && end.explosions[at].timer == EXPLOSION_DURATION_TICKS);
            } else {
                assert(went[k] == resolve_detonated(d)[k - 1]);
                let j = choose|j: int|
                    0 <= j < resolve(d).explosions.len() && (#[trigger] resolve(d).explosions[j]).x == went[k].x
                        && resolve(d).explosions[j].y == went[k].y && resolve(d).explosions[j].timer
                        == EXPLOSION_DURATION_TICKS;
                assert(end.explosions[j].x == went[k].x);
            }
        }
    }
}

/// The life of a bomb through the bomb phase of a tick, in a game that keeps
/// its invariant. With `t` the game after the phase and `went` the bombs that
/// went off in it:
/// - every bomb of `t` is a bomb of `s` whose fuse has burned by exactly one
///   tick and has not run out;
/// - every bomb of `s` whose fuse had at most one tick left went off;
/// - every bomb of `s` either is still there or went off, never both;
/// - no bomb went off twice, and every bomb that went off was a bomb of `s`;
/// - every bomb that went off left a fresh explosion on its cell.
pub proof fn lemma_fuse(s: GameView)
    requires
        s.wf(),
    ensures
        forall|j: int|
            0 <= j < bombs_phase(s).bombs.len() ==> (#[trigger] bombs_phase(s).bombs[j]).timer >= 1
                && s.bombs.contains(
                Bomb { timer: (bombs_phase(s).bombs[j].timer + 1) as u32, ..bombs_phase(s).bombs[j] },
            ),
        forall|i: int|
            0 <= i < s.bombs.len() && (#[trigger] s.bombs[i]).timer <= 1 ==> bomb_at(
                bombs_phase_detonated(s),
                s.bombs[i].x as int,
                s.bombs[i].y as int,
            ),
        forall|i: int|
            0 <= i < s.bombs.len() ==> (bomb_at(
                bombs_phase(s).bombs,
                (#[trigger] s.bombs[i]).x as int,
                s.bombs[i].y as int,
            ) <==> !bomb_at(bombs_phase_detonated(s), s.bombs[i].x as int, s.bombs[i].y as int)),
        forall|k: int, l: int|
            #![trigger bombs_phase_detonated(s)[k], bombs_phase_detonated(s)[l]]
            0 <= k < l < bombs_phase_detonated(s).len() ==> !(bombs_phase_detonated(s)[k].x
                == bombs_phase_detonated(s)[l].x && bombs_phase_detonated(s)[k].y == bombs_phase_detonated(
                s,
            )[l].y),
        forall|k: int|
            0 <= k < bombs_phase_detonated(s).len() ==> was_there(s.bombs, #[trigger] bombs_phase_detonated(s)[k])
                && fresh_on(bombs_phase(s).explosions, bombs_phase_detonated(s)[k].x, bombs_phase_detonated(s)[k].y),
{
    let u = fuses_burned(s);
    let t = bombs_phase(s);
    let went = bombs_phase_detonated(s);
    lemma_fuses_burned_wf(s);
    lemma_resolve_fates(u);
    lemma_resolve_detonated_lit(u);
    assert forall|j: int| 0 <= j < t.bombs.len() implies (#[trigger] t.bombs[j]).timer >= 1 && s.bombs.contains(
        Bomb { timer: (t.bombs[j].timer + 1) as u32, ..t.bombs[j] },
    ) by {
        let i = choose|i: int| 0 <= i < u.bombs.len() && u.bombs[i] == t.bombs[j];
        assert(s.bombs[i] == Bomb { timer: (t.bombs[j].timer + 1) as u32, ..t.bombs[j] });
    }
    assert forall|i: int| 0 <= i < s.bombs.len() && (#[trigger] s.bombs[i]).timer <= 1 implies bomb_at(
        went,
        s.bombs[i].x as int,
        s.bombs[i].y as int,
    ) by {
        assert(u.bombs[i].timer == 0);
        let k = choose|k: int| 0 <= k < went.len() && went[k] == u.bombs[i];
        assert(went[k].x == s.bombs[i].x && went[k].y == s.bombs[i].y);
    }
    assert forall|i: int| 0 <= i < s.bombs.len() implies (bomb_at(
        t.bombs,
        (#[trigger] s.bombs[i]).x as int,
        s.bombs[i].y as int,
    ) <==> !bomb_at(went, s.bombs[i].x as int, s.bombs[i].y as int)) by {
        assert(u.bombs[i].x == s.bombs[i].x && u.bombs[i].y == s.bombs[i].y);
    }
    assert forall|k: int| 0 <= k < went.len() implies was_there(s.bombs, #[trigger] went[k]) by {
        let i = choose|i: int| 0 <= i < u.bombs.len() && same_bomb(#[trigger] u.bombs[i], went[k]);
        assert(same_bomb(s.bombs[i], went[k]));
    }
}

/// Whether an explosion lit in the tick just past burns on `(x, y)`: one that
/// has aged by one tick since it was lit.
pub open spec fn lit_last_tick(cells: Seq<Explosion>, x: usize, y: usize) -> bool {
    exists|j: int|
        0 <= j < cells.len() && (#[trigger] cells[j]).x == x && cells[j].y == y && cells[j].timer
            == EXPLOSION_DURATION_TICKS - 1
}

/// The life of a bomb through one tick of a running game that keeps its
/// invariant, whatever the destroyed blocks drop. With `went` the bombs that
/// went off in the tick:
/// - every bomb after the tick is a bomb from before it whose fuse has
///   burned by exactly one tick and has not run out;
/// - every bomb whose fuse had at most one tick left went off;
/// - every bomb either is still there or went off, never both;
/// - no bomb went off twice, and every bomb that went off was there before;
/// - every bomb that went off left an explosion on its cell.
pub proof fn lemma_fuse_tick(s: GameView, drops: Seq<Option<ItemKind>>)
    requires
        s.wf(),
        s.phase == Phase::Running,
    ensures
        forall|j: int|
            0 <= j < step(s, drops).bombs.len() ==> (#[trigger] step(s, drops).bombs[j]).timer >= 1
                && s.bombs.contains(
                Bomb { timer: (step(s, drops).bombs[j].timer + 1) as u32, ..step(s, drops).bombs[j] },
            ),
        forall|i: int|
            0 <= i < s.bombs.len() && (#[trigger] s.bombs[i]).timer <= 1 ==> bomb_at(
                tick_detonated(s),
                s.bombs[i].x as int,
                s.bombs[i].y as int,
            ),
        forall|i: int|
            0 <= i < s.bombs.len() ==> (bomb_at(
                step(s, drops).bombs,
                (#[trigger] s.bombs[i]).x as int,
                s.bombs[i].y as int,
            ) <==> !bomb_at(tick_detonated(s), s.bombs[i].x as int, s.bombs[i].y as int)),
        forall|k: int, l: int|
            #![trigger tick_detonated(s)[k], tick_detonated(s)[l]]
            0 <= k < l < tick_detonated(s).len() ==> !(tick_detonated(s)[k].x == tick_detonated(s)[l].x
                && tick_detonated(s)[k].y == tick_detonated(s)[l].y),
        forall|k: int|
            0 <= k < tick_detonated(s).len() ==> was_there(s.bombs, #[trigger] tick_detonated(s)[k])
                && lit_last_tick(step(s, drops).explosions, tick_detonated(s)[k].x, tick_detonated(s)[k].y),
{
    let a = players_moved(counted(s));
    let t = bombs_phase(a);
    let went = tick_detonated(s);
    lemma_moved_wf(counted(s));
    lemma_fuse(a);
    assert(step(s, drops).bombs == t.bombs);
    let cooler = t.explosions.map_values(|e: Explosion| cooled(e));
    assert forall|k: int| 0 <= k < went.len() implies lit_last_tick(
        step(s, drops).explosions,
        (#[trigger] went[k]).x,
        went[k].y,
    ) by {
        let j = choose|j: int|
            0 <= j < t.explosions.len() && (#[trigger] t.explosions[j]).x == went[k].x && t.explosions[j].y
                == went[k].y && t.explosions[j].timer == EXPLOSION_DURATION_TICKS;
        assert(cooler[j].x == went[k].x && cooler[j].timer == EXPLOSION_DURATION_TICKS - 1);
        cooler.lemma_filter_contains(still_burning(), j);
        let kept = cooler.filter(still_burning());
        let w = choose|w: int| 0 <= w < kept.len() && kept[w] == cooler[j];
        assert(kept[w].x == went[k].x);
    }
}

} // verus!
