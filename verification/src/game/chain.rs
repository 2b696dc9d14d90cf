//! Chain reactions: a bomb that a blast reaches goes off in the same bomb
//! phase, and so does whatever its own blast reaches.

use vstd::prelude::*;
use crate::constants::EXPLOSION_DURATION_TICKS;
use crate::game::blast::{
    blast, bombs_phase, bombs_phase_detonated, centre, covers, detonate, first_due, fuses_burned,
    lemma_resolve_extends, next_blast, resolve, resolve_detonated, with_arm, Blast, Direction,
};
use crate::game::fuse::{lemma_detonate_bombs, lemma_first_due, lemma_resolve_fates, seat_before};
use crate::game::intents::bomb_at;
use crate::game::laws::lemma_resolve_roster;
use crate::game::wellformed::{lemma_detonate_wf, lemma_fuses_burned_wf};
use crate::game::{Bomb, Explosion, GameView};
use crate::map::Grid;

verus! {

/// The blasts of the detonations that happen while all due bombs go off, in
/// order: for each, the explosions it lights, on the grid as the detonations
/// before it left it.
pub open spec fn resolve_blasts(s: GameView) -> Seq<Seq<Explosion>>
    decreases s.bombs.len(),
{
    let i = first_due(s.bombs, 0);
    if 0 <= i < s.bombs.len() {
        let b = s.bombs[i];
        seq![blast(s.grid, b.x as int, b.y as int, b.range as int, next_blast(s.blasts)).explosions]
            + resolve_blasts(detonate(s, i))
    } else {
        Seq::empty()
    }
}

/// The blasts of the detonations of the bomb phase of a tick, in order.
pub open spec fn bombs_phase_blasts(s: GameView) -> Seq<Seq<Explosion>> {
    resolve_blasts(fuses_burned(s))
}

/// Number of the bombs among `went` that `owner` had placed.
pub open spec fn owned(went: Seq<Bomb>, owner: u8) -> nat
    decreases went.len(),
{
    if went.len() == 0 {
        0
    } else {
        owned(went.drop_last(), owner) + if went.last().owner == owner {
            1nat
        } else {
            0nat
        }
    }
}

/// Counting the bombs of an owner, the first bomb apart.
pub proof fn lemma_owned_first(first: Bomb, rest: Seq<Bomb>, owner: u8)
    ensures
        owned(seq![first] + rest, owner) == owned(rest, owner) + if first.owner == owner {
            1nat
        } else {
            0nat
        },
    decreases rest.len(),
{
    let all = seq![first] + rest;
    if rest.len() == 0 {
        assert(all.drop_last() =~= Seq::<Bomb>::empty());
        assert(owned(all.drop_last(), owner) == 0);
    } else {
        assert(all.drop_last() =~= seq![first] + rest.drop_last());
        assert(all.last() == rest.last());
        lemma_owned_first(first, rest.drop_last(), owner);
    }
}

/// There is one blast for each bomb that goes off.
pub proof fn lemma_one_blast_each(s: GameView)
    ensures
        resolve_blasts(s).len() == resolve_detonated(s).len(),
    decreases s.bombs.len(),
{
    let i = first_due(s.bombs, 0);
    if 0 <= i < s.bombs.len() {
        lemma_one_blast_each(detonate(s, i));
    }
}

/// Every explosion that a detonation lights has its full lifetime left and
/// carries the detonation's number.
pub proof fn lemma_blast_fresh(grid: Grid, cx: int, cy: int, range: int, number: u64, j: int)
    requires
        0 <= j < blast(grid, cx, cy, range, number).explosions.len(),
    ensures
        blast(grid, cx, cy, range, number).explosions[j].timer == EXPLOSION_DURATION_TICKS,
        blast(grid, cx, cy, range, number).explosions[j].lit == number,
{
    let b0 = centre(grid, cx, cy, number);
    let b1 = with_arm(b0, cx, cy, Direction::Left, range);
    let b2 = with_arm(b1, cx, cy, Direction::Right, range);
    let b3 = with_arm(b2, cx, cy, Direction::Up, range);
    let b4 = with_arm(b3, cx, cy, Direction::Down, range);
    assert forall|b: Blast, dir: Direction|
        (forall|i: int|
            0 <= i < b.explosions.len() ==> (#[trigger] b.explosions[i]).timer == EXPLOSION_DURATION_TICKS
                && b.explosions[i].lit == b.number) implies (forall|i: int|
        0 <= i < (#[trigger] with_arm(b, cx, cy, dir, range)).explosions.len() ==> (#[trigger] with_arm(
            b,
            cx,
            cy,
            dir,
            range,
        ).explosions[i]).timer == EXPLOSION_DURATION_TICKS && with_arm(b, cx, cy, dir, range).explosions[i].lit
            == b.number) by {
        let w = with_arm(b, cx, cy, dir, range);
        assert forall|i: int| 0 <= i < w.explosions.len() implies (#[trigger] w.explosions[i]).timer
            == EXPLOSION_DURATION_TICKS && w.explosions[i].lit == b.number by {
            if i < b.explosions.len() {
                assert(w.explosions[i] == b.explosions[i]);
            }
        }
    }
    assert(b1.number == number && b2.number == number && b3.number == number);
    assert(b4.explosions[j].timer == EXPLOSION_DURATION_TICKS);
}

/// Every explosion of every blast burns, as it was lit, once all due bombs
/// went off.
pub proof fn lemma_blasts_burn(s: GameView, k: int, j: int)
    requires
        0 <= k < resolve_blasts(s).len(),
        0 <= j < resolve_blasts(s)[k].len(),
    ensures
        resolve(s).explosions.contains(resolve_blasts(s)[k][j]),
    decreases s.bombs.len(),
{
    let i = first_due(s.bombs, 0);
    if 0 <= i < s.bombs.len() {
        let d = detonate(s, i);
        let end = resolve(s);
        if k == 0 {
            lemma_resolve_extends(d);
            let at = s.explosions.len() + j;
            assert(d.explosions[at] == resolve_blasts(s)[0][j]);
            assert(end.explosions.subrange(0, d.explosions.len() as int)[at] == end.explosions[at]);
        } else {
            assert(resolve_blasts(s)[k] == resolve_blasts(d)[k - 1]);
            lemma_blasts_burn(d, k - 1, j);
        }
    }
}

/// A chain runs to its end within the phase: every bomb that sits on a cell
/// lit by any detonation of the phase goes off in the phase, and is gone
/// after it. That holds of the bombs that the first blast reaches, of those
/// that their blasts reach, and so on.
pub proof fn lemma_chain(s: GameView, k: int, i: int)
    requires
        s.wf(),
        0 <= k < resolve_blasts(s).len(),
        0 <= i < s.bombs.len(),
        covers(resolve_blasts(s)[k], s.bombs[i].x as int, s.bombs[i].y as int),
    ensures
        bomb_at(resolve_detonated(s), s.bombs[i].x as int, s.bombs[i].y as int),
        !bomb_at(resolve(s).bombs, s.bombs[i].x as int, s.bombs[i].y as int),
    decreases s.bombs.len(),
{
    let i0 = first_due(s.bombs, 0);
    lemma_first_due(s.bombs, 0);
    lemma_resolve_fates(s);
    let x = s.bombs[i].x as int;
    let y = s.bombs[i].y as int;
    let went = resolve_detonated(s);
    if 0 <= i0 < s.bombs.len() {
        let d = detonate(s, i0);
        let went_d = resolve_detonated(d);
        assert(went =~= seq![s.bombs[i0]] + went_d);
        if i == i0 {
            assert(went[0].x == x && went[0].y == y);
        } else {
            let m = if i < i0 { i } else { i - 1 };
            assert(seat_before(i0, m) == i);
            lemma_detonate_wf(s, i0);
            lemma_detonate_bombs(s, i0);
            assert(d.bombs[m].x == x && d.bombs[m].y == y);
            if k == 0 {
                assert(s.bombs.remove(i0)[m] == s.bombs[i]);
                assert(d.bombs[m].timer == 0);
                lemma_resolve_fates(d);
                let w = choose|w: int| 0 <= w < went_d.len() && went_d[w] == d.bombs[m];
                assert(went[w + 1].x == x && went[w + 1].y == y);
            } else {
                assert(resolve_blasts(s)[k] == resolve_blasts(d)[k - 1]);
                lemma_chain(d, k - 1, m);
                let w = choose|w: int| 0 <= w < went_d.len() && (#[trigger] went_d[w]).x == x && went_d[w].y == y;
                assert(went[w + 1].x == x && went[w + 1].y == y);
            }
        }
    }
}

/// The same of the bomb phase of a tick: every bomb that sits on a cell lit
/// by any detonation of the phase goes off in the phase, whatever its fuse
/// showed, and is gone after it.
pub proof fn lemma_chain_phase(s: GameView, k: int, i: int)
    requires
        s.wf(),
        0 <= k < bombs_phase_blasts(s).len(),
        0 <= i < s.bombs.len(),
        covers(bombs_phase_blasts(s)[k], s.bombs[i].x as int, s.bombs[i].y as int),
    ensures
        bomb_at(bombs_phase_detonated(s), s.bombs[i].x as int, s.bombs[i].y as int),
        !bomb_at(bombs_phase(s).bombs, s.bombs[i].x as int, s.bombs[i].y as int),
{
    let u = fuses_burned(s);
    lemma_fuses_burned_wf(s);
    assert(u.bombs[i].x == s.bombs[i].x && u.bombs[i].y == s.bombs[i].y);
    lemma_chain(u, k, i);
}

/// Every bomb that goes off is taken off its owner's count: after all due
/// bombs went off, a player has as many bombs fewer out as went off of its
/// own, but never fewer than none.
pub proof fn lemma_owners_refunded(s: GameView, p: int)
    requires
        0 <= p < s.players.len(),
    ensures
        resolve(s).players.len() == s.players.len(),
        resolve(s).players[p].active_bombs == if s.players[p].active_bombs >= owned(
            resolve_detonated(s),
            s.players[p].id,
        ) {
            s.players[p].active_bombs - owned(resolve_detonated(s), s.players[p].id)
        } else {
            0
        },
    decreases s.bombs.len(),
{
    let i = first_due(s.bombs, 0);
    lemma_resolve_roster(s);
    if 0 <= i < s.bombs.len() {
        let d = detonate(s, i);
        lemma_owners_refunded(d, p);
        lemma_owned_first(s.bombs[i], resolve_detonated(d), s.players[p].id);
        assert(resolve_detonated(s) =~= seq![s.bombs[i]] + resolve_detonated(d));
    }
}

} // verus!
