//! The win check: a running game with at most one player left is over.

use vstd::prelude::*;
use crate::game::{GameInstance, GameView, Phase, Player};

verus! {

/// Number of living players.
pub open spec fn alive_count(players: Seq<Player>) -> nat
    decreases players.len(),
{
    if players.len() == 0 {
        0
    } else {
        alive_count(players.drop_last()) + if players.last().alive {
            1nat
        } else {
            0nat
        }
    }
}

/// Identity of the first living player in roster order, if one lives.
pub open spec fn first_alive(players: Seq<Player>) -> Option<u8>
    decreases players.len(),
{
    if players.len() == 0 {
        None
    } else {
        match first_alive(players.drop_last()) {
            Some(id) => Some(id),
            None => if players.last().alive {
                Some(players.last().id)
            } else {
                None
            },
        }
    }
}

/// Whether a roster decides a game: at least two players took part and at
/// most one of them lives.
pub open spec fn decided(players: Seq<Player>) -> bool {
    alive_count(players) <= 1 && players.len() >= 2
}

/// The game after the win check: a running game whose roster is decided is
/// finished, won by the survivor, or by nobody if none lives.
pub open spec fn judged(s: GameView) -> GameView {
    if s.phase == Phase::Running && decided(s.players) {
        GameView { phase: Phase::Finished { winner: first_alive(s.players) }, ..s }
    } else {
        s
    }
}

impl GameInstance {
    /// The win check of a tick: ends a running game in which at least two
    /// players took part and at most one lives, and records the survivor.
    pub fn check_game_over(&mut self)
        requires
            old(self).wf(),
        ensures
            final(self).wf(),
            final(self)@ == judged(old(self)@),
    {
        let mut alive: usize = 0;
        let mut survivor: Option<u8> = None;
        let mut i: usize = 0;
        while i < self.players.len()
            invariant
                i <= self.players.len(),
                alive <= i,
                alive == alive_count(self@.players.subrange(0, i as int)),
                survivor == first_alive(self@.players.subrange(0, i as int)),
            decreases self.players.len() - i,
        {
            proof {
                let upto = self@.players.subrange(0, i + 1);
                assert(upto.drop_last() =~= self@.players.subrange(0, i as int));
                assert(upto.last() == self@.players[i as int]);
            }
            if self.players[i].alive {
                alive += 1;
                if survivor.is_none() {
                    survivor = Some(self.players[i].id);
                }
            }
            i += 1;
        }
        assert(self@.players.subrange(0, i as int) =~= self@.players);
        let running = match self.phase {
            Phase::Running => true,
            _ => false,
        };
        if running && alive <= 1 && self.players.len() >= 2 {
            self.phase = Phase::Finished { winner: survivor };
        }
    }
}

} // verus!
