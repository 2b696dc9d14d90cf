//! A session: one game, the players connected to it, and what is to be sent
//! to whom.
//!
//! A session sends nothing itself. Each operation that calls for a message
//! returns it as an [`Outbound`], naming the connected players to deliver it
//! to; the caller holds the channels and does the sending.

use vstd::prelude::*;
use crate::constants::MIN_PLAYERS;
use crate::game::intents::{bomb_placed, movement_set};
use crate::game::laws::lemma_step_roster;
use crate::game::snapshot::{roster, snapshot};
use crate::game::{
    has_player, opening, recruit, spawn_slot, step, tick_rubble, GameInstance, GameView, Phase, Player,
};
use crate::map::arena;
use crate::protocol::{ClientMsg, ItemKind, ServerMsg, ServerMsgView};

verus! {

/// A message together with the players it goes to.
#[derive(Debug, Clone, PartialEq, Eq)]
pub struct Outbound {
    /// Identities of the connected players to deliver to, in joining order.
    pub to: Vec<u8>,
    /// The message, the same for all of them.
    pub msg: ServerMsg,
}

/// The mathematical content of an [`Outbound`].
pub struct OutboundView {
    pub to: Seq<u8>,
    pub msg: ServerMsgView,
}

impl View for Outbound {
    type V = OutboundView;

    open spec fn view(&self) -> OutboundView {
        OutboundView { to: self.to@, msg: self.msg@ }
    }
}

/// What a join brought about.
#[derive(Debug, Clone, PartialEq, Eq)]
pub struct Joined {
    /// The identity given to the new player.
    pub player_id: u8,
    /// The welcome, for the new player alone.
    pub welcome: Outbound,
    /// What the whole session is told, if anything.
    pub notice: Option<Outbound>,
    /// Whether this join started the game, so that ticking is to begin.
    pub started: bool,
}

/// What one turn of the tick driver brought about.
#[derive(Debug, Clone, PartialEq, Eq)]
pub struct Driven {
    /// What the whole session is told.
    pub notice: Outbound,
    /// Whether the driver is to come back after the next tick period.
    pub more: bool,
}

/// The mathematical state of a session.
pub struct RoomView {
    pub id: Seq<char>,
    pub game: GameView,
    /// Identities of the connected players, in joining order.
    pub seats: Seq<u8>,
    pub next_player_id: u8,
    pub min_players: usize,
}

/// The identities other than `player_id`.
pub open spec fn other_than(player_id: u8) -> spec_fn(u8) -> bool {
    |id: u8| id != player_id
}

/// A player after it left: dead.
pub open spec fn departed(p: Player) -> Player {
    Player { alive: false, ..p }
}

impl RoomView {
    /// The invariant of a session: its game is well formed, no player is
    /// connected twice, and every identity in use lies below the next one to
    /// be given out.
    pub open spec fn wf(self) -> bool {
        &&& self.game.wf()
        &&& forall|i: int, j: int|
            #![trigger self.seats[i], self.seats[j]]
            0 <= i < j < self.seats.len() ==> self.seats[i] != self.seats[j]
        &&& forall|i: int| 0 <= i < self.seats.len() ==> #[trigger] self.seats[i] < self.next_player_id
        &&& forall|i: int|
            0 <= i < self.game.players.len() ==> (#[trigger] self.game.players[i]).id < self.next_player_id
    }

    /// Whether the session can give out another identity.
    pub open spec fn has_ids_left(self) -> bool {
        self.next_player_id < u8::MAX
    }

    /// Whether the session has its quorum and has not started.
    pub open spec fn ready(self) -> bool {
        self.seats.len() >= self.min_players && self.game.phase == Phase::Idle
    }

    /// The session after a player of the given name took a seat.
    pub open spec fn seated(self, name: String) -> RoomView {
        RoomView {
            game: GameView {
                players: self.game.players.push(
                    recruit(self.next_player_id, name, spawn_slot(self.game.players.len() as int)),
                ),
                ..self.game
            },
            seats: self.seats.push(self.next_player_id),
            next_player_id: (self.next_player_id + 1) as u8,
            ..self
        }
    }

    /// The session after a player of the given name joined: seated, and the
    /// game started if that made the quorum.
    pub open spec fn joined(self, name: String) -> RoomView {
        let t = self.seated(name);
        if t.ready() {
            RoomView { game: GameView { phase: Phase::Running, ..t.game }, ..t }
        } else {
            t
        }
    }

    /// What the session is told on a join: how many are waiting while the
    /// quorum is not made, the start of the game when the join makes it, and
    /// nothing when the game has started before.
    pub open spec fn join_notice(self, name: String) -> Option<OutboundView> {
        let t = self.seated(name);
        if t.seats.len() < t.min_players {
            Some(
                OutboundView {
                    to: t.seats,
                    msg: ServerMsgView::Waiting { player_count: t.seats.len() as usize, need: t.min_players },
                },
            )
        } else if t.game.phase == Phase::Idle {
            Some(
                OutboundView {
                    to: t.seats,
                    msg: ServerMsgView::GameStart { map: t.game.grid, players: roster(t.game.players) },
                },
            )
        } else {
            None
        }
    }

    /// Whether `report` is what a join under the given name brings about.
    pub open spec fn join_reported(self, name: String, report: Joined) -> bool {
        &&& report.player_id == self.next_player_id
        &&& report.welcome@ == (OutboundView {
            to: seq![report.player_id],
            msg: ServerMsgView::Welcome { player_id: report.player_id, room_id: self.id },
        })
        &&& match report.notice {
            Some(notice) => self.join_notice(name) == Some(notice@),
            None => self.join_notice(name) is None,
        }
        &&& report.started == self.seated(name).ready()
    }

    /// Whether the player `player_id` is connected.
    pub open spec fn is_seated(self, player_id: u8) -> bool {
        self.seats.contains(player_id)
    }

    /// The session after the player `player_id` left: its seat is free, and
    /// the player, kept in the roster, is dead.
    pub open spec fn vacated(self, player_id: u8) -> RoomView {
        RoomView {
            seats: self.seats.filter(other_than(player_id)),
            game: GameView {
                players: self.game.players.map_values(
                    |p: Player|
                        if p.id == player_id {
                            departed(p)
                        } else {
                            p
                        },
                ),
                ..self.game
            },
            ..self
        }
    }

    /// The session after a message from the player `player_id`. A message
    /// from a player who is not connected changes nothing, nor does a join.
    pub open spec fn heard(self, player_id: u8, msg: ClientMsg) -> RoomView {
        if !self.is_seated(player_id) {
            self
        } else {
            match msg {
                ClientMsg::Move { dx, dy } => RoomView { game: movement_set(self.game, player_id, dx, dy), ..self },
                ClientMsg::PlaceBomb => RoomView { game: bomb_placed(self.game, player_id), ..self },
                ClientMsg::Join { .. } => self,
            }
        }
    }

    /// The session after one turn of the tick driver, given what the blocks
    /// destroyed in the tick drop: a finished game stays as it is, any other
    /// is advanced by one tick.
    pub open spec fn driven(self, drops: Seq<Option<ItemKind>>) -> RoomView {
        if self.game.phase is Finished {
            self
        } else {
            RoomView { game: step(self.game, drops), ..self }
        }
    }

    /// What the session is told after one turn of the tick driver, given
    /// what the blocks destroyed in the tick drop: the outcome of a game that
    /// was finished already, else the snapshot after the tick.
    pub open spec fn drive_notice(self, drops: Seq<Option<ItemKind>>) -> OutboundView {
        match self.game.phase {
            Phase::Finished { winner } => OutboundView {
                to: self.seats,
                msg: ServerMsgView::GameOver { winner },
            },
            _ => OutboundView { to: self.seats, msg: snapshot(step(self.game, drops)) },
        }
    }

    /// Whether `after` and `report` are what one turn of the tick driver
    /// brings about when the blocks destroyed in the tick drop `drops`, one
    /// outcome for each of them.
    pub open spec fn drive_reported(self, drops: Seq<Option<ItemKind>>, after: RoomView, report: Driven) -> bool {
        &&& drops.len() == tick_rubble(self.game).len()
        &&& after == self.driven(drops)
        &&& report.notice@ == self.drive_notice(drops)
        &&& report.more == !(self.game.phase is Finished)
    }
}

/// One session.
pub struct Room {
    id: String,
    game: GameInstance,
    seats: Vec<u8>,
    next_player_id: u8,
    min_players: usize,
}

impl View for Room {
    type V = RoomView;

    closed spec fn view(&self) -> RoomView {
        RoomView {
            id: self.id@,
            game: self.game@,
            seats: self.seats@,
            next_player_id: self.next_player_id,
            min_players: self.min_players,
        }
    }
}

impl Room {
    /// The invariant that every operation keeps.
    pub open spec fn wf(&self) -> bool {
        self@.wf()
    }

    /// An empty session under the given identifier, with the generated arena
    /// and the fixed quorum.
    pub fn new(id: String) -> (room: Room)
        ensures
            room.wf(),
            room@ == (RoomView {
                id: id@,
                game: opening(arena()),
                seats: Seq::empty(),
                next_player_id: 0,
                min_players: MIN_PLAYERS,
            }),
    {
        Room { id, game: GameInstance::new(), seats: Vec::new(), next_player_id: 0, min_players: MIN_PLAYERS }
    }

    /// The session's identifier.
    pub fn id(&self) -> (id: &String)
        ensures
            id@ == self@.id,
    {
        &self.id
    }

    /// The session's game.
    pub fn game(&self) -> (game: &GameInstance)
        ensures
            game@ == self@.game,
    {
        &self.game
    }

    /// Connected players the session needs before it starts.
    pub fn min_players(&self) -> (n: usize)
        ensures
            n == self@.min_players,
    {
        self.min_players
    }

    /// Whether the session can give out another identity.
    pub fn has_ids_left(&self) -> (yes: bool)
        ensures
            yes == self@.has_ids_left(),
    {
        self.next_player_id < u8::MAX
    }

    /// Seats a new player: gives it the next identity, adds it to the game on
    /// the next spawn slot, and counts it as connected. Returns the identity.
    pub fn add_player(&mut self, name: String) -> (pid: u8)
        requires
            old(self).wf(),
            old(self)@.has_ids_left(),
        ensures
            final(self).wf(),
            final(self)@ == old(self)@.seated(name),
            pid == old(self)@.next_player_id,
    {
        let pid = self.next_player_id;
        self.next_player_id += 1;
        assert(!has_player(self.game@.players, pid));
        self.game.add_player(pid, name);
        self.seats.push(pid);
        pid
    }

    /// Number of connected players.
    pub fn player_count(&self) -> (n: usize)
        ensures
            n == self@.seats.len(),
    {
        self.seats.len()
    }

    /// Whether the session has its quorum and has not started.
    pub fn is_ready(&self) -> (ready: bool)
        ensures
            ready == self@.ready(),
    {
        self.seats.len() >= self.min_players && match self.game.phase() {
            Phase::Idle => true,
            _ => false,
        }
    }

    /// Whether the player `player_id` is connected.
    pub fn is_connected(&self, player_id: u8) -> (yes: bool)
        ensures
            yes == self@.is_seated(player_id),
    {
        let mut i: usize = 0;
        while i < self.seats.len()
            invariant
                i <= self.seats.len(),
                forall|j: int| 0 <= j < i ==> self@.seats[j] != player_id,
            decreases self.seats.len() - i,
        {
            if self.seats[i] == player_id {
                return true;
            }
            i += 1;
        }
        false
    }

    /// The identities of the connected players, in joining order.
    pub fn connected(&self) -> (ids: Vec<u8>)
        ensures
            ids@ == self@.seats,
    {
        let mut ids: Vec<u8> = Vec::new();
        let mut i: usize = 0;
        while i < self.seats.len()
            invariant
                i <= self.seats.len(),
                ids@ == self@.seats.subrange(0, i as int),
            decreases self.seats.len() - i,
        {
            ids.push(self.seats[i]);
            assert(self@.seats.subrange(0, i + 1) =~= self@.seats.subrange(0, i as int).push(self@.seats[i as int]));
            i += 1;
        }
        assert(self@.seats.subrange(0, i as int) =~= self@.seats);
        ids
    }

    /// Addresses a message to every connected player.
    pub fn broadcast(&self, msg: ServerMsg) -> (out: Outbound)
        ensures
            out.msg == msg,
            out.to@ == self@.seats,
    {
        Outbound { to: self.connected(), msg }
    }

    /// Addresses a message to the player `player_id`, or to nobody if that
    /// player is not connected.
    pub fn send_to(&self, player_id: u8, msg: ServerMsg) -> (out: Outbound)
        ensures
            out.msg == msg,
            out.to@ == if self@.is_seated(player_id) {
                seq![player_id]
            } else {
                Seq::<u8>::empty()
            },
    {
        let mut to: Vec<u8> = Vec::new();
        if self.is_connected(player_id) {
            to.push(player_id);
        }
        assert(self@.is_seated(player_id) ==> to@ =~= seq![player_id]);
        Outbound { to, msg }
    }

    /// Disconnects the player `player_id` and marks it dead. The player stays
    /// in the roster.
    pub fn remove_player(&mut self, player_id: u8)
        requires
            old(self).wf(),
        ensures
            final(self).wf(),
            final(self)@ == old(self)@.vacated(player_id),
    {
        let ghost start = self@;
        let ghost keep = other_than(player_id);
        let mut kept: Vec<u8> = Vec::new();
        let mut i: usize = 0;
        while i < self.seats.len()
            invariant
                self@ == start,
                start.wf(),
                keep == other_than(player_id),
                i <= self.seats.len(),
                kept@ == start.seats.subrange(0, i as int).filter(keep),
                forall|a: int|
                    0 <= a < kept@.len() ==> start.seats.subrange(0, i as int).contains(#[trigger] kept@[a]),
                forall|a: int, b: int|
                    #![trigger kept@[a], kept@[b]]
                    0 <= a < b < kept@.len() ==> kept@[a] != kept@[b],
            decreases self.seats.len() - i,
        {
            let id = self.seats[i];
            proof {
                assert(start.seats.subrange(0, i + 1) =~= start.seats.subrange(0, i as int).push(id));
                start.seats.subrange(0, i as int).lemma_filter_push(id, keep);
            }
            proof {
                assert forall|a: int| 0 <= a < kept@.len() implies start.seats.subrange(0, i + 1).contains(
                    #[trigger] kept@[a],
                ) && kept@[a] != id by {
                    let b = choose|b: int|
                        0 <= b < start.seats.subrange(0, i as int).len() && start.seats.subrange(0, i as int)[b]
                            == kept@[a];
                    assert(start.seats.subrange(0, i + 1)[b] == kept@[a]);
                    assert(start.seats[b] != start.seats[i as int]);
                }
                assert(start.seats.subrange(0, i + 1)[i as int] == id);
            }
            if id != player_id {
                kept.push(id);
            }
            i += 1;
        }
        assert(start.seats.subrange(0, i as int) =~= start.seats);
        assert forall|a: int| 0 <= a < kept@.len() implies #[trigger] kept@[a] < start.next_player_id by {
            assert(start.seats.contains(kept@[a]));
            let b = choose|b: int| 0 <= b < start.seats.len() && start.seats[b] == kept@[a];
            assert(start.seats[b] < start.next_player_id);
        }
        self.seats = kept;
        self.game.mark_dead(player_id);
        assert(self@.game.players =~= start.vacated(player_id).game.players);
    }

    /// Takes a new player in: seats it, welcomes it, and tells the session
    /// either how many are waiting or, when this join makes the quorum, that
    /// the game starts, which it then does.
    pub fn join(&mut self, name: String) -> (joined: Joined)
        requires
            old(self).wf(),
            old(self)@.has_ids_left(),
        ensures
            final(self).wf(),
            final(self)@ == old(self)@.joined(name),
            old(self)@.join_reported(name, joined),
    {
        let player_id = self.add_player(name);
        let ghost seated = self@;
        assert(self@.is_seated(player_id)) by {
            assert(self@.seats[self@.seats.len() - 1] == player_id);
        }
        let welcome = self.send_to(player_id, ServerMsg::Welcome { player_id, room_id: self.id.clone() });
        let count = self.player_count();
        if count < self.min_players {
            let notice = self.broadcast(ServerMsg::Waiting { player_count: count, need: self.min_players });
            Joined { player_id, welcome, notice: Some(notice), started: false }
        } else if self.is_ready() {
            let map = self.game.map_rows();
            let players = self.game.player_states();
            let notice = self.broadcast(ServerMsg::GameStart { map, players });
            self.game.start();
            Joined { player_id, welcome, notice: Some(notice), started: true }
        } else {
            Joined { player_id, welcome, notice: None, started: false }
        }
    }

    /// Applies a message from the player `player_id` to the game. A message
    /// from a player who is not connected is ignored, and so is a join.
    pub fn apply_intent(&mut self, player_id: u8, msg: ClientMsg)
        requires
            old(self).wf(),
        ensures
            final(self).wf(),
            final(self)@ == old(self)@.heard(player_id, msg),
    {
        if !self.is_connected(player_id) {
            return ;
        }
        match msg {
            ClientMsg::Move { dx, dy } => {
                self.game.set_player_movement(player_id, dx, dy);
            },
            ClientMsg::PlaceBomb => {
                self.game.place_bomb(player_id);
            },
            ClientMsg::Join { .. } => {},
        }
    }

    /// One turn of the tick driver. If the game is finished, nothing changes,
    /// the session is told the outcome, and the driver is done. Else the game
    /// is advanced by one tick, the session is told the snapshot, and the
    /// driver is to come back. What the blocks destroyed in the tick drop is
    /// drawn: the turn is what `drive_reported` tells for some list of
    /// outcomes.
    pub fn drive(&mut self) -> (driven: Driven)
        requires
            old(self).wf(),
        ensures
            final(self).wf(),
            exists|drops: Seq<Option<ItemKind>>| #[trigger] old(self)@.drive_reported(drops, final(self)@, driven),
    {
        let ghost start = self@;
        if self.game.finished() {
            let notice = self.broadcast(ServerMsg::GameOver { winner: self.game.winner() });
            let driven = Driven { notice, more: false };
            proof {
                let none = Seq::new(tick_rubble(start.game).len(), |i: int| None::<ItemKind>);
                assert(start.drive_reported(none, self@, driven));
            }
            driven
        } else {
            self.game.tick();
            proof {
                let drops = choose|drops: Seq<Option<ItemKind>>|
                    drops.len() == tick_rubble(start.game).len() && self@.game == #[trigger] step(start.game, drops);
                lemma_step_roster(start.game, drops);
            }
            let notice = self.broadcast(self.game.get_state_msg());
            let driven = Driven { notice, more: true };
            proof {
                let drops = choose|drops: Seq<Option<ItemKind>>|
                    drops.len() == tick_rubble(start.game).len() && self@.game == #[trigger] step(start.game, drops);
                assert(start.drive_reported(drops, self@, driven));
            }
            driven
        }
    }
}

/// The identity that a session gives out next is new: no player of the
/// session has it, dead or alive, connected or not.
pub proof fn lemma_next_identity_is_new(r: RoomView)
    requires
        r.wf(),
    ensures
        !has_player(r.game.players, r.next_player_id),
        !r.is_seated(r.next_player_id),
{
}

/// Once its game is finished, a session never ticks again: a turn of the
/// tick driver leaves it as it is.
pub proof fn lemma_finished_stays(r: RoomView)
    requires
        r.game.phase is Finished,
    ensures
        forall|drops: Seq<Option<ItemKind>>| #[trigger] r.driven(drops) == r,
{
}

} // verus!
