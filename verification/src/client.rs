//! The client's side of a session: what it shows, and what it sends.
//!
//! A client draws nothing and sends nothing here. It is told what arrived and
//! what the player presses, keeps the last snapshot, and says what is to be
//! sent; reading the keyboard, drawing and the connection are the caller's.

use vstd::prelude::*;
use crate::client::input::InputState;
use crate::constants::MIN_PLAYERS;
use crate::map::{Grid, Tile};
use crate::protocol::{
    rows_view, BombState, ClientMsg, ExplosionState, ItemState, PlayerState, ServerMsg, ServerMsgView,
};

pub mod input;

verus! {

/// What the client shows.
#[derive(Debug, Clone, Copy, PartialEq, Eq)]
pub enum ClientPhase {
    /// Not yet seated.
    Connecting,
    /// Seated in a session below its quorum.
    Waiting { count: usize, need: usize },
    /// In a running game.
    Playing,
    /// The game is over.
    GameOver { winner: Option<u8> },
}

/// What the client draws.
#[derive(Debug, Clone, Copy, PartialEq, Eq)]
pub enum Frame {
    /// The waiting screen, with the number of players seated and needed.
    Waiting { count: usize, need: usize },
    /// The arena with all that is on it, and the roster.
    Playing,
    /// The arena with the players, and over it the outcome.
    GameOver { winner: Option<u8> },
}

/// What a client in the given phase draws. A client that is not seated yet
/// draws the waiting screen of an empty session.
pub open spec fn frame_of(phase: ClientPhase) -> Frame {
    match phase {
        ClientPhase::Connecting => Frame::Waiting { count: 0, need: MIN_PLAYERS },
        ClientPhase::Waiting { count, need } => Frame::Waiting { count, need },
        ClientPhase::Playing => Frame::Playing,
        ClientPhase::GameOver { winner } => Frame::GameOver { winner },
    }
}

/// The mathematical state of a client.
pub struct ClientView {
    pub phase: ClientPhase,
    pub my_id: u8,
    pub map: Grid,
    pub players: Seq<PlayerState>,
    pub bombs: Seq<BombState>,
    pub explosions: Seq<ExplosionState>,
    pub items: Seq<ItemState>,
    pub tick: u64,
    pub last_dx: i32,
    pub last_dy: i32,
    pub sent_join: bool,
}

/// A client that has just been opened.
pub open spec fn fresh_client() -> ClientView {
    ClientView {
        phase: ClientPhase::Connecting,
        my_id: 0,
        map: Seq::empty(),
        players: Seq::empty(),
        bombs: Seq::empty(),
        explosions: Seq::empty(),
        items: Seq::empty(),
        tick: 0,
        last_dx: 0,
        last_dy: 0,
        sent_join: false,
    }
}

/// The client after a message from the server: a welcome tells it who it is,
/// a waiting notice and the end of the game change what it shows, the start of
/// the game brings the arena and the roster, and a snapshot replaces all it
/// knows of the game.
pub open spec fn received(c: ClientView, msg: ServerMsgView) -> ClientView {
    match msg {
        ServerMsgView::Welcome { player_id, .. } => ClientView { my_id: player_id, ..c },
        ServerMsgView::Waiting { player_count, need } => ClientView {
            phase: ClientPhase::Waiting { count: player_count, need },
            ..c
        },
        ServerMsgView::GameStart { map, players } => ClientView {
            map,
            players,
            phase: ClientPhase::Playing,
            ..c
        },
        ServerMsgView::GameState { players, bombs, explosions, items, map, tick } => ClientView {
            players,
            bombs,
            explosions,
            items,
            map,
            tick,
            ..c
        },
        ServerMsgView::GameOver { winner } => ClientView { phase: ClientPhase::GameOver { winner }, ..c },
    }
}

/// The client after a run of messages, taken in order.
pub open spec fn received_all(c: ClientView, msgs: Seq<ServerMsgView>) -> ClientView
    decreases msgs.len(),
{
    if msgs.len() == 0 {
        c
    } else {
        received_all(received(c, msgs[0]), msgs.subrange(1, msgs.len() as int))
    }
}

/// The contents of a run of messages.
pub open spec fn contents(msgs: Seq<ServerMsg>) -> Seq<ServerMsgView> {
    msgs.map_values(|m: ServerMsg| m@)
}

/// Whether the client is to ask for a seat: it is connected, not seated, and
/// has not asked yet.
pub open spec fn is_to_join(c: ClientView, connected: bool) -> bool {
    c.phase == ClientPhase::Connecting && connected && !c.sent_join
}

/// Whether the client is to report its movement: it plays, and the axes are
/// not those it reported last.
pub open spec fn is_to_steer(c: ClientView, dx: i32, dy: i32) -> bool {
    c.phase == ClientPhase::Playing && (dx != c.last_dx || dy != c.last_dy)
}

/// What the client sends in one frame, given whether it is connected, the
/// axes the player pushes, whether the player asks for a bomb, and the name to
/// join under.
pub open spec fn frame_messages(c: ClientView, connected: bool, dx: i32, dy: i32, bomb: bool, name: String) -> Seq<
    ClientMsg,
> {
    if is_to_join(c, connected) {
        seq![ClientMsg::Join { name }]
    } else if c.phase == ClientPhase::Playing {
        (if is_to_steer(c, dx, dy) {
            seq![ClientMsg::Move { dx, dy }]
        } else {
            Seq::<ClientMsg>::empty()
        }) + (if bomb {
            seq![ClientMsg::PlaceBomb]
        } else {
            Seq::<ClientMsg>::empty()
        })
    } else {
        Seq::empty()
    }
}

/// The client after one frame: it remembers that it asked for a seat, and the
/// axes it reported.
pub open spec fn frame_done(c: ClientView, connected: bool, dx: i32, dy: i32) -> ClientView {
    if is_to_join(c, connected) {
        ClientView { sent_join: true, ..c }
    } else if is_to_steer(c, dx, dy) {
        ClientView { last_dx: dx, last_dy: dy, ..c }
    } else {
        c
    }
}

/// One client.
pub struct Game {
    phase: ClientPhase,
    my_id: u8,
    map: Vec<Vec<Tile>>,
    players: Vec<PlayerState>,
    bombs: Vec<BombState>,
    explosions: Vec<ExplosionState>,
    items: Vec<ItemState>,
    tick: u64,
    last_dx: i32,
    last_dy: i32,
    sent_join: bool,
}

impl View for Game {
    type V = ClientView;

    closed spec fn view(&self) -> ClientView {
        ClientView {
            phase: self.phase,
            my_id: self.my_id,
            map: rows_view(self.map),
            players: self.players@,
            bombs: self.bombs@,
            explosions: self.explosions@,
            items: self.items@,
            tick: self.tick,
            last_dx: self.last_dx,
            last_dy: self.last_dy,
            sent_join: self.sent_join,
        }
    }
}

impl Game {
    /// A client that has just been opened.
    pub fn new() -> (game: Game)
        ensures
            game@ == fresh_client(),
    {
        let game = Game {
            phase: ClientPhase::Connecting,
            my_id: 0,
            map: Vec::new(),
            players: Vec::new(),
            bombs: Vec::new(),
            explosions: Vec::new(),
            items: Vec::new(),
            tick: 0,
            last_dx: 0,
            last_dy: 0,
            sent_join: false,
        };
        assert(game@.map =~= Seq::<Seq<Tile>>::empty());
        game
    }

    /// Takes in one message from the server.
    pub fn receive(&mut self, msg: ServerMsg)
        ensures
            final(self)@ == received(old(self)@, msg@),
    {
        match msg {
            ServerMsg::Welcome { player_id, room_id: _ } => {
                self.my_id = player_id;
            },
            ServerMsg::Waiting { player_count, need } => {
                self.phase = ClientPhase::Waiting { count: player_count, need };
            },
            ServerMsg::GameStart { map, players } => {
                self.map = map;
                self.players = players;
                self.phase = ClientPhase::Playing;
            },
            ServerMsg::GameState { players, bombs, explosions, items, map, tick } => {
                self.players = players;
                self.bombs = bombs;
                self.explosions = explosions;
                self.items = items;
                self.map = map;
                self.tick = tick;
            },
            ServerMsg::GameOver { winner } => {
                self.phase = ClientPhase::GameOver { winner };
            },
        }
    }

    /// Takes in the messages that arrived from the server, in order.
    pub fn process_network(&mut self, messages: Vec<ServerMsg>)
        ensures
            final(self)@ == received_all(old(self)@, contents(messages@)),
    {
        let mut messages = messages;
        let ghost all = contents(messages@);
        while messages.len() > 0
            invariant
                received_all(self@, contents(messages@)) == received_all(old(self)@, all),
            decreases messages.len(),
        {
            let ghost before = contents(messages@);
            let msg = messages.remove(0);
            assert(contents(messages@) =~= before.subrange(1, before.len() as int));
            assert(before[0] == msg@);
            self.receive(msg);
        }
    }

    /// One frame of the client: takes in what arrived, then says what is to
    /// be sent. A connected client that is not seated asks once for a seat
    /// under `name`. A playing client reports the axes the player pushes when
    /// they changed, and asks for a bomb when the player just did. The keys
    /// that were just pressed are then forgotten.
    pub fn update(&mut self, messages: Vec<ServerMsg>, connected: bool, input: &mut InputState, name: String) -> (out:
        Vec<ClientMsg>)
        ensures
            ({
                let heard = received_all(old(self)@, contents(messages@));
                let (dx, dy) = old(input).movement();
                &&& out@ == frame_messages(heard, connected, dx, dy, old(input).bomb_wanted(), name)
                &&& final(self)@ == frame_done(heard, connected, dx, dy)
            }),
            final(input)@ == old(input)@.frame_cleared(),
    {
        self.process_network(messages);
        let mut out: Vec<ClientMsg> = Vec::new();
        match self.phase {
            ClientPhase::Connecting => {
                if connected && !self.sent_join {
                    out.push(ClientMsg::Join { name });
                    self.sent_join = true;
                }
            },
            ClientPhase::Playing => {
                let (dx, dy) = input.get_movement();
                if dx != self.last_dx || dy != self.last_dy {
                    out.push(ClientMsg::Move { dx, dy });
                    self.last_dx = dx;
                    self.last_dy = dy;
                }
                if input.wants_bomb() {
                    out.push(ClientMsg::PlaceBomb);
                }
            },
            _ => {},
        }
        input.clear_frame();
        proof {
            let heard = received_all(old(self)@, contents(messages@));
            let (dx, dy) = old(input).movement();
            assert(out@ =~= frame_messages(heard, connected, dx, dy, old(input).bomb_wanted(), name));
        }
        out
    }

    /// What is to be drawn.
    pub fn render(&self) -> (frame: Frame)
        ensures
            frame == frame_of(self@.phase),
    {
        match self.phase {
            ClientPhase::Connecting => Frame::Waiting { count: 0, need: MIN_PLAYERS },
            ClientPhase::Waiting { count, need } => Frame::Waiting { count, need },
            ClientPhase::Playing => Frame::Playing,
            ClientPhase::GameOver { winner } => Frame::GameOver { winner },
        }
    }

    /// What the client shows.
    pub fn phase(&self) -> (phase: ClientPhase)
        ensures
            phase == self@.phase,
    {
        self.phase
    }

    /// The identity the server gave to this client.
    pub fn my_id(&self) -> (id: u8)
        ensures
            id == self@.my_id,
    {
        self.my_id
    }

    /// The arena as last reported, row by row.
    pub fn map(&self) -> (map: &Vec<Vec<Tile>>)
        ensures
            rows_view(*map) == self@.map,
    {
        &self.map
    }

    /// The roster as last reported.
    pub fn players(&self) -> (players: &Vec<PlayerState>)
        ensures
            players@ == self@.players,
    {
        &self.players
    }

    /// The bombs as last reported.
    pub fn bombs(&self) -> (bombs: &Vec<BombState>)
        ensures
            bombs@ == self@.bombs,
    {
        &self.bombs
    }

    /// The explosions as last reported.
    pub fn explosions(&self) -> (explosions: &Vec<ExplosionState>)
        ensures
            explosions@ == self@.explosions,
    {
        &self.explosions
    }

    /// The items as last reported.
    pub fn items(&self) -> (items: &Vec<ItemState>)
        ensures
            items@ == self@.items,
    {
        &self.items
    }

    /// The tick of the last snapshot.
    pub fn tick(&self) -> (tick: u64)
        ensures
            tick == self@.tick,
    {
        self.tick
    }
}

} // verus!
