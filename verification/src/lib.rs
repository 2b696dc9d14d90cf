//! A multiplayer arena game: up to four players move on a grid, place bombs
//! that go off after a fixed fuse, destroy blocks, set off each other's bombs
//! and eliminate whoever stands in a blast, until at most one is left.
//!
//! The library holds the rules and decides; it reads no clock, draws nothing
//! and holds no connection.
//!
//! - [`map`]: the tile grid and its generator.
//! - [`game`]: the simulation engine, advanced one tick at a time.
//! - [`room`]: a session, which seats players, applies their intents, drives
//!   the engine and says what is to be sent to whom.
//! - [`registry`]: all sessions, and where a new player goes.
//! - [`protocol`]: the messages between a client and the server.
//! - [`client`]: the client's side, what it shows and what it sends.
//! - [`http`]: the first look at a connection.
//! - [`constants`]: the fixed parameters, and the fixed-point units.
//!
//! Every operation is stated over a mathematical view of the state it works
//! on, and proved to do what its contract says.

pub mod client;
pub mod constants;
pub mod game;
pub mod http;
pub mod map;
pub mod protocol;
mod random;
pub mod registry;
pub mod room;
