//! A matchmaking and session server core for a two-player 3x3 grid game.
//!
//! The crate holds the wire-level packet codec, the per-session game state
//! machine, and the backend that pairs connections into sessions and keeps
//! the user directory, session registry and waiting slot consistent.

pub mod backend;
pub mod game;
pub mod packet;
pub mod user;
