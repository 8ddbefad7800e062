//! Rules engine of a falling-block puzzle game.
//!
//! The crate owns the playing field, the piece under the player's control and
//! every transition that a frame can make: spawning, lateral movement, hard
//! drop, rotation, gravity, fixing, row collapse and the reset after a lost
//! game. Every function carries a contract over a mathematical model of the
//! game, and the contracts are machine-checked.

pub mod geometry;
pub mod board;
pub mod cells;
pub mod collapse;
pub mod catalog;
pub mod timer;
pub mod piece;
pub mod game;
pub mod invariants;
pub mod counting;
pub mod layout;
