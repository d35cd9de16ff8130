//! Whiteout: the simulation model of a turn-based snow-clearing game.
//!
//! A fixed grid of snow piles, a snowfall process that keeps refilling it, and
//! a player who either plows a line of snow forward or lifts and drops single
//! piles with a shovel. Every function carries a contract that is checked by
//! Verus.

pub mod field;
pub mod flurry;
pub mod laws;
pub mod piles;
pub mod player;
pub mod point;
pub mod push;
pub mod ray;
pub mod render;
pub mod session;
pub mod snow;
pub mod world;
