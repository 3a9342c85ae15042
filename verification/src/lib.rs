//! Engine for a turn-based, last-player-standing game on a rectangular grid.
//!
//! The board holds wall and boost markers scattered over its cells; players
//! start in the corners, move orthogonally, collect boosts, are penalized by
//! walls, and drop out when no legal move remains.

pub mod counting;
pub mod text;
pub mod user;
pub mod board;
