//! Deterministic simulation core of a multiplayer snake arcade game.
//!
//! Positions and velocities are integers in thousandths of a virtual pixel,
//! durations are whole milliseconds and a body's scale (which is also its
//! mass) is counted in hundredths.
pub mod geometry;
pub mod physics;
pub mod timer;
pub mod player;
pub mod spawn;
pub mod game;
