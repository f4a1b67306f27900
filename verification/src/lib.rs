//! Core of a tile-grid snake simulation.
//!
//! The library covers the simulation engine only: grid movement with
//! wrap-around at the play-area edges, the segment-following kinematics of
//! the snake, fruit placement that avoids occupied cells, collision
//! detection, scoring, and the three-phase game-state machine
//! (main menu, in game, game over) that governs which entities exist.
//! Rendering, input decoding and timing belong to the host program.

pub mod collision;
pub mod fruit;
pub mod grid;
pub mod session;
pub mod snake;
pub mod wrap_cycle;
