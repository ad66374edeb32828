//! Simulation core of a brick-breaking arcade game.
//!
//! All quantities are fixed-point integers: lengths and positions are counted
//! in thousandths of a playfield unit, speeds in thousandths of a unit per
//! second, and elapsed time in milliseconds.  The presentation layer converts
//! at the boundary; everything in here is exact integer arithmetic.

pub mod geometry;
pub mod difficulty;
pub mod entities;
pub mod collision;
pub mod motion;
pub mod game;
pub mod laws;
