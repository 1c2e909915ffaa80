//! Simulation core of a top-down arena shooter, in integer fixed point.
//!
//! Lengths are measured in thousandths of an arena unit, times in
//! microseconds, and unit directions are scaled by `DIR_SCALE`.
pub mod geometry;
pub mod entity;
pub mod collision;
pub mod motion;
pub mod enemy;
pub mod rng;
pub mod game;

pub use game::DestroyedEnemyCount;
