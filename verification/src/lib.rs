//! A tick-based entity simulation kernel: entity ownership and lifecycle,
//! message passing between entities, collision detection and resolution,
//! force-driven movement and a small finite-state machine, all over
//! fixed-point coordinates so that every rule can be stated exactly.

pub mod fixed;
pub mod vector;
pub mod entity;
pub mod graphics;
pub mod level;
pub mod input;
pub mod game;
mod shared;
