//! Simulation core of an arcade brick-breaking game: movement integration,
//! collision detection and resolution, power-up lifecycle, scoring, and
//! level/lives progression, driven by a discrete game-state machine.
//!
//! All world quantities are fixed-point integers: positions, sizes and
//! velocities are thousandths of a world unit ("milli-units"), rate
//! modifiers are thousandths (1000 = 1.0), and times are milliseconds.

pub mod units;
pub mod geom;
pub mod difficulty;
pub mod effects;
pub mod entities;
pub mod rng;
pub mod flow;
pub mod world;
pub mod collision;
pub mod leaderboard;
