//! A verified simulation engine for a colony of foraging agents moving
//! across a bounded arena, picking up food and steering each other home
//! through decaying pheromone signs held in a spatial grid.
//!
//! All state is Q16.16 fixed point: coordinates and angles are `i64` values
//! scaled by `geom::ONE`. Trigonometry comes from an integer CORDIC crate
//! and randomness from explicitly seeded generators, both behind trusted
//! declarations; everything else — motion, clamping, heading discipline,
//! the grid, and the tick — is verified.

pub mod geom;
pub mod trig;
pub mod randsrc;
pub mod ant;
pub mod grid;
pub mod env;
