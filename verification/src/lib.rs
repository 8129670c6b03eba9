//! A 2x2x2 "pocket cube" puzzle: corner-piece state model, quarter-turn
//! rotations, a solved-state predicate, random scrambling, and an
//! iterative-deepening depth-first solver.

pub mod color;
pub mod corner;
pub mod cube;
pub mod pocket_cube;
pub mod rotation;
pub mod solver;

pub use color::Color;
pub use corner::Corner;
pub use cube::{Cube, Pocket};
pub use pocket_cube::PocketCube;
pub use rotation::Rotation;
