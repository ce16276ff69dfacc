//! Simulation core of a 2D arcade shooter: a ship steered from key states, asteroid
//! waves, lasers, collisions and an entity store with deferred deletion.
//!
//! The world is kept in whole numbers: positions in thousandths of a pixel, headings
//! in thousandths of a degree, elapsed time in microseconds.
pub mod asteroid;
pub mod components;
pub mod frame;
pub mod game;
pub mod geometry;
pub mod input_manager;
pub mod laser;
mod rng;
pub mod world;
