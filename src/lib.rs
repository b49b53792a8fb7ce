//! A frame-stepped snake game: geometry, the snake's body and steering,
//! apples that spawn, age and get eaten, and the play / game-over cycle.
//!
//! Lengths are whole millipixels and times whole milliseconds, so every rule
//! of the simulation is stated and checked over exact integers.
pub mod geometry;
pub mod snake;
pub mod apple;
pub mod game;
