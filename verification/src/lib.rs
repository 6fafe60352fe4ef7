//! Core of a terminal survival game: a fixed-tick world simulation
//! (enemy flocking, damage, pickups, leveling, spawning) and a
//! sub-character rasterizer that quantizes a virtual pixel buffer to
//! terminal cells built from 2x3 sextant glyphs.
//!
//! World coordinates, stats and tick durations are fixed-point values:
//! an `i64` counts thousandths of a world unit (see [`fixed::SCALE`]).

pub mod enemies;
pub mod fixed;
pub mod game;
pub mod input;
pub mod ppm;
pub mod rng;
pub mod screen;
pub mod sprites;
pub mod weapons;
pub mod window;
