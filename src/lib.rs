//! Axis-aligned rectangles, a small entity store and the per-frame
//! instance upload of an instanced quad renderer.
//!
//! Lengths are fixed-point integers: `UNITS_PER_PIXEL` units make one pixel.
//! Colours are 8-bit RGB triples.
pub mod aabb;
pub mod game;
pub mod input;
pub mod render;
