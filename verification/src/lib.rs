//! A verified core for a small 2D platformer simulation.
//!
//! All quantities are fixed-point integers: a coordinate of one pixel is
//! `SCALE` units. The library covers the player's state (position, velocity,
//! rotation, grounded flag), the polyline ground, and the geometry used by
//! the slope-collision response: integer square roots, point-to-line offsets,
//! and vector lengths. Rendering and input polling live outside the library.

pub mod fixedpoint;
pub mod vec2;
pub mod player;
