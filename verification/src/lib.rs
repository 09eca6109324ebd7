//! A small two-dimensional physics core for bouncing balls, computed on
//! saturating decimal fixed-point numbers.

pub mod ball;
pub mod ball_collection;
pub mod decimal;
pub mod fixed;
pub mod laws;
pub mod render;
pub mod vector2d;
pub mod wide;
