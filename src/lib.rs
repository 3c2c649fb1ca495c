//! Procedural 2D shape generation and curve smoothing, with a seeded random source.
//!
//! Coordinates are exact integers; the plans produced here are turned into pixels
//! by a drawing backend that lives outside the verified library.
pub mod color;
pub mod fractal;
pub mod geom;
pub mod math;
pub mod random;
pub mod shapes;
pub mod smooth;
