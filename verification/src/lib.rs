//! Interactive construction of particle chains on an integer grid, with an
//! exact Catmull-Rom curve through the points of each chain.

pub mod builder;
pub mod chain;
pub mod curve;
pub mod geometry;
pub mod laws;
pub mod mouse;
