//! A stochastic lighting core on fixed-point integers: reservoirs of light
//! samples that are resampled over time and space, on top of a query
//! engine for the nearest hit of a ray in a bounding-volume hierarchy.
//!
//! Positions are points of a 16-bit grid; weights, densities and radiances
//! are counted in 1/65536ths. Every function is total on its stated
//! domain, and what it returns is stated over unbounded integers.

pub mod bindings;
pub mod bvh;
pub mod camera;
pub mod geometry;
pub mod hit;
pub mod math;
pub mod noise;
pub mod passes;
pub mod reservoir;
pub mod scene;
pub mod shaders;
pub mod shading;
pub mod stages;
pub mod texture;
pub mod vector;
