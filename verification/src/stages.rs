//! The per-pixel stages of the lighting pipeline, each as a function of one
//! pixel's inputs.

pub mod direct_initial_sampling;
pub mod direct_resolving;
pub mod direct_spatial_resampling;
pub mod direct_temporal_resampling;
pub mod indirect_initial_tracing;
