//! Validation, sizing moments, weighted radius sampling and container geometry
//! for packing a population of spheres described by radius / proportion pairs.
//!
//! Lengths are fixed-point integers: one unit of length is `LENGTH_SCALE` steps.
pub mod container;
pub mod parsing;
pub mod sampler;

use vstd::prelude::*;

verus! {

/// Number of fixed-point steps in one unit of length.
pub const LENGTH_SCALE: i64 = 1000000;

/// Nominal number of spheres the container is sized for.
pub const TARGET_SPHERE_COUNT: u64 = 1000;

/// The container holds this many times the nominal sphere volume (about half full).
pub const VOLUME_MARGIN: u64 = 2;

/// Height-to-radius ratio of a cylindrical container.
pub const CYLINDER_ASPECT: u64 = 8;

} // verus!
