//! Procedural mesh generation and pivot rotation, on fixed-point coordinates.
//!
//! The library turns a sampled height field into a triangulated terrain mesh,
//! builds a perturbed ellipsoid ("potato") mesh, and advances a rigid
//! transform around an external pivot point.  All geometry is carried in
//! 16.16 fixed-point values so that every computation is exact integer
//! arithmetic with a proved contract.

pub mod fixed;
pub mod trig;
pub mod vec3;
pub mod grid;
pub mod mesh;
pub mod heightfield;
pub mod ellipsoid;
pub mod pattern;
pub mod rotor;
