//! Core of an offline path tracer: exact fixed-point geometry, an
//! axis-aligned-bounding-box hierarchy, and the decision logic of the
//! integrator, all verified.
//!
//! Scene coordinates are fixed-point integers (the caller picks the scale);
//! ray parameters are exact rationals. This keeps every intersection test
//! and every closest-hit comparison exact, so the spatial index can be
//! proved to return the same hit as a brute-force scan.

pub mod aabb;
pub mod bvh;
pub mod hitable;
pub mod integrator;
pub mod materials;
pub mod plane;
pub mod prism;
pub mod rat;
pub mod ray;
pub mod sphere;
pub mod transformations;
pub mod triangle;
pub mod utils;
pub mod vec3;
pub mod world;
