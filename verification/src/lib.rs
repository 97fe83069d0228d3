//! The decision core of a small ray tracer: which surface a ray meets first,
//! and what a trace does with that surface.
//!
//! Distances along a ray enter this crate as unsigned integers. Any encoding
//! that keeps the order of the distances will do; the crate only compares
//! them. Surfaces are known by their position in the scene's lists.

pub mod obj;
pub mod scene;
pub mod trace;
