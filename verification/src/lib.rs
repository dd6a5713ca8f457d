//! The decision kernel of a stochastic path tracer for scenes of spheres.
//!
//! A path tracer alternates numeric work (solving the ray-sphere quadratic,
//! sampling directions, multiplying colours) with decisions: which sphere a
//! ray reaches first, whether that sphere is the light, whether the path is
//! cut off, which kind of bounce follows, whether the light is visible, and
//! what stands in for a path that left the scene. This crate holds the
//! decisions, each with a proved contract.
//!
//! Every real number crosses the boundary as the bit pattern of an IEEE-754
//! binary64. The crate never computes with these numbers; it compares them,
//! and `scalar` proves that its comparisons agree with the exact values the
//! patterns stand for.
//!
//! - `scalar`: binary64 patterns, their exact values and their order.
//! - `color`: colours, and the colour by which the light is known.
//! - `hit`: the crossing of a ray with a sphere, the nearest hit, shadows.
//! - `integrator`: how a level of a path ends and how the path goes on.
//! - `canvas`: the raster that receives one colour per pixel.

pub mod canvas;
pub mod color;
pub mod hit;
pub mod integrator;
pub mod scalar;
