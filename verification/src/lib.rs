//! The decision core of a recursive path tracer for scenes of spheres.
//!
//! A path tracer alternates arithmetic on real quantities (solving a
//! quadratic, reflecting a direction) with decisions: which root of the
//! quadratic counts as the hit, which object of the scene is closest, whether
//! a surface scatters or absorbs, when a path ends and in what. This crate
//! holds the decisions, each with a contract, and the random draws that they
//! consume. Real quantities never enter it:
//!
//! * a ray parameter is handed in as an `i64` key; the keys that `order`
//!   makes from the bit patterns of doubles are ordered as the doubles are;
//! * a probability, or a uniform draw from `[0, 1)`, is the numerator of a
//!   fraction over `2^53`, and a sampled point has such numerators as its
//!   coordinates.
pub mod order;
pub mod utilities;
pub mod sampling;
pub mod hit;
pub mod material;
pub mod trace;
