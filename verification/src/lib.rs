//! Procedural island terrain in fixed-point arithmetic.
//!
//! A terrain is a square grid of heights. It starts as fractal value noise
//! ([`noise`]), is stretched to the unit range and shaped into an island
//! ([`heightfield`]), and is then worn down by water: particles run
//! downhill, take sediment along and drop it again ([`erosion`]), while the
//! ground around them relaxes where it has become too steep ([`cascade`]).
//! The finished terrain answers questions at any position, not only at grid
//! points: height, surface normal, flatness and flow ([`query`]).
//!
//! Around that core stand its consumers: the tessellation of the terrain
//! into triangles ([`mesh`]), the choice of places for the player and for
//! things that grow or lie on the island ([`placement`]), the motion of
//! bodies over the ground ([`physics`]), and the boxes and viewing volumes
//! that bound them ([`aabb`], [`frustrum`]).
//!
//! All numbers are fixed-point ([`fixed`], [`vector`]): every operation is
//! total and exact in its rounding, so every function here is a function of
//! its arguments alone, down to the last bit. The one exception is the
//! choice of random points, which is left to a seeded generator.

pub mod aabb;
pub mod cascade;
pub mod erosion;
pub mod fixed;
pub mod frustrum;
pub mod heightfield;
pub mod influence;
pub mod mesh;
pub mod noise;
pub mod params;
pub mod physics;
pub mod placement;
pub mod query;
mod rng;
pub mod vector;
