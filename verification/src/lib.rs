//! A verified flocking ("boids") simulation engine.
//!
//! Point agents update position and velocity once per discrete tick from
//! local neighbor interactions (separation, alignment, cohesion), soft
//! boundary turning and speed clamping.  All scalars are fixed-point values:
//! signed 64-bit integers counting ten-thousandths of a simulation-space
//! unit, so that every step of the update is exact, deterministic and
//! provable.  Arithmetic saturates at the bounds of the representation, the
//! integer analogue of floating point saturating at infinity.

pub mod fixp;
pub mod sim;
pub mod laws;
