//! A two-dimensional gravitational N-body simulation core.
//!
//! A small set of massive bodies attract one another under a simplified
//! Newtonian rule, move once per tick, leave a bounded trail of past
//! positions, and are removed once they stray too far from the origin.
//! All world coordinates, velocities and speeds are held in fixed-point
//! integers (thousandths of a world unit), so every formula is exact and
//! every public function carries a proved contract.
//!
//! Rendering and input handling are presentation glue and live outside
//! this library; they only read the state computed here.

pub mod body;
pub mod math;
pub mod orbit;
pub mod params;
pub mod physics;
pub mod rng;
pub mod scenario;
pub mod star;
pub mod vec2;
