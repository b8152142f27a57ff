use vstd::prelude::*;

verus! {

/// Fixed-point resolution: every world coordinate, velocity component and
/// speed in this crate is an integer count of thousandths of a world unit
/// ("milli-units").
pub const SCALE: i64 = 1000;

/// Longest trail of past positions a body keeps.
pub const TRAIL_LENGTH: usize = 1000;

/// Gravitational coefficient, already folded into milli-unit form.
///
/// The simulation's gravitational constant is 6.674e-11 scaled by 1e7,
/// i.e. 6674 / 10_000_000 in world units.  An acceleration of
/// `G * m / d^2` world units per tick, with `d^2` taken in squared
/// milli-units, comes out as `6674 * m * SCALE^3 / (10_000_000 * d^2)`
/// milli-units per tick, and `6674 * SCALE^3 / 10_000_000 == 6674 * 100`.
pub const GRAV_NUM_MILLI: i64 = 6674 * 100;

/// Orbital speeds handed out by the orbit solver are clamped to this
/// (2 world units per tick).
pub const MAX_SPEED_MILLI: i64 = 2000;

/// Satellites start inside the square of this half-width around the sun
/// (400 world units).
pub const MAX_ORBIT_RADIUS_MILLI: i64 = 400_000;

/// Largest random perturbation added to one velocity axis of a fresh
/// satellite (0.8 world units per tick).
pub const ORBIT_ELLIPTICITY_MILLI: i64 = 800;

/// A body whose distance from the origin exceeds this is culled
/// (1500 world units).
pub const CULL_DISTANCE_MILLI: i64 = 1_500_000;

/// Mass of the central body.
pub const SUN_MASS: i64 = 1_500_000;

/// Bounds of the random satellite mass range.
pub const SAT_MASS_MIN: i64 = 50;
pub const SAT_MASS_MAX: i64 = 5000;

/// Bounds of the random satellite count.
pub const SAT_COUNT_MIN: i64 = 4;
pub const SAT_COUNT_MAX: i64 = 12;

/// Lowest random colour channel of a satellite, keeping it visible
/// against a black background.
pub const SAT_COLOR_MIN: i64 = 20;

/// Size of the decorative star field.
pub const STAR_COUNT: usize = 500;

// The bounds below are not part of the simulation's rules: they are the
// machine limits under which every intermediate product of the integer
// formulas provably fits its type.

/// Coordinate bound (milli-units) under which a body may enter a tick.
pub const POS_LIMIT: i64 = 1_000_000_000;

/// Velocity bound (milli-units per tick) under which a body may enter a
/// tick.
pub const VEL_LIMIT: i64 = 1_000_000_000;

/// Mass bound under which a body may enter a tick.
pub const MASS_LIMIT: i64 = 10_000_000;

/// Largest collection a tick accepts.
pub const MAX_BODIES: usize = 1000;

/// Largest velocity change a single gravity accumulation can apply:
/// `GRAV_NUM_MILLI * m / d^2` with `m <= MASS_LIMIT` and `d^2 >= 1`.
pub const DV_MAX: i64 = GRAV_NUM_MILLI * MASS_LIMIT;

/// Largest displacement scale `record_and_move` accepts (ten world units
/// of displacement per unit of velocity).
pub const MAX_DISPLACEMENT_SCALE: i64 = 10_000;

/// Coordinate bound under which `record_and_move` itself cannot overflow.
pub const POS_STEP_LIMIT: i64 = 1_000_000_000_000_000_000;

/// Velocity bound under which `record_and_move` itself cannot overflow.
pub const VEL_STEP_LIMIT: i64 = 100_000_000_000_000_000;

/// Velocity bound under which one more gravity accumulation cannot
/// overflow.
pub const VEL_ACCUM_LIMIT: i64 = 1_000_000_000_000_000_000;

} // verus!
