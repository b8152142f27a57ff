use crate::params::POS_STEP_LIMIT;
use vstd::prelude::*;

verus! {

/// A two-dimensional world-space vector in milli-units (see
/// [`crate::params::SCALE`]).
#[derive(Clone, Copy, Debug, PartialEq, Eq, Structural)]
pub struct Vec2 {
    pub x: i64,
    pub y: i64,
}

/// Squared Euclidean length, as a mathematical integer.
pub open spec fn norm2(v: Vec2) -> int {
    v.x * v.x + v.y * v.y
}

/// Squared distance between two points, as a mathematical integer.
pub open spec fn dist2(a: Vec2, b: Vec2) -> int {
    (b.x - a.x) * (b.x - a.x) + (b.y - a.y) * (b.y - a.y)
}

impl Vec2 {
    /// The origin.
    pub fn zero() -> (v: Vec2)
        ensures
            v == (Vec2 { x: 0, y: 0 }),
    {
        Vec2 { x: 0, y: 0 }
    }

    /// Squared Euclidean length.  The bound on the coordinates is a
    /// machine limit: it keeps the squares inside `i128`.
    pub fn norm2(&self) -> (r: i128)
        requires
            -POS_STEP_LIMIT - POS_STEP_LIMIT <= self.x <= POS_STEP_LIMIT + POS_STEP_LIMIT,
            -POS_STEP_LIMIT - POS_STEP_LIMIT <= self.y <= POS_STEP_LIMIT + POS_STEP_LIMIT,
        ensures
            r == norm2(*self),
    {
        proof {
            let b: int = 2_000_000_000_000_000_000;
            assert((self.x as int) * (self.x as int) <= b * b && (self.y as int) * (self.y as int)
                <= b * b && 0 <= (self.x as int) * (self.x as int) && 0 <= (self.y as int) * (
            self.y as int)) by (nonlinear_arith)
                requires
                    -b <= self.x as int <= b,
                    -b <= self.y as int <= b,
            ;
        }
        let xx: i128 = (self.x as i128) * (self.x as i128);
        let yy: i128 = (self.y as i128) * (self.y as i128);
        xx + yy
    }
}

} // verus!
