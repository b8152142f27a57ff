use crate::params::{SCALE, STAR_COUNT};
use crate::rng::rand_in_range;
use crate::vec2::Vec2;
use vstd::prelude::*;

verus! {

/// One star of the decorative background: a position normalized to
/// half-screen milli-units and a brightness in milli.  Stars are
/// generated once, never move, and take no part in the physics.
#[derive(Clone, Copy, Debug, PartialEq, Eq, Structural)]
pub struct Star {
    pub pos: Vec2,
    pub magnitude: i64,
}

impl Star {
    /// Bounds every generated star satisfies: each position coordinate
    /// spans one screen half (`[-1, 1)` in milli, the upper bound
    /// excluded), the brightness lies in `[0.1, 1.1]` in milli.
    pub open spec fn wf(self) -> bool {
        &&& -SCALE <= self.pos.x < SCALE
        &&& -SCALE <= self.pos.y < SCALE
        &&& 100 <= self.magnitude <= 1100
    }

    /// A star at a random normalized position with a random brightness.
    pub fn new() -> (s: Star)
        ensures
            s.wf(),
    {
        Star {
            pos: Vec2 { x: rand_in_range(-SCALE, SCALE - 1), y: rand_in_range(-SCALE, SCALE - 1) },
            magnitude: rand_in_range(100, 1100),
        }
    }
}

/// The star field: `count` random stars, defaulting to [`STAR_COUNT`] in
/// the simulation.
pub fn star_field(count: usize) -> (stars: Vec<Star>)
    ensures
        stars@.len() == count,
        forall|i: int| 0 <= i < stars@.len() ==> (#[trigger] stars@[i]).wf(),
{
    let mut stars: Vec<Star> = Vec::new();
    let mut i: usize = 0;
    while i < count
        invariant
            i <= count,
            stars@.len() == i,
            forall|k: int| 0 <= k < stars@.len() ==> (#[trigger] stars@[k]).wf(),
        decreases count - i,
    {
        stars.push(Star::new());
        i = i + 1;
    }
    stars
}

} // verus!
