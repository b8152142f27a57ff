use crate::body::{Body, Rgba};
use crate::math::abs_val;
use crate::orbit::{orbit_velocity, tangent_x, tangent_y};
use crate::params::{
    MAX_ORBIT_RADIUS_MILLI, MAX_SPEED_MILLI, ORBIT_ELLIPTICITY_MILLI, SAT_COLOR_MIN, SAT_COUNT_MAX,
    SAT_COUNT_MIN, SAT_MASS_MAX, SAT_MASS_MIN, SCALE, SUN_MASS, VEL_LIMIT,
};
use crate::physics::tick_ready;
use crate::rng::rand_in_range;
use crate::vec2::{norm2, Vec2};
use vstd::prelude::*;

verus! {

/// The central body: at the origin, at rest, with the fixed sun mass and
/// colour, and no history.
pub fn sun() -> (b: Body)
    ensures
        b.pos == (Vec2 { x: 0, y: 0 }),
        b.velocity == (Vec2 { x: 0, y: 0 }),
        b.mass == SUN_MASS,
        b.color == (Rgba { r: 249, g: 182, b: 17, a: 255 }),
        b.trail@ == Seq::<Vec2>::empty(),
        b.wf(),
{
    Body::new(
        Vec2 { x: 0, y: 0 },
        SUN_MASS,
        Vec2 { x: 0, y: 0 },
        Rgba { r: 249, g: 182, b: 17, a: 255 },
    )
}

/// The position a satellite sampled at `(x, y)` takes: a sample landing
/// exactly on the center is nudged one world unit along x, so that no two
/// bodies coincide at birth (the degenerate-distance policy).
pub open spec fn sat_pos(x: i64, y: i64, center: Vec2) -> Vec2 {
    if x == center.x && y == center.y {
        Vec2 { x: (x + SCALE) as i64, y }
    } else {
        Vec2 { x, y }
    }
}

/// Builds one satellite from the sampled values: position `(x, y)`
/// (nudged off the center if need be), the given mass and colour, the
/// circular-orbit velocity around `center`, and the sampled ellipticity
/// perturbation added to the velocity's x axis.
pub fn make_satellite(x: i64, y: i64, mass: i64, color: Rgba, ecc: i64, center: &Body) -> (b: Body)
    requires
        -MAX_ORBIT_RADIUS_MILLI <= x <= MAX_ORBIT_RADIUS_MILLI,
        -MAX_ORBIT_RADIUS_MILLI <= y <= MAX_ORBIT_RADIUS_MILLI,
        SAT_MASS_MIN <= mass <= SAT_MASS_MAX,
        -ORBIT_ELLIPTICITY_MILLI <= ecc <= ORBIT_ELLIPTICITY_MILLI,
        center.wf(),
        -MAX_ORBIT_RADIUS_MILLI - SCALE <= center.pos.x <= MAX_ORBIT_RADIUS_MILLI + SCALE,
        -MAX_ORBIT_RADIUS_MILLI - SCALE <= center.pos.y <= MAX_ORBIT_RADIUS_MILLI + SCALE,
        -VEL_LIMIT + MAX_SPEED_MILLI + ORBIT_ELLIPTICITY_MILLI <= center.velocity.x <= VEL_LIMIT
            - MAX_SPEED_MILLI - ORBIT_ELLIPTICITY_MILLI,
        -VEL_LIMIT + MAX_SPEED_MILLI + ORBIT_ELLIPTICITY_MILLI <= center.velocity.y <= VEL_LIMIT
            - MAX_SPEED_MILLI - ORBIT_ELLIPTICITY_MILLI,
    ensures
        b.pos == sat_pos(x, y, center.pos),
        b.pos != center.pos,
        b.mass == mass,
        b.color == color,
        b.trail@ == Seq::<Vec2>::empty(),
        b.velocity.x == center.velocity.x + tangent_x(
            sat_pos(x, y, center.pos),
            center.pos,
            mass + center.mass,
        ) + ecc,
        b.velocity.y == center.velocity.y + tangent_y(
            sat_pos(x, y, center.pos),
            center.pos,
            mass + center.mass,
        ),
        abs_val(b.velocity.x - center.velocity.x) <= MAX_SPEED_MILLI + ORBIT_ELLIPTICITY_MILLI,
        abs_val(b.velocity.y - center.velocity.y) <= MAX_SPEED_MILLI,
        b.wf(),
{
    let px: i64 = if x == center.pos.x && y == center.pos.y {
        x + SCALE
    } else {
        x
    };
    let pos = Vec2 { x: px, y };
    let mut b = Body::new(pos, mass, Vec2 { x: 0, y: 0 }, color);
    let v = orbit_velocity(&b, center);
    b.velocity = Vec2 { x: v.x + ecc, y: v.y };
    b
}

/// Produces a randomized initial configuration, as the simulation does at
/// startup and on reset: between [`SAT_COUNT_MIN`] and [`SAT_COUNT_MAX`]
/// satellites, each at a uniform position inside the orbit-radius box
/// around the sun (each coordinate samples `[-R, R)`, the upper edge
/// excluded), with a uniform mass, a colour bright enough to see,
/// and a near-circular orbit velocity; the sun is appended last.
pub fn generate() -> (bodies: Vec<Body>)
    ensures
        SAT_COUNT_MIN + 1 <= bodies@.len() <= SAT_COUNT_MAX + 1,
        tick_ready(bodies@),
        ({
            let sun = bodies@.last();
            &&& sun.pos == (Vec2 { x: 0, y: 0 })
            &&& sun.velocity == (Vec2 { x: 0, y: 0 })
            &&& sun.mass == SUN_MASS
            &&& sun.color == (Rgba { r: 249, g: 182, b: 17, a: 255 })
            &&& sun.trail@.len() == 0
        }),
        forall|i: int|
            0 <= i < bodies@.len() - 1 ==> {
                let b = #[trigger] bodies@[i];
                &&& SAT_MASS_MIN <= b.mass <= SAT_MASS_MAX
                &&& -MAX_ORBIT_RADIUS_MILLI <= b.pos.x < MAX_ORBIT_RADIUS_MILLI
                &&& -MAX_ORBIT_RADIUS_MILLI <= b.pos.y < MAX_ORBIT_RADIUS_MILLI
                &&& b.pos != (Vec2 { x: 0, y: 0 })
                &&& norm2(b.pos) <= 2 * MAX_ORBIT_RADIUS_MILLI * MAX_ORBIT_RADIUS_MILLI
                &&& b.trail@.len() == 0
                &&& SAT_COLOR_MIN <= b.color.r
                &&& SAT_COLOR_MIN <= b.color.g
                &&& SAT_COLOR_MIN <= b.color.b
                &&& b.color.a == 255
                &&& abs_val(b.velocity.x as int) <= MAX_SPEED_MILLI + ORBIT_ELLIPTICITY_MILLI
                &&& abs_val(b.velocity.y as int) <= MAX_SPEED_MILLI
                &&& b.velocity.y == tangent_y(b.pos, Vec2 { x: 0, y: 0 }, b.mass + SUN_MASS)
                &&& abs_val(b.velocity.x - tangent_x(b.pos, Vec2 { x: 0, y: 0 }, b.mass + SUN_MASS))
                    <= ORBIT_ELLIPTICITY_MILLI
            },
{
    let count = rand_in_range(SAT_COUNT_MIN, SAT_COUNT_MAX);
    let center = sun();
    let mut bodies: Vec<Body> = Vec::new();
    let mut i: i64 = 0;
    while i < count
        invariant
            0 <= i <= count,
            SAT_COUNT_MIN <= count <= SAT_COUNT_MAX,
            bodies@.len() == i,
            center.pos == (Vec2 { x: 0, y: 0 }),
            center.velocity == (Vec2 { x: 0, y: 0 }),
            center.mass == SUN_MASS,
            center.wf(),
            forall|k: int|
                0 <= k < bodies@.len() ==> {
                    let b = #[trigger] bodies@[k];
                    &&& SAT_MASS_MIN <= b.mass <= SAT_MASS_MAX
                    &&& -MAX_ORBIT_RADIUS_MILLI <= b.pos.x < MAX_ORBIT_RADIUS_MILLI
                    &&& -MAX_ORBIT_RADIUS_MILLI <= b.pos.y < MAX_ORBIT_RADIUS_MILLI
                    &&& b.pos != (Vec2 { x: 0, y: 0 })
                    &&& norm2(b.pos) <= 2 * MAX_ORBIT_RADIUS_MILLI * MAX_ORBIT_RADIUS_MILLI
                    &&& b.trail@.len() == 0
                    &&& SAT_COLOR_MIN <= b.color.r
                    &&& SAT_COLOR_MIN <= b.color.g
                    &&& SAT_COLOR_MIN <= b.color.b
                    &&& b.color.a == 255
                    &&& abs_val(b.velocity.x as int) <= MAX_SPEED_MILLI + ORBIT_ELLIPTICITY_MILLI
                    &&& abs_val(b.velocity.y as int) <= MAX_SPEED_MILLI
                    &&& b.velocity.y == tangent_y(b.pos, Vec2 { x: 0, y: 0 }, b.mass + SUN_MASS)
                    &&& abs_val(b.velocity.x - tangent_x(b.pos, Vec2 { x: 0, y: 0 }, b.mass + SUN_MASS))
                        <= ORBIT_ELLIPTICITY_MILLI
                    &&& b.wf()
                },
        decreases count - i,
    {
        let x = rand_in_range(-MAX_ORBIT_RADIUS_MILLI, MAX_ORBIT_RADIUS_MILLI - 1);
        let y = rand_in_range(-MAX_ORBIT_RADIUS_MILLI, MAX_ORBIT_RADIUS_MILLI - 1);
        let mass = rand_in_range(SAT_MASS_MIN, SAT_MASS_MAX);
        let cr = rand_in_range(SAT_COLOR_MIN, 255);
        let cg = rand_in_range(SAT_COLOR_MIN, 255);
        let cb = rand_in_range(SAT_COLOR_MIN, 255);
        let color = Rgba { r: cr as u8, g: cg as u8, b: cb as u8, a: 255 };
        let ecc = rand_in_range(-ORBIT_ELLIPTICITY_MILLI, ORBIT_ELLIPTICITY_MILLI);
        let sat = make_satellite(x, y, mass, color, ecc, &center);
        proof {
            assert(norm2(sat.pos) <= 2 * MAX_ORBIT_RADIUS_MILLI * MAX_ORBIT_RADIUS_MILLI)
                by (nonlinear_arith)
                requires
                    -MAX_ORBIT_RADIUS_MILLI <= sat.pos.x <= MAX_ORBIT_RADIUS_MILLI,
                    -MAX_ORBIT_RADIUS_MILLI <= sat.pos.y <= MAX_ORBIT_RADIUS_MILLI,
                    norm2(sat.pos) == sat.pos.x * sat.pos.x + sat.pos.y * sat.pos.y,
            ;
        }
        bodies.push(sat);
        i = i + 1;
    }
    bodies.push(center);
    bodies
}

} // verus!
