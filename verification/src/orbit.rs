use crate::body::Body;
use crate::math::{abs_i64, abs_val, isqrt, lemma_div_le, lemma_sqrt_floor_bounds, sqrt_floor};
use crate::params::{GRAV_NUM_MILLI, MASS_LIMIT, MAX_SPEED_MILLI, POS_LIMIT, VEL_LIMIT};
use crate::vec2::{dist2, Vec2};
use vstd::arithmetic::div_mod::{
    lemma_div_pos_is_pos, lemma_fundamental_div_mod, lemma_mod_division_less_than_divisor,
};
use vstd::prelude::*;

verus! {

/// Circular-orbit speed in milli-units per tick around a combined mass
/// `total_mass` at distance `dist` milli-units:
/// `sqrt(G * total_mass / d)` in world units, clamped to
/// [`MAX_SPEED_MILLI`].
pub open spec fn orbit_speed(total_mass: int, dist: int) -> int
    recommends
        1 <= dist,
{
    let s = sqrt_floor(((GRAV_NUM_MILLI * total_mass) / dist) as nat) as int;
    if s > MAX_SPEED_MILLI {
        MAX_SPEED_MILLI as int
    } else {
        s
    }
}

/// The size of one tangential velocity component: `s * |delta| /
/// sqrt(d2)` rounded down, computed as the integer root of
/// `(s * |delta|)^2 / d2`.  Dividing by the exact squared distance under
/// the root (rather than by a rounded root of it) is what keeps the two
/// components' squared sum at or below `s^2`.
pub open spec fn tangent_mag(s: int, delta: int, d2: int) -> int
    recommends
        1 <= d2,
        0 <= s,
{
    let u = s * abs_val(delta);
    sqrt_floor(((u * u) / d2) as nat) as int
}

/// The x component of the tangential orbit velocity relative to the
/// center: the radius vector rotated a quarter turn (`(x, y)` to
/// `(-y, x)`), normalized, times the clamped orbit speed.
pub open spec fn tangent_x(sat_pos: Vec2, center_pos: Vec2, total_mass: int) -> int {
    let dy = sat_pos.y - center_pos.y;
    let d2 = dist2(center_pos, sat_pos);
    let s = orbit_speed(total_mass, sqrt_floor(d2 as nat) as int);
    if dy >= 0 {
        -tangent_mag(s, dy, d2)
    } else {
        tangent_mag(s, dy, d2)
    }
}

/// The y component; see [`tangent_x`].
pub open spec fn tangent_y(sat_pos: Vec2, center_pos: Vec2, total_mass: int) -> int {
    let dx = sat_pos.x - center_pos.x;
    let d2 = dist2(center_pos, sat_pos);
    let s = orbit_speed(total_mass, sqrt_floor(d2 as nat) as int);
    if dx >= 0 {
        tangent_mag(s, dx, d2)
    } else {
        -tangent_mag(s, dx, d2)
    }
}

/// The component size is the floor of `s * |delta| / sqrt(d2)`: scaled by
/// `d2`, its square reaches at most `(s * |delta|)^2`, and one more unit
/// overshoots it.
proof fn lemma_mag_floor(s: int, delta: int, d2: int)
    requires
        1 <= d2,
        0 <= s,
    ensures
        ({
            let m = tangent_mag(s, delta, d2);
            let u = s * abs_val(delta);
            &&& 0 <= m
            &&& d2 * (m * m) <= u * u
            &&& u * u < d2 * ((m + 1) * (m + 1))
        }),
{
    let u = s * abs_val(delta);
    assert(0 <= u && 0 <= u * u) by (nonlinear_arith)
        requires
            0 <= s,
            0 <= abs_val(delta),
            u == s * abs_val(delta),
    ;
    let q = (u * u) / d2;
    lemma_div_pos_is_pos(u * u, d2);
    lemma_fundamental_div_mod(u * u, d2);
    lemma_mod_division_less_than_divisor(u * u, d2);
    lemma_sqrt_floor_bounds(q as nat);
    let m = sqrt_floor(q as nat) as int;
    assert(m == tangent_mag(s, delta, d2));
    assert(d2 * (m * m) <= d2 * q) by (nonlinear_arith)
        requires
            m * m <= q,
            1 <= d2,
    ;
    assert(d2 * q == d2 * ((u * u) / d2)) by (nonlinear_arith)
        requires
            q == (u * u) / d2,
    ;
    assert(d2 * q <= u * u && u * u < d2 * q + d2);
    assert(u * u < d2 * (q + 1)) by (nonlinear_arith)
        requires
            u * u < d2 * q + d2,
    ;
    assert(q + 1 <= (m + 1) * (m + 1));
    assert(d2 * (q + 1) <= d2 * ((m + 1) * (m + 1))) by (nonlinear_arith)
        requires
            q + 1 <= (m + 1) * (m + 1),
            1 <= d2,
    ;
}

/// One tangential component's size, as executable code.
fn tangent_mag_exec(s: i64, delta: i64, d2: i64) -> (m: i64)
    requires
        0 <= s <= MAX_SPEED_MILLI,
        1 <= d2 <= 8_000_000_000_000_000_000,
        delta * delta <= d2,
    ensures
        m == tangent_mag(s as int, delta as int, d2 as int),
        0 <= m <= s,
{
    proof {
        assert(i64::MIN < delta && -3_000_000_000 <= delta <= 3_000_000_000) by (nonlinear_arith)
            requires
                delta * delta <= d2,
                d2 <= 8_000_000_000_000_000_000,
        ;
    }
    let da = abs_i64(delta);
    proof {
        assert(0 <= (s as int) * (da as int) && (s as int) * (da as int) <= 6_000_000_000_000)
            by (nonlinear_arith)
            requires
                0 <= s as int <= 2000,
                0 <= da as int <= 3_000_000_000,
        ;
    }
    let u: u128 = (s as u128) * (da as u128);
    proof {
        assert(abs_val(delta as int) * abs_val(delta as int) == delta * delta) by (nonlinear_arith);
        assert((u as int) * (u as int) == (s * (da as int)) * (s * (da as int)) && (u as int) * (
        u as int) <= (s * s) * d2 && 0 <= (s as int) * (s as int) <= 4_000_000 && (u as int) * (
        u as int) <= 36_000_000_000_000_000_000_000_000) by (nonlinear_arith)
            requires
                u == s * (da as int),
                0 <= u <= 6_000_000_000_000,
                da as int == abs_val(delta as int),
                abs_val(delta as int) * abs_val(delta as int) == delta * delta,
                delta * delta <= d2,
                0 <= s as int <= 2000,
                0 <= da as int,
                1 <= d2,
        ;
        lemma_div_le((u as int) * (u as int), d2 as int, (s as int) * (s as int));
    }
    let q: u128 = (u * u) / (d2 as u128);
    let m64: u64 = isqrt(q as u64);
    proof {
        lemma_sqrt_floor_bounds(q as nat);
        assert(m64 as int <= s) by (nonlinear_arith)
            requires
                (m64 as int) * (m64 as int) <= q as int,
                q as int <= (s as int) * (s as int),
                0 <= m64 as int,
                0 <= s as int,
        ;
        assert(u as int == (s as int) * abs_val(delta as int));
    }
    m64 as i64
}

/// Computes the velocity that puts `sat` on a circular orbit around
/// `center`: speed `sqrt(G * (center.mass + sat.mass) / d)` clamped to
/// [`MAX_SPEED_MILLI`], directed along the radius vector rotated a
/// quarter turn, plus the center's own velocity.  The positions must
/// differ; the remaining bounds are machine limits.
pub fn orbit_velocity(sat: &Body, center: &Body) -> (v: Vec2)
    requires
        sat.pos != center.pos,
        -POS_LIMIT <= sat.pos.x <= POS_LIMIT,
        -POS_LIMIT <= sat.pos.y <= POS_LIMIT,
        -POS_LIMIT <= center.pos.x <= POS_LIMIT,
        -POS_LIMIT <= center.pos.y <= POS_LIMIT,
        1 <= sat.mass <= MASS_LIMIT,
        1 <= center.mass <= MASS_LIMIT,
        -VEL_LIMIT <= center.velocity.x <= VEL_LIMIT,
        -VEL_LIMIT <= center.velocity.y <= VEL_LIMIT,
    ensures
        v.x == center.velocity.x + tangent_x(sat.pos, center.pos, sat.mass + center.mass),
        v.y == center.velocity.y + tangent_y(sat.pos, center.pos, sat.mass + center.mass),
        abs_val(tangent_x(sat.pos, center.pos, sat.mass + center.mass)) <= MAX_SPEED_MILLI,
        abs_val(tangent_y(sat.pos, center.pos, sat.mass + center.mass)) <= MAX_SPEED_MILLI,
        ({
            let tx = tangent_x(sat.pos, center.pos, sat.mass + center.mass);
            let ty = tangent_y(sat.pos, center.pos, sat.mass + center.mass);
            tx * tx + ty * ty <= MAX_SPEED_MILLI * MAX_SPEED_MILLI
        }),
{
    let dx = sat.pos.x - center.pos.x;
    let dy = sat.pos.y - center.pos.y;
    proof {
        assert(dx * dx + dy * dy <= 8_000_000_000_000_000_000 && 0 <= dx * dx && 0 <= dy * dy && (
        dx != 0 || dy != 0 ==> 1 <= dx * dx + dy * dy)) by (nonlinear_arith)
            requires
                -2_000_000_000 <= dx <= 2_000_000_000,
                -2_000_000_000 <= dy <= 2_000_000_000,
        ;
    }
    let d2: i64 = dx * dx + dy * dy;
    let dist: u64 = isqrt(d2 as u64);
    proof {
        lemma_sqrt_floor_bounds(d2 as nat);
        assert(1 <= dist as int && dist as int <= 3_100_000_000 && dx * dx <= d2 && dy * dy <= d2)
            by (nonlinear_arith)
            requires
                1 <= d2 as int <= 9_223_372_036_854_775_807,
                0 <= dist as int,
                (dist as int) * (dist as int) <= d2 as int,
                (d2 as int) < ((dist as int) + 1) * ((dist as int) + 1),
                d2 == dx * dx + dy * dy,
        ;
    }
    let total_mass: i64 = sat.mass + center.mass;
    proof {
        assert(0 <= GRAV_NUM_MILLI * (total_mass as int) && GRAV_NUM_MILLI * (total_mass as int)
            <= 14_000_000_000_000) by (nonlinear_arith)
            requires
                GRAV_NUM_MILLI == 667_400,
                0 <= total_mass as int <= 20_000_000,
        ;
        lemma_div_le(GRAV_NUM_MILLI * (total_mass as int), dist as int, 14_000_000_000_000);
    }
    let s2: i64 = (GRAV_NUM_MILLI * total_mass) / (dist as i64);
    let sraw: u64 = isqrt(s2 as u64);
    proof {
        lemma_sqrt_floor_bounds(s2 as nat);
        assert(sraw as int <= 4_000_000) by (nonlinear_arith)
            requires
                0 <= sraw as int,
                (sraw as int) * (sraw as int) <= 14_000_000_000_000,
        ;
    }
    let sclamped: i64 = sraw as i64;
    let s: i64 = if sclamped > MAX_SPEED_MILLI {
        MAX_SPEED_MILLI
    } else {
        sclamped
    };
    let txm = tangent_mag_exec(s, dy, d2);
    let tym = tangent_mag_exec(s, dx, d2);
    let tx: i64 = if dy >= 0 {
        -txm
    } else {
        txm
    };
    let ty: i64 = if dx >= 0 {
        tym
    } else {
        -tym
    };
    proof {
        lemma_orbit_velocity_correct(sat.pos, center.pos, sat.mass as int + center.mass as int);
    }
    Vec2 { x: center.velocity.x + tx, y: center.velocity.y + ty }
}

/// Orbit correctness: relative to the center, the tangential velocity
/// `(tx, ty)` the solver yields is perpendicular to the radius vector
/// `(dx, dy)` up to one milli-unit of rounding per axis, each component
/// is the clamped circular-orbit speed [`orbit_speed`] resolved along the
/// quarter-turned radius direction and rounded down, the squared speed
/// never exceeds the clamped orbit speed's square (and so never the
/// clamp's), it falls short of it by less than one milli-unit per axis,
/// and the orbit runs counter-clockwise.
#[verifier::rlimit(100)]
pub proof fn lemma_orbit_velocity_correct(sat_pos: Vec2, center_pos: Vec2, total_mass: int)
    requires
        sat_pos != center_pos,
    ensures
        ({
            let dx = sat_pos.x - center_pos.x;
            let dy = sat_pos.y - center_pos.y;
            let d2 = dist2(center_pos, sat_pos);
            let s = orbit_speed(total_mass, sqrt_floor(d2 as nat) as int);
            let tx = tangent_x(sat_pos, center_pos, total_mass);
            let ty = tangent_y(sat_pos, center_pos, total_mass);
            &&& abs_val(tx * dx + ty * dy) <= abs_val(dx) + abs_val(dy)
            &&& d2 * (tx * tx) <= (s * abs_val(dy)) * (s * abs_val(dy))
            &&& (s * abs_val(dy)) * (s * abs_val(dy)) < d2 * ((abs_val(tx) + 1) * (abs_val(tx)
                + 1))
            &&& d2 * (ty * ty) <= (s * abs_val(dx)) * (s * abs_val(dx))
            &&& (s * abs_val(dx)) * (s * abs_val(dx)) < d2 * ((abs_val(ty) + 1) * (abs_val(ty)
                + 1))
            &&& tx * tx + ty * ty <= s * s
            &&& s * s < (abs_val(tx) + 1) * (abs_val(tx) + 1) + (abs_val(ty) + 1) * (abs_val(ty)
                + 1)
            &&& tx * tx + ty * ty <= MAX_SPEED_MILLI * MAX_SPEED_MILLI
            &&& (dy >= 0 ==> tx <= 0) && (dy < 0 ==> tx >= 0)
            &&& (dx >= 0 ==> ty >= 0) && (dx < 0 ==> ty <= 0)
            &&& 0 <= s <= MAX_SPEED_MILLI
        }),
{
    let dx = sat_pos.x - center_pos.x;
    let dy = sat_pos.y - center_pos.y;
    let d2 = dist2(center_pos, sat_pos);
    assert(dx != 0 || dy != 0);
    assert(1 <= d2 && dx * dx <= d2 && dy * dy <= d2) by (nonlinear_arith)
        requires
            d2 == dx * dx + dy * dy,
            dx != 0 || dy != 0,
    ;
    let ax = abs_val(dx);
    let ay = abs_val(dy);
    let s = orbit_speed(total_mass, sqrt_floor(d2 as nat) as int);
    assert(0 <= s <= MAX_SPEED_MILLI);
    let u = s * abs_val(dy);
    let v = s * abs_val(dx);
    lemma_mag_floor(s, dy, d2);
    lemma_mag_floor(s, dx, d2);
    let m1 = tangent_mag(s, dy, d2);
    let m2 = tangent_mag(s, dx, d2);
    let tx = tangent_x(sat_pos, center_pos, total_mass);
    let ty = tangent_y(sat_pos, center_pos, total_mass);
    assert(tx == (if dy >= 0 {
        -m1
    } else {
        m1
    }));
    assert(ty == (if dx >= 0 {
        m2
    } else {
        -m2
    }));
    assert(abs_val(tx) == m1 && abs_val(ty) == m2);
    assert(tx * tx == m1 * m1 && ty * ty == m2 * m2) by (nonlinear_arith)
        requires
            tx == m1 || tx == -m1,
            ty == m2 || ty == -m2,
    ;
    // the squared speed: the two scaled squares sum to exactly s^2 * d2
    assert(u * u + v * v == (s * s) * d2) by (nonlinear_arith)
        requires
            u == s * ay,
            v == s * ax,
            ax == (if dx < 0 {
                -dx
            } else {
                dx
            }),
            ay == (if dy < 0 {
                -dy
            } else {
                dy
            }),
            d2 == dx * dx + dy * dy,
    ;
    assert(d2 * (m1 * m1 + m2 * m2) <= (s * s) * d2 && (s * s) * d2 < d2 * ((m1 + 1) * (m1 + 1) + (
    m2 + 1) * (m2 + 1))) by (nonlinear_arith)
        requires
            d2 * (m1 * m1) <= u * u,
            d2 * (m2 * m2) <= v * v,
            u * u < d2 * ((m1 + 1) * (m1 + 1)),
            v * v < d2 * ((m2 + 1) * (m2 + 1)),
            u * u + v * v == (s * s) * d2,
    ;
    assert(m1 * m1 + m2 * m2 <= s * s && s * s < (m1 + 1) * (m1 + 1) + (m2 + 1) * (m2 + 1))
        by (nonlinear_arith)
        requires
            d2 * (m1 * m1 + m2 * m2) <= (s * s) * d2,
            (s * s) * d2 < d2 * ((m1 + 1) * (m1 + 1) + (m2 + 1) * (m2 + 1)),
            1 <= d2,
    ;
    assert(s * s <= MAX_SPEED_MILLI * MAX_SPEED_MILLI) by (nonlinear_arith)
        requires
            0 <= s <= MAX_SPEED_MILLI,
    ;
    // perpendicularity: m1 * |dx| and m2 * |dy| approximate the same
    // quantity s * |dx| * |dy| / sqrt(d2) from below, so they differ by
    // less than one rounding step of either axis
    if ax == 0 || ay == 0 {
        assert((ax == 0 ==> v == 0) && (ay == 0 ==> u == 0)) by (nonlinear_arith)
            requires
                u == s * ay,
                v == s * ax,
        ;
        assert(ax == 0 ==> m2 == 0) by (nonlinear_arith)
            requires
                ax == 0 ==> v == 0,
                d2 * (m2 * m2) <= v * v,
                0 <= m2,
                1 <= d2,
        ;
        assert(ay == 0 ==> m1 == 0) by (nonlinear_arith)
            requires
                ay == 0 ==> u == 0,
                d2 * (m1 * m1) <= u * u,
                0 <= m1,
                1 <= d2,
        ;
        assert(abs_val(tx * dx + ty * dy) <= ax + ay) by (nonlinear_arith)
            requires
                ax == 0 || ay == 0,
                ax == 0 ==> m2 == 0,
                ay == 0 ==> m1 == 0,
                ax == (if dx < 0 {
                    -dx
                } else {
                    dx
                }),
                ay == (if dy < 0 {
                    -dy
                } else {
                    dy
                }),
                tx == (if dy >= 0 {
                    -m1
                } else {
                    m1
                }),
                ty == (if dx >= 0 {
                    m2
                } else {
                    -m2
                }),
                abs_val(tx * dx + ty * dy) == (if tx * dx + ty * dy < 0 {
                    -(tx * dx + ty * dy)
                } else {
                    tx * dx + ty * dy
                }),
        ;
    } else {
        assert(u * ax == v * ay && (u * ax) * (u * ax) == (v * ay) * (v * ay)) by (nonlinear_arith)
            requires
                u == s * ay,
                v == s * ax,
        ;
        assert(d2 * ((m1 * ax) * (m1 * ax)) <= (u * ax) * (u * ax)) by (nonlinear_arith)
            requires
                d2 * (m1 * m1) <= u * u,
                0 <= ax,
        ;
        assert((v * ay) * (v * ay) < d2 * (((m2 + 1) * ay) * ((m2 + 1) * ay))) by (nonlinear_arith)
            requires
                v * v < d2 * ((m2 + 1) * (m2 + 1)),
                1 <= ay,
        ;
        assert(m1 * ax <= m2 * ay + ay) by (nonlinear_arith)
            requires
                d2 * ((m1 * ax) * (m1 * ax)) <= (u * ax) * (u * ax),
                (u * ax) * (u * ax) == (v * ay) * (v * ay),
                (v * ay) * (v * ay) < d2 * (((m2 + 1) * ay) * ((m2 + 1) * ay)),
                1 <= d2,
                0 <= m1 * ax,
                0 <= (m2 + 1) * ay,
        ;
        assert(d2 * ((m2 * ay) * (m2 * ay)) <= (v * ay) * (v * ay)) by (nonlinear_arith)
            requires
                d2 * (m2 * m2) <= v * v,
                0 <= ay,
        ;
        assert((u * ax) * (u * ax) < d2 * (((m1 + 1) * ax) * ((m1 + 1) * ax))) by (nonlinear_arith)
            requires
                u * u < d2 * ((m1 + 1) * (m1 + 1)),
                1 <= ax,
        ;
        assert(m2 * ay <= m1 * ax + ax) by (nonlinear_arith)
            requires
                d2 * ((m2 * ay) * (m2 * ay)) <= (v * ay) * (v * ay),
                (v * ay) * (v * ay) == (u * ax) * (u * ax),
                (u * ax) * (u * ax) < d2 * (((m1 + 1) * ax) * ((m1 + 1) * ax)),
                1 <= d2,
                0 <= m2 * ay,
                0 <= (m1 + 1) * ax,
        ;
        assert(0 <= m1 * ax && 0 <= (m2 + 1) * ay && 0 <= m2 * ay && 0 <= (m1 + 1) * ax)
            by (nonlinear_arith)
            requires
                0 <= m1,
                0 <= m2,
                0 <= ax,
                0 <= ay,
        ;
        assert(abs_val(tx * dx + ty * dy) <= ax + ay) by (nonlinear_arith)
            requires
                m1 * ax <= m2 * ay + ay,
                m2 * ay <= m1 * ax + ax,
                0 <= m1,
                0 <= m2,
                1 <= ax,
                1 <= ay,
                ax == (if dx < 0 {
                    -dx
                } else {
                    dx
                }),
                ay == (if dy < 0 {
                    -dy
                } else {
                    dy
                }),
                tx == (if dy >= 0 {
                    -m1
                } else {
                    m1
                }),
                ty == (if dx >= 0 {
                    m2
                } else {
                    -m2
                }),
                abs_val(tx * dx + ty * dy) == (if tx * dx + ty * dy < 0 {
                    -(tx * dx + ty * dy)
                } else {
                    tx * dx + ty * dy
                }),
        ;
    }
    // bridge the let-bound names to the terms the postcondition uses
    assert(d2 * (tx * tx) <= u * u && u * u < d2 * ((abs_val(tx) + 1) * (abs_val(tx) + 1)) && d2 * (
    ty * ty) <= v * v && v * v < d2 * ((abs_val(ty) + 1) * (abs_val(ty) + 1)) && tx * tx + ty * ty
        <= s * s && s * s < (abs_val(tx) + 1) * (abs_val(tx) + 1) + (abs_val(ty) + 1) * (abs_val(ty)
        + 1) && tx * tx + ty * ty <= MAX_SPEED_MILLI * MAX_SPEED_MILLI) by (nonlinear_arith)
        requires
            abs_val(tx) == m1,
            abs_val(ty) == m2,
            tx * tx == m1 * m1,
            ty * ty == m2 * m2,
            d2 * (m1 * m1) <= u * u,
            u * u < d2 * ((m1 + 1) * (m1 + 1)),
            d2 * (m2 * m2) <= v * v,
            v * v < d2 * ((m2 + 1) * (m2 + 1)),
            m1 * m1 + m2 * m2 <= s * s,
            s * s < (m1 + 1) * (m1 + 1) + (m2 + 1) * (m2 + 1),
            s * s <= MAX_SPEED_MILLI * MAX_SPEED_MILLI,
    ;
}

} // verus!
