use crate::math::{
    abs_i64, abs_val, isqrt, lemma_div_le, lemma_root_le_sqrt_floor, lemma_sqrt_floor_bounds,
    sqrt_floor,
};
use crate::params::{
    DV_MAX, GRAV_NUM_MILLI, MASS_LIMIT, MAX_DISPLACEMENT_SCALE, POS_LIMIT, POS_STEP_LIMIT, SCALE,
    TRAIL_LENGTH, VEL_ACCUM_LIMIT, VEL_LIMIT, VEL_STEP_LIMIT,
};
use crate::vec2::{dist2, Vec2};
use std::collections::VecDeque;
use vstd::prelude::*;

verus! {

/// An RGBA colour.  Display-only: physics never reads it.
#[derive(Clone, Copy, Debug, PartialEq, Eq, Structural)]
pub struct Rgba {
    pub r: u8,
    pub g: u8,
    pub b: u8,
    pub a: u8,
}

/// One point mass of the simulation: a sun or a satellite.
///
/// `trail` holds past positions, most recent first, never more than
/// [`TRAIL_LENGTH`] of them.
#[derive(Clone, Debug)]
pub struct Body {
    pub pos: Vec2,
    pub mass: i64,
    pub velocity: Vec2,
    pub color: Rgba,
    pub trail: VecDeque<Vec2>,
}

/// The mathematical image of a [`Body`], with the trail as a sequence.
#[verifier::ext_equal]
pub ghost struct BodyView {
    pub pos: Vec2,
    pub mass: i64,
    pub velocity: Vec2,
    pub color: Rgba,
    pub trail: Seq<Vec2>,
}

impl View for Body {
    type V = BodyView;

    open spec fn view(&self) -> BodyView {
        BodyView {
            pos: self.pos,
            mass: self.mass,
            velocity: self.velocity,
            color: self.color,
            trail: self.trail@,
        }
    }
}

/// One component of the velocity change that gravity applies: the
/// magnitude `GRAV_NUM_MILLI * m * |delta| / (d2 * sqrt_floor(d2))`,
/// signed like `delta`, where `delta` is that component of the offset
/// toward the attracting body and `d2` the squared distance.  Coincident
/// bodies (`d2 == 0`) exert no pull: the degenerate-distance policy.
pub open spec fn grav_component(delta: int, d2: int, m: int) -> int {
    if d2 == 0 {
        0
    } else {
        let dist = sqrt_floor(d2 as nat) as int;
        let q = (GRAV_NUM_MILLI * m * abs_val(delta)) / (d2 * dist);
        if delta < 0 {
            -q
        } else {
            q
        }
    }
}

/// Velocity change along x that a body at `op` with mass `m` applies to a
/// body at `sp` in one accumulation.
pub open spec fn grav_dv_x(sp: Vec2, op: Vec2, m: int) -> int {
    grav_component(op.x - sp.x, dist2(sp, op), m)
}

/// Velocity change along y; see [`grav_dv_x`].
pub open spec fn grav_dv_y(sp: Vec2, op: Vec2, m: int) -> int {
    grav_component(op.y - sp.y, dist2(sp, op), m)
}

/// The trail after a position is recorded: the position is pushed to the
/// front and the oldest entries beyond [`TRAIL_LENGTH`] are evicted.
pub open spec fn trail_after_record(t: Seq<Vec2>, p: Vec2) -> Seq<Vec2> {
    let pushed = seq![p] + t;
    if pushed.len() > TRAIL_LENGTH {
        pushed.subrange(0, TRAIL_LENGTH as int)
    } else {
        pushed
    }
}

/// One displacement component of a move: `v * scale / SCALE`, truncated
/// toward zero (`scale` is a displacement scale in milli, so
/// `scale == SCALE` displaces by exactly the velocity).
pub open spec fn step_milli(v: int, scale: int) -> int {
    if v < 0 {
        -((-v) * scale / (SCALE as int))
    } else {
        v * scale / (SCALE as int)
    }
}

/// With the neutral displacement scale the move displaces by exactly the
/// velocity.
pub proof fn lemma_step_identity(v: int)
    ensures
        step_milli(v, SCALE as int) == v,
{
    if v < 0 {
        assert((-v) * (SCALE as int) == (SCALE as int) * (-v)) by (nonlinear_arith);
        vstd::arithmetic::div_mod::lemma_div_multiples_vanish(-v, SCALE as int);
    } else {
        assert(v * (SCALE as int) == (SCALE as int) * v) by (nonlinear_arith);
        vstd::arithmetic::div_mod::lemma_div_multiples_vanish(v, SCALE as int);
    }
}

/// A gravity component never exceeds [`DV_MAX`] in magnitude.
pub proof fn lemma_grav_component_bound(delta: int, d2: int, m: int)
    requires
        0 <= d2,
        delta * delta <= d2,
        1 <= m <= MASS_LIMIT,
    ensures
        abs_val(grav_component(delta, d2, m)) <= DV_MAX,
{
    if d2 == 0 {
    } else {
        let dist = sqrt_floor(d2 as nat) as int;
        lemma_sqrt_floor_bounds(d2 as nat);
        assert(dist >= 1) by (nonlinear_arith)
            requires
                dist >= 0,
                d2 >= 1,
                d2 < (dist + 1) * (dist + 1),
        ;
        let da = abs_val(delta);
        assert(da * da <= d2) by (nonlinear_arith)
            requires
                delta * delta <= d2,
                da == abs_val(delta),
        ;
        lemma_root_le_sqrt_floor(d2 as nat, da as nat);
        let num = GRAV_NUM_MILLI * m * da;
        let den = d2 * dist;
        assert(num <= DV_MAX * den && den >= 1 && num >= 0) by (nonlinear_arith)
            requires
                1 <= m <= MASS_LIMIT,
                0 <= da <= dist,
                1 <= dist,
                1 <= d2,
                num == GRAV_NUM_MILLI * m * da,
                den == d2 * dist,
                DV_MAX == GRAV_NUM_MILLI * MASS_LIMIT,
        ;
        lemma_div_le(num, den, DV_MAX as int);
    }
}

/// Both components of one gravity accumulation are bounded by [`DV_MAX`].
pub proof fn lemma_grav_dv_bounds(sp: Vec2, op: Vec2, m: int)
    requires
        1 <= m <= MASS_LIMIT,
    ensures
        abs_val(grav_dv_x(sp, op, m)) <= DV_MAX,
        abs_val(grav_dv_y(sp, op, m)) <= DV_MAX,
{
    let dx = op.x - sp.x;
    let dy = op.y - sp.y;
    let d2 = dist2(sp, op);
    assert(dx * dx <= d2 && dy * dy <= d2 && 0 <= d2) by (nonlinear_arith)
        requires
            d2 == dx * dx + dy * dy,
    ;
    lemma_grav_component_bound(dx, d2, m);
    lemma_grav_component_bound(dy, d2, m);
}

/// One signed gravity component, as executable code.
fn grav_component_exec(delta: i64, d2: i64, dist: u64, m: i64) -> (r: i64)
    requires
        1 <= d2,
        delta * delta <= d2,
        dist == sqrt_floor(d2 as nat),
        1 <= m <= MASS_LIMIT,
    ensures
        r == grav_component(delta as int, d2 as int, m as int),
        abs_val(r as int) <= DV_MAX,
{
    proof {
        lemma_grav_component_bound(delta as int, d2 as int, m as int);
        lemma_sqrt_floor_bounds(d2 as nat);
        assert(1 <= dist as int && dist as int <= 3_100_000_000 && -3_100_000_000 <= delta as int
            <= 3_100_000_000) by (nonlinear_arith)
            requires
                0 <= dist as int,
                (dist as int) * (dist as int) <= d2 as int,
                (d2 as int) < ((dist as int) + 1) * ((dist as int) + 1),
                (delta as int) * (delta as int) <= d2 as int,
                1 <= d2 as int <= 9_223_372_036_854_775_807,
        ;
        assert(abs_val(delta as int) * abs_val(delta as int) <= d2) by (nonlinear_arith)
            requires
                delta * delta <= d2,
        ;
        lemma_root_le_sqrt_floor(d2 as nat, abs_val(delta as int) as nat);
    }
    let da = abs_i64(delta);
    proof {
        assert((GRAV_NUM_MILLI as int) * (m as int) <= 6_674_000_000_000 && 0 <= (
        GRAV_NUM_MILLI as int) * (m as int)) by (nonlinear_arith)
            requires
                1 <= m as int <= MASS_LIMIT,
                GRAV_NUM_MILLI == 667_400,
        ;
    }
    let gm: u128 = (GRAV_NUM_MILLI as u128) * (m as u128);
    proof {
        assert((gm as int) * (da as int) <= 6_674_000_000_000 * 3_100_000_000 && 0 <= (gm as int)
            * (da as int)) by (nonlinear_arith)
            requires
                0 <= gm as int <= 6_674_000_000_000,
                0 <= da as int <= 3_100_000_000,
        ;
    }
    let num: u128 = gm * (da as u128);
    proof {
        assert((d2 as int) * (dist as int) <= 9_223_372_036_854_775_807 * 3_100_000_000 && 1 <= (
        d2 as int) * (dist as int)) by (nonlinear_arith)
            requires
                1 <= d2 as int <= 9_223_372_036_854_775_807,
                1 <= dist as int <= 3_100_000_000,
        ;
    }
    let den: u128 = (d2 as u128) * (dist as u128);
    proof {
        assert(num == GRAV_NUM_MILLI * (m as int) * abs_val(delta as int) && num <= DV_MAX * den)
            by (nonlinear_arith)
            requires
                num == (GRAV_NUM_MILLI as int) * (m as int) * (da as int),
                den == (d2 as int) * (dist as int),
                da as int == abs_val(delta as int),
                1 <= m <= MASS_LIMIT,
                0 <= da as int <= dist as int,
                1 <= dist as int,
                1 <= d2 as int,
                DV_MAX == GRAV_NUM_MILLI * MASS_LIMIT,
        ;
        lemma_div_le(num as int, den as int, DV_MAX as int);
    }
    let q: u128 = num / den;
    let qi: i64 = q as i64;
    if delta < 0 {
        -qi
    } else {
        qi
    }
}

impl Body {
    /// Bounds under which a body may take part in a tick.  The mass
    /// bounds are the simulation's invariant (strictly positive mass);
    /// the coordinate bounds are machine limits.
    pub open spec fn wf(self) -> bool {
        &&& 1 <= self.mass <= MASS_LIMIT
        &&& -POS_LIMIT <= self.pos.x <= POS_LIMIT
        &&& -POS_LIMIT <= self.pos.y <= POS_LIMIT
        &&& -VEL_LIMIT <= self.velocity.x <= VEL_LIMIT
        &&& -VEL_LIMIT <= self.velocity.y <= VEL_LIMIT
        &&& self.trail@.len() <= TRAIL_LENGTH
    }

    /// A fresh body with an empty trail.
    pub fn new(pos: Vec2, mass: i64, velocity: Vec2, color: Rgba) -> (b: Body)
        ensures
            b.pos == pos,
            b.mass == mass,
            b.velocity == velocity,
            b.color == color,
            b.trail@ == Seq::<Vec2>::empty(),
    {
        Body { pos, mass, velocity, color, trail: VecDeque::new() }
    }

    /// Whether this body satisfies [`Body::wf`], decided at run time.
    pub fn is_wf(&self) -> (r: bool)
        ensures
            r == self.wf(),
    {
        1 <= self.mass && self.mass <= MASS_LIMIT && -POS_LIMIT <= self.pos.x && self.pos.x
            <= POS_LIMIT && -POS_LIMIT <= self.pos.y && self.pos.y <= POS_LIMIT && -VEL_LIMIT
            <= self.velocity.x && self.velocity.x <= VEL_LIMIT && -VEL_LIMIT <= self.velocity.y
            && self.velocity.y <= VEL_LIMIT && self.trail.len() <= TRAIL_LENGTH
    }

    /// Adds to this body's velocity the pull of a body at `other_pos`
    /// with mass `other_mass`: magnitude `G * m / d^2` (the simulation's
    /// deliberate simplification: the accelerated body's own mass plays
    /// no part), directed from here toward the other body.  Coincident
    /// bodies exert no pull.  Only the velocity changes.
    pub fn accumulate_gravity(&mut self, other_pos: Vec2, other_mass: i64)
        requires
            -POS_LIMIT <= old(self).pos.x <= POS_LIMIT,
            -POS_LIMIT <= old(self).pos.y <= POS_LIMIT,
            -POS_LIMIT <= other_pos.x <= POS_LIMIT,
            -POS_LIMIT <= other_pos.y <= POS_LIMIT,
            1 <= other_mass <= MASS_LIMIT,
            -VEL_ACCUM_LIMIT <= old(self).velocity.x <= VEL_ACCUM_LIMIT,
            -VEL_ACCUM_LIMIT <= old(self).velocity.y <= VEL_ACCUM_LIMIT,
        ensures
            final(self).velocity.x == old(self).velocity.x + grav_dv_x(
                old(self).pos,
                other_pos,
                other_mass as int,
            ),
            final(self).velocity.y == old(self).velocity.y + grav_dv_y(
                old(self).pos,
                other_pos,
                other_mass as int,
            ),
            final(self).pos == old(self).pos,
            final(self).mass == old(self).mass,
            final(self).color == old(self).color,
            final(self).trail == old(self).trail,
    {
        let dx = other_pos.x - self.pos.x;
        let dy = other_pos.y - self.pos.y;
        proof {
            assert(dx * dx + dy * dy <= 8_000_000_000_000_000_000 && 0 <= dx * dx && 0 <= dy * dy)
                by (nonlinear_arith)
                requires
                    -2_000_000_000 <= dx <= 2_000_000_000,
                    -2_000_000_000 <= dy <= 2_000_000_000,
            ;
        }
        let d2: i64 = dx * dx + dy * dy;
        if d2 == 0 {
            proof {
                lemma_grav_dv_bounds(self.pos, other_pos, other_mass as int);
            }
            return ;
        }
        let dist: u64 = isqrt(d2 as u64);
        let dvx = grav_component_exec(dx, d2, dist, other_mass);
        let dvy = grav_component_exec(dy, d2, dist, other_mass);
        self.velocity.x = self.velocity.x + dvx;
        self.velocity.y = self.velocity.y + dvy;
    }

    /// Pushes the current position to the front of the trail, evicts
    /// entries beyond [`TRAIL_LENGTH`], then displaces the position by
    /// the velocity scaled by `displacement_scale / SCALE`.
    pub fn record_and_move(&mut self, displacement_scale: i64)
        requires
            0 <= displacement_scale <= MAX_DISPLACEMENT_SCALE,
            -POS_STEP_LIMIT <= old(self).pos.x <= POS_STEP_LIMIT,
            -POS_STEP_LIMIT <= old(self).pos.y <= POS_STEP_LIMIT,
            -VEL_STEP_LIMIT <= old(self).velocity.x <= VEL_STEP_LIMIT,
            -VEL_STEP_LIMIT <= old(self).velocity.y <= VEL_STEP_LIMIT,
        ensures
            final(self).pos.x == old(self).pos.x + step_milli(
                old(self).velocity.x as int,
                displacement_scale as int,
            ),
            final(self).pos.y == old(self).pos.y + step_milli(
                old(self).velocity.y as int,
                displacement_scale as int,
            ),
            final(self).trail@ == trail_after_record(old(self).trail@, old(self).pos),
            final(self).trail@.len() <= TRAIL_LENGTH || final(self).trail@.len() == old(
                self,
            ).trail@.len() + 1,
            final(self).velocity == old(self).velocity,
            final(self).mass == old(self).mass,
            final(self).color == old(self).color,
    {
        self.trail.push_front(self.pos);
        self.trail.truncate(TRAIL_LENGTH);
        let sx = scaled_step(self.velocity.x, displacement_scale);
        let sy = scaled_step(self.velocity.y, displacement_scale);
        self.pos.x = self.pos.x + sx;
        self.pos.y = self.pos.y + sy;
    }
}

/// `v * scale / SCALE` truncated toward zero, as executable code.
fn scaled_step(v: i64, scale: i64) -> (r: i64)
    requires
        0 <= scale <= MAX_DISPLACEMENT_SCALE,
        -VEL_STEP_LIMIT <= v <= VEL_STEP_LIMIT,
    ensures
        r == step_milli(v as int, scale as int),
        -POS_STEP_LIMIT <= r <= POS_STEP_LIMIT,
{
    let va = abs_i64(v);
    proof {
        assert(0 <= (va as int) * (scale as int) && (va as int) * (scale as int) <= POS_STEP_LIMIT
            * SCALE) by (nonlinear_arith)
            requires
                0 <= va as int <= VEL_STEP_LIMIT,
                0 <= scale as int <= MAX_DISPLACEMENT_SCALE,
                VEL_STEP_LIMIT * MAX_DISPLACEMENT_SCALE == POS_STEP_LIMIT * SCALE,
        ;
    }
    let prod: i128 = (va as i128) * (scale as i128);
    proof {
        lemma_div_le(prod as int, SCALE as int, POS_STEP_LIMIT as int);
    }
    let q128: i128 = prod / (SCALE as i128);
    let q: i64 = q128 as i64;
    if v < 0 {
        -q
    } else {
        q
    }
}

} // verus!
