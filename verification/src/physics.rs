use crate::body::{
    grav_dv_x, grav_dv_y, lemma_grav_dv_bounds, step_milli, trail_after_record, Body, BodyView,
};
use crate::math::abs_val;
use crate::params::{
    CULL_DISTANCE_MILLI, DV_MAX, MASS_LIMIT, MAX_BODIES, POS_LIMIT, POS_STEP_LIMIT, SCALE,
    TRAIL_LENGTH, VEL_LIMIT, VEL_STEP_LIMIT,
};
use crate::vec2::{norm2, Vec2};
use vstd::prelude::*;

verus! {

/// What force accumulation reads of a body: its position and mass as they
/// were at the start of the tick.
#[derive(Clone, Copy, Debug, PartialEq, Eq, Structural)]
pub struct Snapshot {
    pub pos: Vec2,
    pub mass: i64,
}

/// The mathematical images of a collection of bodies.
pub open spec fn views(s: Seq<Body>) -> Seq<BodyView> {
    s.map_values(|b: Body| b@)
}

/// The read-only snapshot a tick takes before accumulating forces.
pub open spec fn snapshot_of(s: Seq<BodyView>) -> Seq<Snapshot> {
    s.map_values(|b: BodyView| Snapshot { pos: b.pos, mass: b.mass })
}

/// Net velocity change along x that body `i` receives from the first `n`
/// snapshot entries (skipping itself).
pub open spec fn net_dv_x(s: Seq<Snapshot>, i: int, n: int) -> int
    decreases n,
{
    if n <= 0 {
        0
    } else {
        net_dv_x(s, i, n - 1) + if n - 1 == i {
            0
        } else {
            grav_dv_x(s[i].pos, s[n - 1].pos, s[n - 1].mass as int)
        }
    }
}

/// Net velocity change along y; see [`net_dv_x`].
pub open spec fn net_dv_y(s: Seq<Snapshot>, i: int, n: int) -> int
    decreases n,
{
    if n <= 0 {
        0
    } else {
        net_dv_y(s, i, n - 1) + if n - 1 == i {
            0
        } else {
            grav_dv_y(s[i].pos, s[n - 1].pos, s[n - 1].mass as int)
        }
    }
}

/// The net velocity change is at most `n` single pulls.
pub proof fn lemma_net_dv_bound(s: Seq<Snapshot>, i: int, n: int)
    requires
        0 <= n <= s.len(),
        forall|j: int| 0 <= j < s.len() ==> 1 <= (#[trigger] s[j]).mass <= MASS_LIMIT,
    ensures
        abs_val(net_dv_x(s, i, n)) <= n * DV_MAX,
        abs_val(net_dv_y(s, i, n)) <= n * DV_MAX,
    decreases n,
{
    if n > 0 {
        lemma_net_dv_bound(s, i, n - 1);
        if n - 1 != i {
            lemma_grav_dv_bounds(s[i].pos, s[n - 1].pos, s[n - 1].mass as int);
        }
    }
}

/// A body after force accumulation: only the velocity changes.
pub open spec fn gravitate_body(b: BodyView, s: Seq<Snapshot>, i: int) -> BodyView {
    BodyView {
        velocity: Vec2 {
            x: (b.velocity.x + net_dv_x(s, i, s.len() as int)) as i64,
            y: (b.velocity.y + net_dv_y(s, i, s.len() as int)) as i64,
        },
        ..b
    }
}

/// Force accumulation across the whole collection, every body reading the
/// same start-of-tick snapshot.
pub open spec fn gravitate_all(s: Seq<BodyView>) -> Seq<BodyView> {
    s.map(|i: int, b: BodyView| gravitate_body(b, snapshot_of(s), i))
}

/// A body after its move: the position is recorded on the trail, then
/// displaced by the velocity times `scale / SCALE`.
pub open spec fn moved_body(b: BodyView, scale: int) -> BodyView {
    BodyView {
        pos: Vec2 {
            x: (b.pos.x + step_milli(b.velocity.x as int, scale)) as i64,
            y: (b.pos.y + step_milli(b.velocity.y as int, scale)) as i64,
        },
        trail: trail_after_record(b.trail, b.pos),
        ..b
    }
}

/// Every body moved; see [`moved_body`].
pub open spec fn move_all(s: Seq<BodyView>, scale: int) -> Seq<BodyView> {
    s.map_values(|b: BodyView| moved_body(b, scale))
}

/// Whether a body survives the cull: its distance from the origin is at
/// most [`CULL_DISTANCE_MILLI`].
pub open spec fn within_cull(b: BodyView) -> bool {
    norm2(b.pos) <= CULL_DISTANCE_MILLI * CULL_DISTANCE_MILLI
}

/// The collection after the cull: the bodies within range, in order.
pub open spec fn cull_all(s: Seq<BodyView>) -> Seq<BodyView>
    decreases s.len(),
{
    if s.len() == 0 {
        s
    } else {
        let rest = cull_all(s.drop_last());
        if within_cull(s.last()) {
            rest.push(s.last())
        } else {
            rest
        }
    }
}

/// One tick: forces from a common snapshot, then the move, then the cull;
/// a paused tick skips forces and move but still culls.
pub open spec fn tick_result(s: Seq<BodyView>, paused: bool) -> Seq<BodyView> {
    if paused {
        cull_all(s)
    } else {
        cull_all(move_all(gravitate_all(s), SCALE as int))
    }
}

/// Bounds under which a tick provably cannot overflow.
pub open spec fn tick_ready(s: Seq<Body>) -> bool {
    s.len() <= MAX_BODIES && forall|i: int| 0 <= i < s.len() ==> (#[trigger] s[i]).wf()
}

/// The collection during force accumulation: the first `i` bodies already
/// gravitated, the rest untouched.
pub open spec fn gravitate_upto(s: Seq<BodyView>, snap: Seq<Snapshot>, i: int) -> Seq<BodyView> {
    s.map(
        |k: int, b: BodyView|
            if k < i {
                gravitate_body(b, snap, k)
            } else {
                b
            },
    )
}

/// The collection during the move: the first `i` bodies already moved.
pub open spec fn move_upto(s: Seq<BodyView>, scale: int, i: int) -> Seq<BodyView> {
    s.map(
        |k: int, b: BodyView|
            if k < i {
                moved_body(b, scale)
            } else {
                b
            },
    )
}

/// Every body the cull keeps is one of the bodies it was given.
pub proof fn lemma_cull_members(s: Seq<BodyView>)
    ensures
        forall|i: int|
            0 <= i < cull_all(s).len() ==> exists|j: int|
                0 <= j < s.len() && #[trigger] cull_all(s)[i] == s[j],
    decreases s.len(),
{
    if s.len() > 0 {
        lemma_cull_members(s.drop_last());
        let rest = cull_all(s.drop_last());
        assert forall|i: int| 0 <= i < cull_all(s).len() implies exists|j: int|
            0 <= j < s.len() && #[trigger] cull_all(s)[i] == s[j] by {
            if i < rest.len() {
                let j = choose|j: int| 0 <= j < s.drop_last().len() && #[trigger] rest[i] == s.drop_last()[j];
                assert(s.drop_last()[j] == s[j]);
                assert(cull_all(s)[i] == s[j]);
            } else {
                assert(cull_all(s)[i] == s[s.len() - 1]);
            }
        }
    }
}

/// Culling keeps exactly the bodies within the cull distance: every body
/// of the culled collection is within range (so one whose position norm
/// exceeds the distance is absent), and a body within the threshold is
/// never removed.
pub proof fn lemma_cull_correct(s: Seq<BodyView>)
    ensures
        forall|i: int| 0 <= i < cull_all(s).len() ==> within_cull(#[trigger] cull_all(s)[i]),
        forall|i: int|
            0 <= i < s.len() && within_cull(#[trigger] s[i]) ==> cull_all(s).contains(s[i]),
    decreases s.len(),
{
    if s.len() > 0 {
        lemma_cull_correct(s.drop_last());
        let rest = cull_all(s.drop_last());
        assert forall|i: int|
            0 <= i < s.len() && within_cull(#[trigger] s[i]) implies cull_all(s).contains(
            s[i],
        ) by {
            if i < s.len() - 1 {
                assert(s.drop_last()[i] == s[i]);
                assert(rest.contains(s[i]));
                let j = choose|j: int| 0 <= j < rest.len() && rest[j] == s[i];
                assert(cull_all(s)[j] == s[i]);
            } else {
                assert(cull_all(s)[cull_all(s).len() - 1] == s[i]);
            }
        }
    }
}

/// Trail bound invariant: the move records at most [`TRAIL_LENGTH`]
/// positions, the first of them the position the body had just before the
/// most recent move, and a whole tick keeps every trail within the bound.
pub proof fn lemma_trail_bound(s: Seq<BodyView>, paused: bool)
    requires
        forall|i: int| 0 <= i < s.len() ==> (#[trigger] s[i]).trail.len() <= TRAIL_LENGTH,
    ensures
        forall|i: int|
            0 <= i < tick_result(s, paused).len() ==> (#[trigger] tick_result(
                s,
                paused,
            )[i]).trail.len() <= TRAIL_LENGTH,
        !paused ==> forall|i: int|
            0 <= i < s.len() ==> {
                let mv = #[trigger] move_all(gravitate_all(s), SCALE as int)[i];
                &&& mv.trail.len() <= TRAIL_LENGTH
                &&& 1 <= mv.trail.len()
                &&& mv.trail[0] == s[i].pos
            },
{
    let m = if paused {
        s
    } else {
        move_all(gravitate_all(s), SCALE as int)
    };
    assert forall|i: int| 0 <= i < m.len() implies (#[trigger] m[i]).trail.len() <= TRAIL_LENGTH
        && (!paused ==> 1 <= m[i].trail.len() && m[i].trail[0] == s[i].pos) by {
        if !paused {
            let gb = gravitate_body(s[i], snapshot_of(s), i);
            assert(gravitate_all(s)[i] == gb);
            assert(m[i] == moved_body(gb, SCALE as int));
            assert(gb.trail == s[i].trail && gb.pos == s[i].pos);
            let pushed = seq![gb.pos] + gb.trail;
            assert(pushed[0] == gb.pos);
            assert(m[i].trail == trail_after_record(gb.trail, gb.pos));
            if pushed.len() > TRAIL_LENGTH {
                assert(m[i].trail == pushed.subrange(0, TRAIL_LENGTH as int));
                assert(m[i].trail[0] == pushed[0]);
            }
        }
    }
    lemma_cull_members(m);
    assert forall|i: int|
        0 <= i < tick_result(s, paused).len() implies (#[trigger] tick_result(
        s,
        paused,
    )[i]).trail.len() <= TRAIL_LENGTH by {
        assert(tick_result(s, paused) == cull_all(m));
        let j = choose|j: int| 0 <= j < m.len() && #[trigger] cull_all(m)[i] == m[j];
        assert(m[j].trail.len() <= TRAIL_LENGTH);
    }
}

/// Force symmetry within a tick: the net velocity change a body receives
/// is a function of the snapshot's positions and masses alone.  Two
/// collections that agree on every position and mass produce identical
/// deltas whatever else (velocities, trails, order of processing within
/// the tick) differs, so no body's delta can depend on whether another
/// body was updated before or after it.
pub proof fn lemma_net_dv_reads_snapshot_only(s: Seq<BodyView>, t: Seq<BodyView>, i: int, n: int)
    requires
        s.len() == t.len(),
        0 <= i < s.len(),
        0 <= n <= s.len(),
        forall|j: int|
            0 <= j < s.len() ==> (#[trigger] s[j]).pos == t[j].pos && s[j].mass == t[j].mass,
    ensures
        net_dv_x(snapshot_of(s), i, n) == net_dv_x(snapshot_of(t), i, n),
        net_dv_y(snapshot_of(s), i, n) == net_dv_y(snapshot_of(t), i, n),
    decreases n,
{
    if n > 0 {
        lemma_net_dv_reads_snapshot_only(s, t, i, n - 1);
        if 0 <= n - 1 < s.len() && 0 <= i < s.len() {
            assert(snapshot_of(s)[n - 1] == snapshot_of(t)[n - 1]);
            assert(snapshot_of(s)[i] == snapshot_of(t)[i]);
        }
    }
}

/// Facts about one body after force accumulation under [`tick_ready`]
/// bounds: its velocity is the exact mathematical sum of the old velocity
/// and the net pull, and well within the move limits.
proof fn lemma_gravitated_bounds(orig: Seq<Body>, k: int)
    requires
        tick_ready(orig),
        0 <= k < orig.len(),
    ensures
        ({
            let s0 = views(orig);
            let snap = snapshot_of(s0);
            let gb = gravitate_body(s0[k], snap, k);
            &&& gb.velocity.x == s0[k].velocity.x + net_dv_x(snap, k, snap.len() as int)
            &&& gb.velocity.y == s0[k].velocity.y + net_dv_y(snap, k, snap.len() as int)
            &&& -VEL_STEP_LIMIT <= gb.velocity.x <= VEL_STEP_LIMIT
            &&& -VEL_STEP_LIMIT <= gb.velocity.y <= VEL_STEP_LIMIT
            &&& gb.pos == s0[k].pos
            &&& -POS_LIMIT <= gb.pos.x <= POS_LIMIT
            &&& -POS_LIMIT <= gb.pos.y <= POS_LIMIT
            &&& gb.mass == s0[k].mass
            &&& gb.color == s0[k].color
            &&& gb.trail == s0[k].trail
        }),
{
    let s0 = views(orig);
    let snap = snapshot_of(s0);
    assert(orig[k].wf());
    assert(s0[k] == orig[k]@);
    assert forall|j: int| 0 <= j < snap.len() implies 1 <= (#[trigger] snap[j]).mass
        <= MASS_LIMIT by {
        assert(orig[j].wf());
        assert(s0[j] == orig[j]@);
    }
    lemma_net_dv_bound(snap, k, snap.len() as int);
    assert(snap.len() as int * DV_MAX <= MAX_BODIES * DV_MAX) by (nonlinear_arith)
        requires
            0 <= snap.len() as int <= MAX_BODIES,
            DV_MAX > 0,
    ;
}

/// Facts about one body after its move within a tick: the position is
/// displaced by exactly the accumulated velocity, and stays well inside
/// the machine bounds the cull check needs.
proof fn lemma_moved_bounds(orig: Seq<Body>, k: int)
    requires
        tick_ready(orig),
        0 <= k < orig.len(),
    ensures
        ({
            let s0 = views(orig);
            let snap = snapshot_of(s0);
            let gb = gravitate_body(s0[k], snap, k);
            let mb = moved_body(gb, SCALE as int);
            &&& mb.pos.x == gb.pos.x + gb.velocity.x
            &&& mb.pos.y == gb.pos.y + gb.velocity.y
            &&& -2 * POS_STEP_LIMIT <= mb.pos.x <= 2 * POS_STEP_LIMIT
            &&& -2 * POS_STEP_LIMIT <= mb.pos.y <= 2 * POS_STEP_LIMIT
            &&& mb.velocity == gb.velocity
            &&& mb.mass == gb.mass
            &&& mb.color == gb.color
            &&& mb.trail == trail_after_record(gb.trail, gb.pos)
        }),
{
    let s0 = views(orig);
    let snap = snapshot_of(s0);
    let gb = gravitate_body(s0[k], snap, k);
    lemma_gravitated_bounds(orig, k);
    crate::body::lemma_step_identity(gb.velocity.x as int);
    crate::body::lemma_step_identity(gb.velocity.y as int);
}

/// Advances the simulation by one tick, as the per-frame driver does:
/// a snapshot of every position and mass is taken first; unless paused,
/// every body then accumulates gravity from every other body of that
/// snapshot and moves by its velocity; finally every body beyond the
/// cull distance is removed.
#[verifier::loop_isolation(false)]
#[verifier::rlimit(60)]
pub fn tick(bodies: &mut Vec<Body>, paused: bool)
    requires
        tick_ready(old(bodies)@),
    ensures
        views(final(bodies)@) == tick_result(views(old(bodies)@), paused),
{
    let ghost s0 = views(bodies@);
    let ghost m = if paused {
        s0
    } else {
        move_all(gravitate_all(s0), SCALE as int)
    };
    let n = bodies.len();
    let mut snap: Vec<Snapshot> = Vec::new();
    let mut i: usize = 0;
    while i < n
        invariant
            i <= n,
            bodies@ == old(bodies)@,
            snap@ == snapshot_of(s0).take(i as int),
        decreases n - i,
    {
        snap.push(Snapshot { pos: bodies[i].pos, mass: bodies[i].mass });
        proof {
            assert(snap@ =~= snapshot_of(s0).take(i as int + 1));
        }
        i = i + 1;
    }
    proof {
        assert(snap@ =~= snapshot_of(s0));
    }
    if !paused {
        let mut i: usize = 0;
        while i < n
            invariant
                i <= n,
                bodies@.len() == n,
                views(bodies@) =~= gravitate_upto(s0, snap@, i as int),
                snap@ == snapshot_of(s0),
            decreases n - i,
        {
            let ghost before = views(bodies@);
            let mut j: usize = 0;
            while j < n
                invariant
                    j <= n,
                    bodies@.len() == n,
                    forall|k: int|
                        0 <= k < n && k != i ==> views(bodies@)[k] == #[trigger] before[k],
                    views(bodies@)[i as int] == (BodyView {
                        velocity: Vec2 {
                            x: (s0[i as int].velocity.x + net_dv_x(snap@, i as int, j as int)) as i64,
                            y: (s0[i as int].velocity.y + net_dv_y(snap@, i as int, j as int)) as i64,
                        },
                        ..s0[i as int]
                    }),
                decreases n - j,
            {
                proof {
                    lemma_net_dv_bound(snap@, i as int, j as int);
                    lemma_net_dv_bound(snap@, i as int, j as int + 1);
                }
                if j != i {
                    let opos = snap[j].pos;
                    let omass = snap[j].mass;
                    bodies[i].accumulate_gravity(opos, omass);
                }
                j = j + 1;
            }
            proof {
                assert(snap@.len() == n);
                assert forall|k: int| 0 <= k < n implies views(bodies@)[k] == gravitate_upto(
                    s0,
                    snap@,
                    i as int + 1,
                )[k] by {
                    if k != i as int {
                        assert(views(bodies@)[k] == before[k]);
                        assert(before[k] == gravitate_upto(s0, snap@, i as int)[k]);
                    }
                }
                assert(views(bodies@) =~= gravitate_upto(s0, snap@, i as int + 1));
            }
            i = i + 1;
        }
        proof {
            assert forall|k: int| 0 <= k < n implies gravitate_upto(s0, snap@, n as int)[k]
                == gravitate_all(s0)[k] by {}
            assert(gravitate_upto(s0, snap@, n as int) =~= gravitate_all(s0));
        }
        let ghost g = gravitate_all(s0);
        let mut i: usize = 0;
        while i < n
            invariant
                i <= n,
                bodies@.len() == n,
                views(bodies@) =~= move_upto(g, SCALE as int, i as int),
            decreases n - i,
        {
            proof {
                lemma_gravitated_bounds(old(bodies)@, i as int);
                assert(views(bodies@)[i as int] == move_upto(g, SCALE as int, i as int)[i as int]);
                assert(bodies@[i as int]@ == g[i as int]);
            }
            let ghost prev = bodies@;
            bodies[i].record_and_move(SCALE);
            proof {
                lemma_moved_bounds(old(bodies)@, i as int);
                crate::body::lemma_step_identity(g[i as int].velocity.x as int);
                crate::body::lemma_step_identity(g[i as int].velocity.y as int);
                assert forall|k: int| 0 <= k < n implies views(bodies@)[k] == move_upto(
                    g,
                    SCALE as int,
                    i as int + 1,
                )[k] by {
                    if k == i as int {
                        assert(g[k] == gravitate_body(s0[k], snapshot_of(s0), k));
                        assert(prev[k]@ == g[k]);
                        assert(bodies@[k]@ =~= moved_body(g[k], SCALE as int));
                    } else {
                        assert(bodies@[k] == prev[k]);
                        assert(prev[k]@ == move_upto(g, SCALE as int, i as int)[k]);
                    }
                }
                assert(views(bodies@) =~= move_upto(g, SCALE as int, i as int + 1));
            }
            i = i + 1;
        }
        proof {
            assert forall|k: int| 0 <= k < n implies move_upto(g, SCALE as int, n as int)[k]
                == move_all(g, SCALE as int)[k] by {}
            assert(move_upto(g, SCALE as int, n as int) =~= move_all(g, SCALE as int));
            assert(views(bodies@) =~= m);
        }
    }
    proof {
        assert(views(bodies@) =~= m);
        assert forall|k: int|
            0 <= k < m.len() implies (-2 * POS_STEP_LIMIT <= (#[trigger] m[k]).pos.x <= 2
            * POS_STEP_LIMIT && -2 * POS_STEP_LIMIT <= m[k].pos.y <= 2 * POS_STEP_LIMIT) by {
            if paused {
                assert(old(bodies)@[k].wf());
                assert(m[k] == old(bodies)@[k]@);
            } else {
                lemma_moved_bounds(old(bodies)@, k);
            }
        }
    }
    let mut kept: Vec<Body> = Vec::new();
    let mut done: usize = 0;
    proof {
        assert(views(kept@) =~= cull_all(m.take(0)));
    }
    while bodies.len() > 0
        invariant
            done + bodies@.len() == m.len(),
            views(kept@) =~= cull_all(m.take(done as int)),
            forall|k: int| 0 <= k < bodies@.len() ==> views(bodies@)[k] == #[trigger] m[done + k],
            forall|k: int|
                0 <= k < m.len() ==> (-2 * POS_STEP_LIMIT <= (#[trigger] m[k]).pos.x <= 2
                    * POS_STEP_LIMIT && -2 * POS_STEP_LIMIT <= m[k].pos.y <= 2 * POS_STEP_LIMIT),
        decreases bodies@.len(),
    {
        let ghost prevb = bodies@;
        let b = bodies.remove(0);
        proof {
            assert(views(prevb)[0] == m[done as int]);
            assert(b@ == m[done as int]);
            assert(bodies@ =~= prevb.subrange(1, prevb.len() as int));
            assert forall|k: int|
                0 <= k < bodies@.len() implies views(bodies@)[k] == #[trigger] m[done + 1 + k] by {
                assert(bodies@[k] == prevb[k + 1]);
                assert(views(prevb)[k + 1] == m[done + (k + 1)]);
                assert(done + (k + 1) == done + 1 + k);
            }
        }
        let q = b.pos.norm2();
        proof {
            assert((CULL_DISTANCE_MILLI as i128) * (CULL_DISTANCE_MILLI as i128)
                == 2_250_000_000_000) by (nonlinear_arith)
                requires
                    CULL_DISTANCE_MILLI == 1_500_000,
            ;
        }
        let keep = q <= (CULL_DISTANCE_MILLI as i128) * (CULL_DISTANCE_MILLI as i128);
        proof {
            assert(keep == within_cull(b@));
            assert(m.take(done as int + 1).drop_last() =~= m.take(done as int));
            assert(m.take(done as int + 1).last() == b@);
        }
        if keep {
            kept.push(b);
        }
        proof {
            assert(views(kept@) =~= cull_all(m.take(done as int + 1)));
        }
        done = done + 1;
    }
    proof {
        assert(m.take(m.len() as int) =~= m);
        assert(views(kept@) =~= tick_result(s0, paused));
    }
    *bodies = kept;
}

/// Whether [`tick`] accepts this collection, decided at run time.
pub fn is_tick_ready(bodies: &Vec<Body>) -> (r: bool)
    ensures
        r == tick_ready(bodies@),
{
    if bodies.len() > MAX_BODIES {
        return false;
    }
    let n = bodies.len();
    let mut i: usize = 0;
    while i < n
        invariant
            i <= n,
            n == bodies@.len() <= MAX_BODIES,
            forall|k: int| 0 <= k < i ==> (#[trigger] bodies@[k]).wf(),
        decreases n - i,
    {
        if !bodies[i].is_wf() {
            return false;
        }
        i = i + 1;
    }
    true
}

/// [`tick`], guarded: advances only a collection within the machine
/// limits and reports whether it did; anything else is left unchanged.
pub fn tick_checked(bodies: &mut Vec<Body>, paused: bool) -> (ok: bool)
    ensures
        ok == tick_ready(old(bodies)@),
        ok ==> views(final(bodies)@) == tick_result(views(old(bodies)@), paused),
        !ok ==> final(bodies)@ == old(bodies)@,
{
    if is_tick_ready(bodies) {
        tick(bodies, paused);
        true
    } else {
        false
    }
}

} // verus!
