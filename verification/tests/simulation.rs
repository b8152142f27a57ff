use planets::body::{Body, Rgba};
use planets::math::isqrt;
use planets::orbit::orbit_velocity;
use planets::physics::{tick, tick_checked};
use planets::scenario::{generate, make_satellite, sun};
use planets::star::star_field;
use planets::vec2::Vec2;

fn gray() -> Rgba {
    Rgba { r: 128, g: 128, b: 128, a: 255 }
}

#[test]
fn isqrt_exact_values() {
    assert_eq!(isqrt(0), 0);
    assert_eq!(isqrt(1), 1);
    assert_eq!(isqrt(3), 1);
    assert_eq!(isqrt(4), 2);
    assert_eq!(isqrt(2_504_418), 1582);
    assert_eq!(isqrt(u64::MAX), 4_294_967_295);
}

#[test]
fn orbit_velocity_end_to_end_example() {
    // Sun of mass 1,500,000 at the origin; satellite of mass 1000 at
    // (400, 0) world units.  The circular-orbit speed is
    // sqrt(G * 1,501,000 / 400) = 1.582... units per tick, below the
    // clamp, directed along (0, 1).
    let center = sun();
    let sat = Body::new(Vec2 { x: 400_000, y: 0 }, 1000, Vec2 { x: 0, y: 0 }, gray());
    let v = orbit_velocity(&sat, &center);
    assert_eq!(v, Vec2 { x: 0, y: 1582 });
}

#[test]
fn orbit_velocity_clamped_close_in() {
    // One world unit from the sun the raw orbital speed is far above the
    // maximum, so the solver hands back exactly the clamp.
    let center = sun();
    let sat = Body::new(Vec2 { x: 1000, y: 0 }, 1000, Vec2 { x: 0, y: 0 }, gray());
    let v = orbit_velocity(&sat, &center);
    assert_eq!(v, Vec2 { x: 0, y: 2000 });
}

#[test]
fn orbit_velocity_speed_clamped_at_tiny_separation() {
    // One milli-unit along each axis from the sun: the raw orbital speed
    // is enormous, and the tangential direction is the diagonal.  Each
    // component comes out as floor(2000 / sqrt(2)) = 1414, so the speed
    // stays at or below the clamp even on the diagonal.
    let center = sun();
    let sat = Body::new(Vec2 { x: 1, y: 1 }, 1000, Vec2 { x: 0, y: 0 }, gray());
    let v = orbit_velocity(&sat, &center);
    assert_eq!(v, Vec2 { x: -1414, y: 1414 });
    let n2 = (v.x as i128) * (v.x as i128) + (v.y as i128) * (v.y as i128);
    assert!(n2 <= 2000 * 2000);
}

#[test]
fn orbit_velocity_adds_center_velocity() {
    let mut center = sun();
    center.velocity = Vec2 { x: 7, y: -9 };
    let sat = Body::new(Vec2 { x: 400_000, y: 0 }, 1000, Vec2 { x: 0, y: 0 }, gray());
    let v = orbit_velocity(&sat, &center);
    assert_eq!(v, Vec2 { x: 7, y: 1582 - 9 });
}

#[test]
fn gravity_pulls_toward_other_body() {
    // G * 1,500,000 / 400^2 = 0.00626 units per tick, i.e. 6 milli,
    // pointing from the satellite toward the sun (negative x).
    let mut sat = Body::new(Vec2 { x: 400_000, y: 0 }, 1000, Vec2 { x: 0, y: 1582 }, gray());
    sat.accumulate_gravity(Vec2 { x: 0, y: 0 }, 1_500_000);
    assert_eq!(sat.velocity, Vec2 { x: -6, y: 1582 });
    assert_eq!(sat.pos, Vec2 { x: 400_000, y: 0 });
}

#[test]
fn gravity_of_coincident_bodies_is_zero() {
    let mut sat = Body::new(Vec2 { x: 5, y: 5 }, 1000, Vec2 { x: 3, y: 4 }, gray());
    sat.accumulate_gravity(Vec2 { x: 5, y: 5 }, 1_500_000);
    assert_eq!(sat.velocity, Vec2 { x: 3, y: 4 });
}

#[test]
fn record_and_move_records_then_displaces() {
    let mut b = Body::new(Vec2 { x: 10, y: 20 }, 100, Vec2 { x: 2, y: -3 }, gray());
    b.record_and_move(1000);
    assert_eq!(b.pos, Vec2 { x: 12, y: 17 });
    assert_eq!(b.trail.len(), 1);
    assert_eq!(b.trail[0], Vec2 { x: 10, y: 20 });
    b.record_and_move(1000);
    assert_eq!(b.pos, Vec2 { x: 14, y: 14 });
    assert_eq!(b.trail.len(), 2);
    assert_eq!(b.trail[0], Vec2 { x: 12, y: 17 });
}

#[test]
fn record_and_move_scales_displacement() {
    let mut b = Body::new(Vec2 { x: 0, y: 0 }, 100, Vec2 { x: 1000, y: -500 }, gray());
    b.record_and_move(500);
    assert_eq!(b.pos, Vec2 { x: 500, y: -250 });
}

#[test]
fn trail_never_exceeds_bound() {
    let mut b = Body::new(Vec2 { x: 0, y: 0 }, 100, Vec2 { x: 1, y: 0 }, gray());
    for _ in 0..1005 {
        b.record_and_move(1000);
    }
    assert_eq!(b.trail.len(), 1000);
    // most recent first: the position just before the last move
    assert_eq!(b.trail[0], Vec2 { x: 1004, y: 0 });
}

#[test]
fn tick_end_to_end_example() {
    // Satellite from the end-to-end example plus the sun: one tick pulls
    // the satellite 6 milli toward the sun and moves it by its velocity;
    // the far heavier sun does not measurably move.
    let sat = Body::new(Vec2 { x: 400_000, y: 0 }, 1000, Vec2 { x: 0, y: 1582 }, gray());
    let mut bodies = vec![sat, sun()];
    tick(&mut bodies, false);
    assert_eq!(bodies.len(), 2);
    assert_eq!(bodies[0].velocity, Vec2 { x: -6, y: 1582 });
    assert_eq!(bodies[0].pos, Vec2 { x: 399_994, y: 1582 });
    assert_eq!(bodies[0].trail.len(), 1);
    assert_eq!(bodies[0].trail[0], Vec2 { x: 400_000, y: 0 });
    assert_eq!(bodies[1].velocity, Vec2 { x: 0, y: 0 });
    assert_eq!(bodies[1].pos, Vec2 { x: 0, y: 0 });
}

#[test]
fn tick_culls_escaped_bodies_and_keeps_boundary() {
    // 1500 world units is within the cull distance (inclusive); anything
    // beyond it is removed even while paused.
    let near = Body::new(Vec2 { x: 1_500_000, y: 0 }, 100, Vec2 { x: 0, y: 0 }, gray());
    let far = Body::new(Vec2 { x: 1_500_001, y: 0 }, 100, Vec2 { x: 0, y: 0 }, gray());
    let mut bodies = vec![near, far, sun()];
    tick(&mut bodies, true);
    assert_eq!(bodies.len(), 2);
    assert_eq!(bodies[0].pos, Vec2 { x: 1_500_000, y: 0 });
    assert_eq!(bodies[1].pos, Vec2 { x: 0, y: 0 });
}

#[test]
fn paused_tick_freezes_motion() {
    let sat = Body::new(Vec2 { x: 400_000, y: 0 }, 1000, Vec2 { x: 0, y: 1582 }, gray());
    let mut bodies = vec![sat, sun()];
    tick(&mut bodies, true);
    assert_eq!(bodies[0].pos, Vec2 { x: 400_000, y: 0 });
    assert_eq!(bodies[0].velocity, Vec2 { x: 0, y: 1582 });
    assert_eq!(bodies[0].trail.len(), 0);
}

#[test]
fn forces_read_only_the_snapshot() {
    // Two collections agreeing on positions and masses but not on
    // velocities receive identical velocity deltas, whatever order the
    // bodies are processed in.
    let a1 = Body::new(Vec2 { x: 100_000, y: 0 }, 4000, Vec2 { x: 0, y: 0 }, gray());
    let a2 = Body::new(Vec2 { x: -100_000, y: 0 }, 4000, Vec2 { x: 0, y: 0 }, gray());
    let b1 = Body::new(Vec2 { x: 100_000, y: 0 }, 4000, Vec2 { x: 900, y: -70 }, gray());
    let b2 = Body::new(Vec2 { x: -100_000, y: 0 }, 4000, Vec2 { x: -30, y: 60 }, gray());
    let mut first = vec![a1, a2];
    let mut second = vec![b1, b2];
    tick(&mut first, false);
    tick(&mut second, false);
    for i in 0..2 {
        let da = (first[i].velocity.x - 0, first[i].velocity.y - 0);
        let base = if i == 0 { (900, -70) } else { (-30, 60) };
        let db = (
            second[i].velocity.x - base.0,
            second[i].velocity.y - base.1,
        );
        assert_eq!(da, db);
    }
}

#[test]
fn tick_checked_rejects_out_of_range_collections() {
    let bad = Body::new(Vec2 { x: 0, y: 0 }, 0, Vec2 { x: 0, y: 0 }, gray());
    let mut bodies = vec![bad];
    let ok = tick_checked(&mut bodies, false);
    assert!(!ok);
    assert_eq!(bodies.len(), 1);
    assert_eq!(bodies[0].mass, 0);

    let mut good = vec![sun()];
    assert!(tick_checked(&mut good, false));
}

#[test]
fn make_satellite_nudges_a_sample_on_the_center() {
    let center = sun();
    let b = make_satellite(0, 0, 1000, gray(), 0, &center);
    assert_eq!(b.pos, Vec2 { x: 1000, y: 0 });
    assert_ne!(b.pos, center.pos);
}

#[test]
fn make_satellite_applies_ellipticity_to_x_axis() {
    let center = sun();
    let plain = make_satellite(400_000, 0, 1000, gray(), 0, &center);
    let skewed = make_satellite(400_000, 0, 1000, gray(), 800, &center);
    assert_eq!(plain.velocity, Vec2 { x: 0, y: 1582 });
    assert_eq!(skewed.velocity, Vec2 { x: 800, y: 1582 });
    assert_eq!(skewed.mass, 1000);
    assert_eq!(skewed.trail.len(), 0);
}

#[test]
fn generate_respects_the_scenario_bounds() {
    for _ in 0..50 {
        let bodies = generate();
        assert!(5 <= bodies.len() && bodies.len() <= 13);
        let sun_body = bodies.last().unwrap();
        assert_eq!(sun_body.pos, Vec2 { x: 0, y: 0 });
        assert_eq!(sun_body.velocity, Vec2 { x: 0, y: 0 });
        assert_eq!(sun_body.mass, 1_500_000);
        for b in &bodies[..bodies.len() - 1] {
            assert!(50 <= b.mass && b.mass <= 5000);
            assert!(-400_000 <= b.pos.x && b.pos.x < 400_000);
            assert!(-400_000 <= b.pos.y && b.pos.y < 400_000);
            assert_ne!(b.pos, Vec2 { x: 0, y: 0 });
            let n2 = (b.pos.x as i128) * (b.pos.x as i128) + (b.pos.y as i128) * (b.pos.y as i128);
            assert!(n2 <= 2 * 400_000 * 400_000);
            assert!(b.trail.is_empty());
            assert!(b.color.r >= 20 && b.color.g >= 20 && b.color.b >= 20);
            assert_eq!(b.color.a, 255);
            assert!(b.velocity.x.abs() <= 2800);
            assert!(b.velocity.y.abs() <= 2000);
            // the velocity is the circular-orbit velocity around the sun,
            // with only the x axis perturbed, by at most the ellipticity
            let probe = Body::new(b.pos, b.mass, Vec2 { x: 0, y: 0 }, gray());
            let orbit = orbit_velocity(&probe, sun_body);
            assert_eq!(b.velocity.y, orbit.y);
            assert!((b.velocity.x - orbit.x).abs() <= 800);
        }
        // a freshly generated scenario is always ready to advance
        let mut sim = bodies;
        assert!(tick_checked(&mut sim, false));
    }
}

#[test]
fn star_field_has_the_requested_size_and_bounds() {
    let stars = star_field(500);
    assert_eq!(stars.len(), 500);
    for s in &stars {
        assert!(-1000 <= s.pos.x && s.pos.x < 1000);
        assert!(-1000 <= s.pos.y && s.pos.y < 1000);
        assert!(100 <= s.magnitude && s.magnitude <= 1100);
    }
}
