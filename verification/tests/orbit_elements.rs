use std::f64::consts::PI;

use spacerocks::binary64::Binary64;
use spacerocks::elements::{
    anomaly_rule, argument_rule, classify, clamp_cosine, node_rule, node_vector, plan_elements,
    snap_argument,
    AnomalyRule, ArgumentRule, Energy, NodeRule, OrbitClass, OrbitGeometry, Plane, Shape,
    HALF_PI_BITS, NEAR_CIRCULAR_BITS, NEAR_PLANAR_BITS, NEAR_RETROGRADE_BITS, UNIT_SNAP_BITS,
};
use spacerocks::keplerorbit::{KeplerOrbit, PI_BITS, TWO_PI_BITS};
use spacerocks::statevector::{StateVector, Vector3};

const MU: f64 = 0.00029630927493457475;

fn b(x: f64) -> Binary64 {
    Binary64::from_bits(x.to_bits())
}

fn n(x: Binary64) -> f64 {
    f64::from_bits(x.to_bits())
}

fn v3(x: f64, y: f64, z: f64) -> Vector3 {
    Vector3::new(b(x), b(y), b(z))
}

fn dot(a: [f64; 3], c: [f64; 3]) -> f64 {
    a[0] * c[0] + a[1] * c[1] + a[2] * c[2]
}

fn cross(a: [f64; 3], c: [f64; 3]) -> [f64; 3] {
    [a[1] * c[2] - a[2] * c[1], a[2] * c[0] - a[0] * c[2], a[0] * c[1] - a[1] * c[0]]
}

fn norm(a: [f64; 3]) -> f64 {
    dot(a, a).sqrt()
}

fn acos(ratio: f64) -> f64 {
    n(clamp_cosine(b(ratio))).acos()
}

fn reflected(angle: f64, reflect: bool) -> f64 {
    if reflect {
        2.0 * PI - angle
    } else {
        angle
    }
}

/// The conversion in double precision around the library's decisions.
/// Returns `[a, e, inc, arg, node, f]`.
fn elements_of(position: [f64; 3], velocity: [f64; 3], mu: f64) -> [f64; 6] {
    let r = norm(position);
    let vsq = dot(velocity, velocity);
    let h = cross(position, velocity);
    let vxh = cross(velocity, h);
    let evec = [
        vxh[0] / mu - position[0] / r,
        vxh[1] / mu - position[1] / r,
        vxh[2] / mu - position[2] / r,
    ];
    let nv = node_vector(&v3(h[0], h[1], h[2]));
    let nvec = [n(nv.x), n(nv.y), n(nv.z)];
    let nn = norm(nvec);
    let a = 1.0 / (2.0 / r - vsq / mu);
    let e = norm(evec);
    let inc = acos(h[2] / norm(h));
    let rdotv = dot(position, velocity);

    let state = StateVector::new(
        b(position[0]),
        b(position[1]),
        b(position[2]),
        b(velocity[0]),
        b(velocity[1]),
        b(velocity[2]),
    );
    let geometry = OrbitGeometry {
        e: b(e),
        inc: b(inc),
        node_vector: v3(nvec[0], nvec[1], nvec[2]),
        eccentricity_vector: v3(evec[0], evec[1], evec[2]),
        radial: b(rdotv),
    };
    let plan = plan_elements(&state, &geometry);

    let node = match plan.node {
        NodeRule::Zero => 0.0,
        NodeRule::Principal => acos(nvec[0] / nn),
        NodeRule::Reflected => 2.0 * PI - acos(nvec[0] / nn),
    };
    let arg = match plan.argument {
        ArgumentRule::Zero => 0.0,
        ArgumentRule::Planar { reflect_pericenter, retrograde } => {
            let varpi = reflected(acos(evec[0] / e), reflect_pericenter);
            if retrograde {
                node - varpi
            } else {
                varpi - node
            }
        }
        ArgumentRule::General { reflect } => reflected(acos(dot(nvec, evec) / (nn * e)), reflect),
    };
    let f = match plan.anomaly {
        AnomalyRule::PlanarEccentric { retrograde } => {
            let theta = acos(position[0] / r);
            let varpi = acos(evec[0] / e);
            if retrograde {
                varpi - theta
            } else {
                theta - varpi
            }
        }
        AnomalyRule::PlanarCircular { reflect } => reflected(acos(position[0] / r), reflect),
        AnomalyRule::InclinedEccentric { reflect } => {
            reflected(acos(dot(evec, position) / (e * r)), reflect)
        }
        AnomalyRule::InclinedCircular { reflect } => {
            reflected(acos(dot(nvec, position) / (nn * r)), reflect)
        }
        AnomalyRule::Unbound { inbound } => {
            let argument = (1.0 - r / a) / e;
            let argument = n(snap_argument(b(argument), b(argument - 1.0)));
            let mut anomaly = argument.acosh();
            if inbound {
                anomaly = -anomaly;
            }
            2.0 * ((e + 1.0).sqrt() * (anomaly / 2.0).tanh()).atan2((e - 1.0).sqrt())
        }
    };
    [a, e, inc, arg, node, f]
}

/// The state of a body at true anomaly `f` on the given orbit.
fn state_of(a: f64, e: f64, inc: f64, arg: f64, node: f64, f: f64, mu: f64) -> ([f64; 3], [f64; 3]) {
    let p = a * (1.0 - e * e);
    let r = p / (1.0 + e * f.cos());
    let (xp, yp) = (r * f.cos(), r * f.sin());
    let k = (mu / p).sqrt();
    let (vxp, vyp) = (-k * f.sin(), k * (e + f.cos()));
    let (so, co) = node.sin_cos();
    let (si, ci) = inc.sin_cos();
    let (sw, cw) = arg.sin_cos();
    let rot = |x: f64, y: f64| -> [f64; 3] {
        [
            (co * cw - so * sw * ci) * x + (-co * sw - so * cw * ci) * y,
            (so * cw + co * sw * ci) * x + (-so * sw + co * cw * ci) * y,
            (sw * si) * x + (cw * si) * y,
        ]
    };
    (rot(xp, yp), rot(vxp, vyp))
}

fn wrap(x: f64) -> f64 {
    let y = x % (2.0 * PI);
    if y < 0.0 {
        y + 2.0 * PI
    } else {
        y
    }
}

fn angle_gap(x: f64, y: f64) -> f64 {
    let d = (wrap(x) - wrap(y)).abs();
    d.min(2.0 * PI - d)
}

fn class(shape: Shape, plane: Plane, energy: Energy) -> OrbitClass {
    OrbitClass { shape, plane, energy }
}

#[test]
fn thresholds_are_the_doubles_they_stand_for() {
    assert_eq!(NEAR_CIRCULAR_BITS, 1e-10f64.to_bits());
    assert_eq!(NEAR_PLANAR_BITS, 1e-10f64.to_bits());
    assert_eq!(NEAR_RETROGRADE_BITS, (PI - 1e-10).to_bits());
    assert_eq!(HALF_PI_BITS, (PI / 2.0).to_bits());
    assert_eq!(UNIT_SNAP_BITS, 1e-10f64.to_bits());
    assert_eq!(PI_BITS, PI.to_bits());
    assert_eq!(TWO_PI_BITS, (2.0 * PI).to_bits());
}

#[test]
fn classification_at_the_thresholds() {
    assert_eq!(classify(b(0.0), b(0.0)), class(Shape::NearCircular, Plane::EquatorialPrograde, Energy::Bound));
    assert_eq!(classify(b(9.9e-11), b(9.9e-11)), class(Shape::NearCircular, Plane::EquatorialPrograde, Energy::Bound));
    assert_eq!(classify(b(1e-10), b(1e-10)), class(Shape::Eccentric, Plane::Inclined, Energy::Bound));
    assert_eq!(classify(b(0.5), b(1.0)), class(Shape::Eccentric, Plane::Inclined, Energy::Bound));
    assert_eq!(classify(b(0.5), b(PI - 1e-10)), class(Shape::Eccentric, Plane::Inclined, Energy::Bound));
    assert_eq!(classify(b(0.5), b(PI)), class(Shape::Eccentric, Plane::EquatorialRetrograde, Energy::Bound));
    assert_eq!(classify(b(0.9999999999999999), b(1.0)).energy, Energy::Bound);
    assert_eq!(classify(b(1.0), b(1.0)).energy, Energy::Unbound);
    assert_eq!(classify(b(4.0), b(3.0)), class(Shape::Eccentric, Plane::Inclined, Energy::Unbound));
    assert_eq!(classify(b(f64::NAN), b(f64::NAN)), class(Shape::Eccentric, Plane::Inclined, Energy::Unbound));
}

#[test]
fn node_rule_by_inclination_then_by_side() {
    assert_eq!(node_rule(b(0.0), &v3(1.0, -1.0, 0.0)), NodeRule::Zero);
    assert_eq!(node_rule(b(-0.0), &v3(1.0, -1.0, 0.0)), NodeRule::Zero);
    assert_eq!(node_rule(b(0.0), &v3(f64::NAN, f64::NAN, 0.0)), NodeRule::Zero);
    assert_eq!(node_rule(b(0.3), &v3(1.0, -1e-300, 0.0)), NodeRule::Reflected);
    assert_eq!(node_rule(b(0.3), &v3(1.0, 0.0, 0.0)), NodeRule::Principal);
    assert_eq!(node_rule(b(0.3), &v3(1.0, -0.0, 0.0)), NodeRule::Principal);
    assert_eq!(node_rule(b(0.3), &v3(-1.0, 2.0, 0.0)), NodeRule::Principal);
    assert_eq!(node_rule(b(1e-12), &v3(1.0, -2.0, 0.0)), NodeRule::Reflected);
    assert_eq!(NodeRule::Zero.exact().unwrap().to_bits(), 0);
    assert!(NodeRule::Principal.exact().is_none());
    assert!(NodeRule::Reflected.exact().is_none());
}

#[test]
fn argument_rule_in_order_of_priority() {
    let e_vec = v3(0.3, -0.2, -0.1);
    let circular = class(Shape::NearCircular, Plane::EquatorialPrograde, Energy::Bound);
    assert_eq!(argument_rule(&circular, &e_vec), ArgumentRule::Zero);
    let circular_inclined = class(Shape::NearCircular, Plane::Inclined, Energy::Bound);
    assert_eq!(argument_rule(&circular_inclined, &e_vec), ArgumentRule::Zero);
    let prograde = class(Shape::Eccentric, Plane::EquatorialPrograde, Energy::Bound);
    assert_eq!(
        argument_rule(&prograde, &e_vec),
        ArgumentRule::Planar { reflect_pericenter: true, retrograde: false }
    );
    let retrograde = class(Shape::Eccentric, Plane::EquatorialRetrograde, Energy::Unbound);
    assert_eq!(
        argument_rule(&retrograde, &v3(0.3, 0.2, -0.1)),
        ArgumentRule::Planar { reflect_pericenter: false, retrograde: true }
    );
    let general = class(Shape::Eccentric, Plane::Inclined, Energy::Bound);
    assert_eq!(argument_rule(&general, &e_vec), ArgumentRule::General { reflect: true });
    assert_eq!(argument_rule(&general, &v3(0.3, -0.2, 0.1)), ArgumentRule::General { reflect: false });
    assert_eq!(ArgumentRule::Zero.exact().unwrap().to_bits(), 0);
    assert!(ArgumentRule::General { reflect: false }.exact().is_none());
}

#[test]
fn anomaly_rule_for_each_regime() {
    let state = StateVector::new(b(1.0), b(2.0), b(-3.0), b(0.5), b(0.1), b(0.2));
    let out = b(0.7);
    let back = b(-0.7);
    assert_eq!(
        anomaly_rule(&class(Shape::Eccentric, Plane::EquatorialPrograde, Energy::Bound), &state, out),
        AnomalyRule::PlanarEccentric { retrograde: false }
    );
    assert_eq!(
        anomaly_rule(&class(Shape::Eccentric, Plane::EquatorialRetrograde, Energy::Bound), &state, out),
        AnomalyRule::PlanarEccentric { retrograde: true }
    );
    assert_eq!(
        anomaly_rule(&class(Shape::NearCircular, Plane::EquatorialPrograde, Energy::Bound), &state, out),
        AnomalyRule::PlanarCircular { reflect: true }
    );
    assert_eq!(
        anomaly_rule(&class(Shape::Eccentric, Plane::Inclined, Energy::Bound), &state, back),
        AnomalyRule::InclinedEccentric { reflect: true }
    );
    assert_eq!(
        anomaly_rule(&class(Shape::Eccentric, Plane::Inclined, Energy::Bound), &state, out),
        AnomalyRule::InclinedEccentric { reflect: false }
    );
    assert_eq!(
        anomaly_rule(&class(Shape::NearCircular, Plane::Inclined, Energy::Bound), &state, out),
        AnomalyRule::InclinedCircular { reflect: true }
    );
    assert_eq!(
        anomaly_rule(&class(Shape::Eccentric, Plane::Inclined, Energy::Unbound), &state, back),
        AnomalyRule::Unbound { inbound: true }
    );
    assert_eq!(
        anomaly_rule(&class(Shape::Eccentric, Plane::EquatorialPrograde, Energy::Unbound), &state, out),
        AnomalyRule::Unbound { inbound: false }
    );
}

#[test]
fn node_vector_is_the_momentum_turned_in_the_plane() {
    let nv = node_vector(&v3(0.3, -0.7, 2.0));
    assert_eq!(n(nv.x), 0.7);
    assert_eq!(n(nv.y), 0.3);
    assert_eq!(nv.z.to_bits(), 0);
    let nv = node_vector(&v3(-0.0, 0.0, -1.0));
    assert_eq!(nv.x.to_bits(), (-0.0f64).to_bits());
    assert_eq!(nv.y.to_bits(), (-0.0f64).to_bits());
    assert_eq!(nv.z.to_bits(), 0);
}

#[test]
fn cosine_is_clamped_to_the_unit_interval() {
    assert_eq!(n(clamp_cosine(b(1.0000000000000002))), 1.0);
    assert_eq!(n(clamp_cosine(b(-1.0000000000000002))), -1.0);
    assert_eq!(n(clamp_cosine(b(f64::INFINITY))), 1.0);
    assert_eq!(n(clamp_cosine(b(f64::NEG_INFINITY))), -1.0);
    assert_eq!(n(clamp_cosine(b(0.25))), 0.25);
    assert_eq!(n(clamp_cosine(b(1.0))), 1.0);
    assert_eq!(n(clamp_cosine(b(-1.0))), -1.0);
    assert_eq!(clamp_cosine(b(-0.0)).to_bits(), (-0.0f64).to_bits());
    assert!(n(clamp_cosine(b(f64::NAN))).is_nan());
}

#[test]
fn hyperbolic_argument_snaps_to_one() {
    let near = 1.0 + 5e-11;
    assert_eq!(n(snap_argument(b(near), b(near - 1.0))), 1.0);
    let below = 1.0 - 5e-11;
    assert_eq!(n(snap_argument(b(below), b(below - 1.0))), 1.0);
    let far = 1.0 + 2e-10;
    assert_eq!(n(snap_argument(b(far), b(far - 1.0))), far);
    assert_eq!(n(snap_argument(b(3.0), b(2.0))), 3.0);
    assert_eq!(n(snap_argument(b(1.0), b(0.0))), 1.0);
    assert!(n(snap_argument(b(f64::NAN), b(f64::NAN))).is_nan());
}

#[test]
fn element_ranges() {
    let orbit = |e: f64, inc: f64, arg: f64, node: f64| {
        KeplerOrbit::new(b(2.5), b(e), b(inc), b(arg), b(node), b(0.3))
    };
    assert!(orbit(0.2, 0.1, 1.0, 2.0).is_in_range());
    assert!(orbit(0.0, 0.0, 0.0, 0.0).is_in_range());
    assert!(orbit(3.0, PI, 6.28, 6.28).is_in_range());
    assert!(!orbit(-0.1, 0.1, 1.0, 2.0).is_in_range());
    assert!(!orbit(0.2, -0.1, 1.0, 2.0).is_in_range());
    assert!(!orbit(0.2, 3.2, 1.0, 2.0).is_in_range());
    assert!(!orbit(0.2, 0.1, 2.0 * PI, 2.0).is_in_range());
    assert!(!orbit(0.2, 0.1, 1.0, -1e-9).is_in_range());
    assert!(!orbit(f64::NAN, 0.1, 1.0, 2.0).is_in_range());
    assert!(orbit(0.2, 0.1, 1.0, 2.0).is_finite());
    assert!(!orbit(0.2, f64::INFINITY, 1.0, 2.0).is_finite());
    let o = orbit(0.2, 0.1, 1.0, 2.0);
    assert_eq!(n(o.a), 2.5);
    assert_eq!(n(o.e), 0.2);
    assert_eq!(n(o.inc), 0.1);
    assert_eq!(n(o.arg), 1.0);
    assert_eq!(n(o.node), 2.0);
    assert_eq!(n(o.f), 0.3);
}

#[test]
fn state_vector_keeps_its_components() {
    let s = StateVector::new(b(1.0), b(2.0), b(3.0), b(4.0), b(5.0), b(6.0));
    assert_eq!(n(s.position.x), 1.0);
    assert_eq!(n(s.position.y), 2.0);
    assert_eq!(n(s.position.z), 3.0);
    assert_eq!(n(s.velocity.x), 4.0);
    assert_eq!(n(s.velocity.y), 5.0);
    assert_eq!(n(s.velocity.z), 6.0);
    assert!(s.position.is_finite());
    assert!(!v3(1.0, f64::NAN, 0.0).is_finite());
}

#[test]
fn round_trip_on_inclined_orbits() {
    let eccentricities: [f64; 8] = [0.01, 0.2, 0.5, 0.9, 0.99, 1.5, 3.0, 4.9];
    let inclinations = [0.01, 0.5, 1.5, 1.6, 2.5, 3.1];
    let angles = [0.1, 1.0, 2.0, 3.0, 4.0, 5.0, 6.2];
    for &e in eccentricities.iter() {
        for &inc in inclinations.iter() {
            for &arg in angles.iter() {
                for &node in angles.iter() {
                    for k in 0..7 {
                        let (a, f) = if e < 1.0 {
                            (2.5, 0.3 + k as f64 * 0.9)
                        } else {
                            let limit = (-1.0f64 / e).acos();
                            (-2.5, -0.9 * limit + k as f64 * 0.3 * limit)
                        };
                        let (position, velocity) = state_of(a, e, inc, arg, node, f, MU);
                        let out = elements_of(position, velocity, MU);
                        let what = format!("{:?} -> {:?}", (a, e, inc, arg, node, f), out);
                        assert!((out[0] - a).abs() < 1e-8, "{}", what);
                        assert!((out[1] - e).abs() < 1e-8, "{}", what);
                        assert!((out[2] - inc).abs() < 1e-8, "{}", what);
                        assert!(angle_gap(out[3], arg) < 1e-8, "{}", what);
                        assert!(angle_gap(out[4], node) < 1e-8, "{}", what);
                        assert!(angle_gap(out[5], f) < 1e-8, "{}", what);
                        assert!(out[3] >= 0.0 && out[3] < 2.0 * PI + 1e-15, "{}", what);
                        assert!(out[4] >= 0.0 && out[4] < 2.0 * PI + 1e-15, "{}", what);
                    }
                }
            }
        }
    }
}

#[test]
fn inclination_zero_gives_node_zero() {
    // Motion in the reference plane: the angular momentum is along z.
    let out = elements_of([1.0, 0.2, 0.0], [-0.002, 0.018, 0.0], MU);
    assert_eq!(out[2], 0.0);
    assert_eq!(out[4].to_bits(), 0.0f64.to_bits());
    // Whatever the node vector.
    let state = StateVector::new(b(1.0), b(0.0), b(0.0), b(0.0), b(0.01), b(0.0));
    let geometry = OrbitGeometry {
        e: b(0.3),
        inc: b(0.0),
        node_vector: v3(-1.0, -1.0, 0.0),
        eccentricity_vector: v3(0.3, 0.0, 0.0),
        radial: b(0.0),
    };
    assert_eq!(plan_elements(&state, &geometry).node, NodeRule::Zero);
}

#[test]
fn eccentricity_zero_gives_argument_zero() {
    for &inc in [0.0, 1e-11, 0.7, 2.0, PI].iter() {
        let state = StateVector::new(b(1.0), b(0.0), b(0.0), b(0.0), b(0.01), b(0.01));
        let geometry = OrbitGeometry {
            e: b(0.0),
            inc: b(inc),
            node_vector: v3(-1.0, -1.0, 0.0),
            eccentricity_vector: v3(0.0, -0.0, 0.0),
            radial: b(-1.0),
        };
        let plan = plan_elements(&state, &geometry);
        assert_eq!(plan.argument, ArgumentRule::Zero);
        assert_eq!(plan.argument.exact().unwrap().to_bits(), 0);
    }
    // A circular inclined orbit, through the conversion.
    let speed = (MU / 2.0f64).sqrt();
    let (s, c) = 0.4f64.sin_cos();
    let out = elements_of([2.0, 0.0, 0.0], [0.0, speed * c, speed * s], MU);
    assert!(out[1] < 1e-10);
    assert_eq!(out[3].to_bits(), 0.0f64.to_bits());
    assert!((out[0] - 2.0).abs() < 1e-12);
    assert!((out[2] - 0.4).abs() < 1e-12);
}

#[test]
fn circular_inclined_orbit_measures_the_anomaly_from_the_node() {
    let speed = (MU / 2.0f64).sqrt();
    let inc = 0.4f64;
    for &(u, below) in [(0.5f64, false), (2.0, false), (4.0, true), (6.0, true)].iter() {
        let (su, cu) = u.sin_cos();
        let position = [2.0 * cu, 2.0 * su * inc.cos(), 2.0 * su * inc.sin()];
        let velocity = [-speed * su, speed * cu * inc.cos(), speed * cu * inc.sin()];
        let state = StateVector::new(
            b(position[0]),
            b(position[1]),
            b(position[2]),
            b(velocity[0]),
            b(velocity[1]),
            b(velocity[2]),
        );
        let rule = anomaly_rule(
            &class(Shape::NearCircular, Plane::Inclined, Energy::Bound),
            &state,
            b(0.0),
        );
        assert_eq!(rule, AnomalyRule::InclinedCircular { reflect: below });
        let out = elements_of(position, velocity, MU);
        assert_eq!(out[3], 0.0);
        assert!(out[4].abs() < 1e-9 || (out[4] - 2.0 * PI).abs() < 1e-9);
        assert!(angle_gap(out[5], u) < 1e-7, "u = {}: f = {}", u, out[5]);
    }
}

#[test]
fn planar_circular_orbit_measures_the_anomaly_from_x() {
    let speed = (MU / 2.0f64).sqrt();
    // A quarter turn on: x = 0, y = 2, moving towards negative x.
    let out = elements_of([0.0, 2.0, 0.0], [-speed, 0.0, 0.0], MU);
    assert_eq!(out[2], 0.0);
    assert_eq!(out[3], 0.0);
    assert_eq!(out[4], 0.0);
    assert!((out[5] - PI / 2.0).abs() < 1e-12);
    // Three quarters on: moving towards positive x, so reflected.
    let out = elements_of([0.0, -2.0, 0.0], [speed, 0.0, 0.0], MU);
    assert!((out[5] - 1.5 * PI).abs() < 1e-12);
}

#[test]
fn planar_eccentric_orbit_takes_the_difference_of_two_angles() {
    // Pericenter at longitude 0.5, body at longitude 1.3, both in the upper
    // half plane, prograde.
    let (a, e) = (2.5f64, 0.3f64);
    let (position, velocity) = state_of(a, e, 0.0, 0.5, 0.0, 0.8, MU);
    let out = elements_of(position, velocity, MU);
    assert_eq!(out[2], 0.0);
    assert_eq!(out[4], 0.0);
    assert!((out[0] - a).abs() < 1e-10);
    assert!((out[1] - e).abs() < 1e-10);
    assert!((out[3] - 0.5).abs() < 1e-9);
    assert!((out[5] - 0.8).abs() < 1e-9);
}

#[test]
fn planar_eccentric_orbit_uses_principal_angles() {
    // Pericenter at longitude 4 and body at longitude 4.8, both below the x
    // axis: the two principal angles are 2 pi - 4.8 and 2 pi - 4, and the
    // anomaly is their difference.
    let (position, velocity) = state_of(2.5, 0.3, 0.0, 4.0, 0.0, 0.8, MU);
    let out = elements_of(position, velocity, MU);
    assert_eq!(out[2], 0.0);
    assert_eq!(out[4], 0.0);
    assert!((out[3] - 4.0).abs() < 1e-9);
    assert!((out[5] - ((2.0 * PI - 4.8) - (2.0 * PI - 4.0))).abs() < 1e-9, "f = {}", out[5]);
}

#[test]
fn planar_retrograde_orbit_reverses_the_differences() {
    // Inclination pi: the orbit runs clockwise in the reference plane.
    let (a, e) = (2.5f64, 0.3f64);
    let w = 0.5f64;
    let f = 0.8f64;
    // In the plane, the longitude decreases along the motion.
    let p = a * (1.0 - e * e);
    let r = p / (1.0 + e * f.cos());
    let longitude = -(w + f);
    let k = (MU / p).sqrt();
    let position = [r * longitude.cos(), r * longitude.sin(), 0.0];
    // Perifocal velocity, mirrored in the x axis and turned to the pericenter.
    let (vxp, vyp) = (-k * f.sin(), k * (e + f.cos()));
    let (sw, cw) = (-w).sin_cos();
    let velocity = [cw * vxp - sw * (-vyp), sw * vxp + cw * (-vyp), 0.0];
    let out = elements_of(position, velocity, MU);
    assert_eq!(out[2], PI);
    assert!((out[0] - a).abs() < 1e-10);
    assert!((out[1] - e).abs() < 1e-10);
    let state = StateVector::new(
        b(position[0]),
        b(position[1]),
        b(position[2]),
        b(velocity[0]),
        b(velocity[1]),
        b(velocity[2]),
    );
    let cls = classify(b(out[1]), b(out[2]));
    assert_eq!(cls.plane, Plane::EquatorialRetrograde);
    assert_eq!(
        anomaly_rule(&cls, &state, b(dot(position, velocity))),
        AnomalyRule::PlanarEccentric { retrograde: true }
    );
    // Pericenter at longitude -0.5: its principal angle is 0.5; the body at
    // longitude -1.3: its principal angle is 1.3.
    assert!((out[5] - (0.5 - 1.3)).abs() < 1e-9, "f = {}", out[5]);
}

#[test]
fn hyperbolic_anomaly_changes_sign_at_pericenter() {
    let (a, e) = (-2.5f64, 1.8f64);
    for &f in [-1.5f64, -0.4, 0.4, 1.5].iter() {
        let (position, velocity) = state_of(a, e, 0.6, 1.0, 2.0, f, MU);
        let out = elements_of(position, velocity, MU);
        assert!((out[0] - a).abs() < 1e-9);
        assert!((out[5] - f).abs() < 1e-9, "f = {} -> {}", f, out[5]);
    }
    // At the pericenter itself the argument of the inverse hyperbolic cosine
    // is one up to rounding, and the anomaly is zero, not a NaN.
    let (position, velocity) = state_of(a, e, 0.6, 1.0, 2.0, 0.0, MU);
    let out = elements_of(position, velocity, MU);
    assert!(out[5].abs() < 1e-4, "{}", out[5]);
}

#[test]
fn a_state_at_the_center_gives_nan() {
    let out = elements_of([0.0, 0.0, 0.0], [0.0, 0.01, 0.0], MU);
    assert!(out[1].is_nan());
}
