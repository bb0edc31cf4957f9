//! The branch structure of the conversion from a Cartesian state to
//! classical elements.
//!
//! The conversion computes a handful of vectors from the state (angular
//! momentum, eccentricity vector, node vector) and then picks, for each
//! angle, one of several closed forms, depending on how close the orbit is to
//! a circle and to the reference plane and on whether it is bound. This
//! module classifies the orbit and picks the forms; evaluating them is
//! floating-point work that its caller does.

use vstd::prelude::*;
use crate::binary64::Binary64;
use crate::binary64::ONE_BITS;
use crate::binary64::one;
use crate::binary64::zero;
use crate::binary64::MINUS_ONE_BITS;
use crate::binary64::lemma_scaled_magnitude_increases;
use crate::binary64::lemma_rounds;
use crate::binary64::lemma_pow2_values;
use crate::keplerorbit::PI_BITS;
use vstd::arithmetic::power2::pow2;
use vstd::arithmetic::power2::lemma_pow2_adds;
use vstd::arithmetic::power2::lemma_pow2_pos;
use vstd::arithmetic::power2::lemma_pow2_unfold;
use vstd::arithmetic::power2::lemma2_to64_rest;
use crate::statevector::StateVector;
use crate::statevector::Vector3;

verus! {

/// The pattern of `1e-10`: an eccentricity below it is treated as zero.
pub const NEAR_CIRCULAR_BITS: u64 = 0x3ddb_7cdf_d9d7_bdbb;

/// The pattern of `1e-10`: an inclination below it is treated as zero.
pub const NEAR_PLANAR_BITS: u64 = 0x3ddb_7cdf_d9d7_bdbb;

/// The pattern of `pi - 1e-10`, as double arithmetic rounds it: an
/// inclination above it is treated as pi.
pub const NEAR_RETROGRADE_BITS: u64 = 0x4009_21fb_5440_bd7c;

/// The pattern of `pi / 2`.
pub const HALF_PI_BITS: u64 = 0x3ff9_21fb_5444_2d18;

/// The pattern of `1e-10`: an argument of the inverse hyperbolic cosine
/// closer than this to one is taken to be one.
pub const UNIT_SNAP_BITS: u64 = 0x3ddb_7cdf_d9d7_bdbb;

/// How far the orbit is from a circle.
#[derive(Clone, Copy, Debug, PartialEq, Eq, Structural)]
pub enum Shape {
    /// Eccentricity below `1e-10`: the pericenter is not defined.
    NearCircular,
    /// Any other eccentricity, a NaN included.
    Eccentric,
}

/// How the orbit lies to the reference plane.
#[derive(Clone, Copy, Debug, PartialEq, Eq, Structural)]
pub enum Plane {
    /// Inclination below `1e-10`: in the plane, moving with the frame.
    EquatorialPrograde,
    /// Inclination above `pi - 1e-10`: in the plane, moving against the frame.
    EquatorialRetrograde,
    /// Any other inclination, a NaN included: the node is defined.
    Inclined,
}

/// Whether the orbit closes.
#[derive(Clone, Copy, Debug, PartialEq, Eq, Structural)]
pub enum Energy {
    /// Eccentricity below one.
    Bound,
    /// Eccentricity of one or more, or a NaN.
    Unbound,
}

/// The regime of an orbit: one tag per axis of the branch structure.
#[derive(Clone, Copy, Debug, PartialEq, Eq, Structural)]
pub struct OrbitClass {
    pub shape: Shape,
    pub plane: Plane,
    pub energy: Energy,
}

/// How the longitude of the ascending node is obtained.
#[derive(Clone, Copy, Debug, PartialEq, Eq, Structural)]
pub enum NodeRule {
    /// The node is exactly zero; nothing is evaluated.
    Zero,
    /// The node is `acos(n.x / |n|)`.
    Principal,
    /// The node is `2 pi - acos(n.x / |n|)`.
    Reflected,
}

/// How the argument of pericenter is obtained.
#[derive(Clone, Copy, Debug, PartialEq, Eq, Structural)]
pub enum ArgumentRule {
    /// The argument is exactly zero; nothing is evaluated.
    Zero,
    /// From the longitude of pericenter `w = acos(e.x / |e|)`, taken as
    /// `2 pi - w` where `reflect_pericenter` holds: the argument is
    /// `w - node`, or `node - w` where `retrograde` holds.
    Planar { reflect_pericenter: bool, retrograde: bool },
    /// The angle from the node vector to the eccentricity vector,
    /// `acos(n . e / (|n| |e|))`, taken from `2 pi` where `reflect` holds.
    General { reflect: bool },
}

/// How the true anomaly is obtained. `theta` is `acos(x / r)` and `w` is
/// `acos(e.x / |e|)`.
#[derive(Clone, Copy, Debug, PartialEq, Eq, Structural)]
pub enum AnomalyRule {
    /// `theta - w`, or `w - theta` where `retrograde` holds.
    PlanarEccentric { retrograde: bool },
    /// `theta`, taken from `2 pi` where `reflect` holds.
    PlanarCircular { reflect: bool },
    /// `acos(e . r / (|e| r))`, taken from `2 pi` where `reflect` holds.
    InclinedEccentric { reflect: bool },
    /// `acos(n . r / (|n| r))`, taken from `2 pi` where `reflect` holds.
    InclinedCircular { reflect: bool },
    /// Through the hyperbolic anomaly `acosh((1 - r / a) / e)`, negated
    /// where `inbound` holds, by the half-angle formula.
    Unbound { inbound: bool },
}

impl NodeRule {
    /// The node where the rule fixes it without arithmetic: positive zero.
    pub open spec fn exact_value(self) -> Option<Binary64> {
        match self {
            NodeRule::Zero => Some(Binary64 { bits: 0 }),
            _ => None,
        }
    }

    /// The node, where the rule fixes it without arithmetic.
    pub fn exact(&self) -> (value: Option<Binary64>)
        ensures
            value == self.exact_value(),
    {
        match self {
            NodeRule::Zero => Some(Binary64::zero_value()),
            _ => None,
        }
    }
}

impl ArgumentRule {
    /// The argument where the rule fixes it without arithmetic: positive zero.
    pub open spec fn exact_value(self) -> Option<Binary64> {
        match self {
            ArgumentRule::Zero => Some(Binary64 { bits: 0 }),
            _ => None,
        }
    }

    /// The argument, where the rule fixes it without arithmetic.
    pub fn exact(&self) -> (value: Option<Binary64>)
        ensures
            value == self.exact_value(),
    {
        match self {
            ArgumentRule::Zero => Some(Binary64::zero_value()),
            _ => None,
        }
    }
}

/// What the decisions read, beside the state itself.
#[derive(Clone, Copy, Debug, PartialEq, Eq, Structural)]
pub struct OrbitGeometry {
    /// Eccentricity: the length of the eccentricity vector.
    pub e: Binary64,
    /// Inclination: the angle of the angular momentum to the z axis.
    pub inc: Binary64,
    /// The node vector `(-h.y, h.x, 0)` of the angular momentum `h`.
    pub node_vector: Vector3,
    /// The eccentricity vector, pointing to the pericenter.
    pub eccentricity_vector: Vector3,
    /// Position times velocity: negative on the way in to the pericenter.
    pub radial: Binary64,
}

/// The form chosen for each angle, with the regime they were chosen in.
#[derive(Clone, Copy, Debug, PartialEq, Eq, Structural)]
pub struct ElementPlan {
    pub class: OrbitClass,
    pub node: NodeRule,
    pub argument: ArgumentRule,
    pub anomaly: AnomalyRule,
}

/// The node vector `(-h.y, h.x, 0)` of an angular momentum `h`: it lies in
/// the reference plane and points to the ascending node.
pub open spec fn node_vector_of(angular_momentum: Vector3) -> Vector3 {
    Vector3 { x: angular_momentum.y.negated(), y: angular_momentum.x, z: zero() }
}

pub open spec fn shape_of(e: Binary64) -> Shape {
    if e.less(Binary64 { bits: NEAR_CIRCULAR_BITS }) {
        Shape::NearCircular
    } else {
        Shape::Eccentric
    }
}

pub open spec fn plane_of(inc: Binary64) -> Plane {
    if inc.less(Binary64 { bits: NEAR_PLANAR_BITS }) {
        Plane::EquatorialPrograde
    } else if (Binary64 { bits: NEAR_RETROGRADE_BITS }).less(inc) {
        Plane::EquatorialRetrograde
    } else {
        Plane::Inclined
    }
}

pub open spec fn energy_of(e: Binary64) -> Energy {
    if e.less(one()) {
        Energy::Bound
    } else {
        Energy::Unbound
    }
}

pub open spec fn class_of(e: Binary64, inc: Binary64) -> OrbitClass {
    OrbitClass { shape: shape_of(e), plane: plane_of(inc), energy: energy_of(e) }
}

/// Zero on an orbit of inclination zero, whatever the node vector; elsewhere
/// the principal angle, reflected where the node vector points to negative y.
pub open spec fn node_rule_of(inc: Binary64, node_vector: Vector3) -> NodeRule {
    if inc.zero() {
        NodeRule::Zero
    } else if node_vector.y.less(zero()) {
        NodeRule::Reflected
    } else {
        NodeRule::Principal
    }
}

/// Near-circular first, then near-equatorial, then the general form.
pub open spec fn argument_rule_of(class: OrbitClass, eccentricity_vector: Vector3) -> ArgumentRule {
    if class.shape == Shape::NearCircular {
        ArgumentRule::Zero
    } else if class.plane != Plane::Inclined {
        ArgumentRule::Planar {
            reflect_pericenter: eccentricity_vector.y.less(zero()),
            retrograde: class.plane == Plane::EquatorialRetrograde,
        }
    } else {
        ArgumentRule::General { reflect: eccentricity_vector.z.less(zero()) }
    }
}

/// Unbound first; a bound orbit by plane, then by shape.
pub open spec fn anomaly_rule_of(
    class: OrbitClass,
    state: StateVector,
    radial: Binary64,
) -> AnomalyRule {
    if class.energy == Energy::Unbound {
        AnomalyRule::Unbound { inbound: radial.less(zero()) }
    } else if class.plane != Plane::Inclined {
        if class.shape == Shape::Eccentric {
            AnomalyRule::PlanarEccentric { retrograde: class.plane == Plane::EquatorialRetrograde }
        } else {
            AnomalyRule::PlanarCircular { reflect: zero().less(state.velocity.x) }
        }
    } else {
        if class.shape == Shape::Eccentric {
            AnomalyRule::InclinedEccentric { reflect: radial.less(zero()) }
        } else {
            AnomalyRule::InclinedCircular { reflect: state.position.z.less(zero()) }
        }
    }
}

pub open spec fn plan_of(state: StateVector, geometry: OrbitGeometry) -> ElementPlan {
    let class = class_of(geometry.e, geometry.inc);
    ElementPlan {
        class,
        node: node_rule_of(geometry.inc, geometry.node_vector),
        argument: argument_rule_of(class, geometry.eccentricity_vector),
        anomaly: anomaly_rule_of(class, state, geometry.radial),
    }
}

/// A cosine brought back into `[-1, 1]`: rounding can carry a computed ratio
/// just outside the domain of the inverse cosine. A NaN stays.
pub open spec fn clamped_cosine(x: Binary64) -> Binary64 {
    if one().less(x) {
        one()
    } else if x.less(Binary64 { bits: MINUS_ONE_BITS }) {
        Binary64 { bits: MINUS_ONE_BITS }
    } else {
        x
    }
}

/// The argument of the inverse hyperbolic cosine: one where `deviation`, the
/// argument minus one, is below `1e-10` in absolute value; else the argument.
pub open spec fn snapped_argument(argument: Binary64, deviation: Binary64) -> Binary64 {
    if !deviation.nan() && (-(Binary64 { bits: UNIT_SNAP_BITS }).scaled() < deviation.scaled()
        < (Binary64 { bits: UNIT_SNAP_BITS }).scaled()) {
        one()
    } else {
        argument
    }
}

/// The node vector of an angular momentum; no rounding is involved.
pub fn node_vector(angular_momentum: &Vector3) -> (n: Vector3)
    ensures
        n == node_vector_of(*angular_momentum),
{
    Vector3::new(angular_momentum.y.neg(), angular_momentum.x, Binary64::zero_value())
}

pub fn classify_shape(e: Binary64) -> (shape: Shape)
    ensures
        shape == shape_of(e),
{
    if e.lt(Binary64::from_bits(NEAR_CIRCULAR_BITS)) {
        Shape::NearCircular
    } else {
        Shape::Eccentric
    }
}

pub fn classify_plane(inc: Binary64) -> (plane: Plane)
    ensures
        plane == plane_of(inc),
{
    if inc.lt(Binary64::from_bits(NEAR_PLANAR_BITS)) {
        Plane::EquatorialPrograde
    } else if inc.gt(Binary64::from_bits(NEAR_RETROGRADE_BITS)) {
        Plane::EquatorialRetrograde
    } else {
        Plane::Inclined
    }
}

pub fn classify_energy(e: Binary64) -> (energy: Energy)
    ensures
        energy == energy_of(e),
{
    if e.lt(Binary64::from_bits(ONE_BITS)) {
        Energy::Bound
    } else {
        Energy::Unbound
    }
}

/// The regime of an orbit of eccentricity `e` and inclination `inc`.
pub fn classify(e: Binary64, inc: Binary64) -> (class: OrbitClass)
    ensures
        class == class_of(e, inc),
{
    OrbitClass { shape: classify_shape(e), plane: classify_plane(inc), energy: classify_energy(e) }
}

pub fn node_rule(inc: Binary64, node_vector: &Vector3) -> (rule: NodeRule)
    ensures
        rule == node_rule_of(inc, *node_vector),
        inc.zero() ==> rule == NodeRule::Zero,
{
    if inc.is_zero() {
        NodeRule::Zero
    } else if node_vector.y.lt(Binary64::zero_value()) {
        NodeRule::Reflected
    } else {
        NodeRule::Principal
    }
}

pub fn argument_rule(class: &OrbitClass, eccentricity_vector: &Vector3) -> (rule: ArgumentRule)
    ensures
        rule == argument_rule_of(*class, *eccentricity_vector),
{
    let zero: Binary64 = Binary64::zero_value();
    match class.shape {
        Shape::NearCircular => ArgumentRule::Zero,
        Shape::Eccentric => match class.plane {
            Plane::EquatorialPrograde => ArgumentRule::Planar {
                reflect_pericenter: eccentricity_vector.y.lt(zero),
                retrograde: false,
            },
            Plane::EquatorialRetrograde => ArgumentRule::Planar {
                reflect_pericenter: eccentricity_vector.y.lt(zero),
                retrograde: true,
            },
            Plane::Inclined => ArgumentRule::General { reflect: eccentricity_vector.z.lt(zero) },
        },
    }
}

pub fn anomaly_rule(class: &OrbitClass, state: &StateVector, radial: Binary64) -> (rule:
    AnomalyRule)
    ensures
        rule == anomaly_rule_of(*class, *state, radial),
{
    let zero: Binary64 = Binary64::zero_value();
    match class.energy {
        Energy::Unbound => AnomalyRule::Unbound { inbound: radial.lt(zero) },
        Energy::Bound => match class.plane {
            Plane::Inclined => match class.shape {
                Shape::Eccentric => AnomalyRule::InclinedEccentric { reflect: radial.lt(zero) },
                Shape::NearCircular => AnomalyRule::InclinedCircular {
                    reflect: state.position.z.lt(zero),
                },
            },
            Plane::EquatorialPrograde => match class.shape {
                Shape::Eccentric => AnomalyRule::PlanarEccentric { retrograde: false },
                Shape::NearCircular => AnomalyRule::PlanarCircular {
                    reflect: state.velocity.x.gt(zero),
                },
            },
            Plane::EquatorialRetrograde => match class.shape {
                Shape::Eccentric => AnomalyRule::PlanarEccentric { retrograde: true },
                Shape::NearCircular => AnomalyRule::PlanarCircular {
                    reflect: state.velocity.x.gt(zero),
                },
            },
        },
    }
}

/// Classifies the orbit and picks the form of each angle.
pub fn plan_elements(state: &StateVector, geometry: &OrbitGeometry) -> (plan: ElementPlan)
    ensures
        plan == plan_of(*state, *geometry),
        geometry.inc.zero() ==> plan.node == NodeRule::Zero,
        geometry.e.zero() ==> plan.argument == ArgumentRule::Zero,
{
    proof {
        lemma_degenerate_angles(*state, *geometry);
    }
    let class: OrbitClass = classify(geometry.e, geometry.inc);
    ElementPlan {
        class,
        node: node_rule(geometry.inc, &geometry.node_vector),
        argument: argument_rule(&class, &geometry.eccentricity_vector),
        anomaly: anomaly_rule(&class, state, geometry.radial),
    }
}

/// Brings a computed cosine back into `[-1, 1]`.
pub fn clamp_cosine(x: Binary64) -> (out: Binary64)
    ensures
        out == clamped_cosine(x),
        x.nan() ==> out == x,
        !x.nan() ==> (Binary64 { bits: MINUS_ONE_BITS }).at_most(out) && out.at_most(one()),
{
    let one: Binary64 = Binary64::from_bits(ONE_BITS);
    let minus_one: Binary64 = one.neg();
    if x.gt(one) {
        one
    } else if x.lt(minus_one) {
        minus_one
    } else {
        x
    }
}

/// The argument handed to the inverse hyperbolic cosine.
pub fn snap_argument(argument: Binary64, deviation: Binary64) -> (out: Binary64)
    ensures
        out == snapped_argument(argument, deviation),
{
    let magnitude: Binary64 = deviation.abs();
    if magnitude.lt(Binary64::from_bits(UNIT_SNAP_BITS)) {
        Binary64::from_bits(ONE_BITS)
    } else {
        argument
    }
}

/// The three `1e-10` thresholds are the double nearest to `10^-10`; the
/// right angle is half the double pi, exactly; and the retrograde threshold
/// is the double pi less the double `1e-10`, rounded to nearest.
pub proof fn lemma_thresholds_denote()
    ensures
        (Binary64 { bits: NEAR_CIRCULAR_BITS }).rounds(1, 10_000_000_000),
        (Binary64 { bits: NEAR_PLANAR_BITS }).rounds(1, 10_000_000_000),
        (Binary64 { bits: UNIT_SNAP_BITS }).rounds(1, 10_000_000_000),
        2 * (Binary64 { bits: HALF_PI_BITS }).scaled() == (Binary64 { bits: PI_BITS }).scaled(),
        ({
            let exact = (Binary64 { bits: PI_BITS }).scaled() - (Binary64 {
                bits: NEAR_PLANAR_BITS,
            }).scaled();
            let rounded = (Binary64 { bits: NEAR_RETROGRADE_BITS }).scaled();
            let half_unit = pow2(1022);
            -half_unit <= rounded - exact <= half_unit
        }),
{
    lemma_pow2_values();
    let eps = Binary64 { bits: NEAR_CIRCULAR_BITS };
    assert(eps.exponent_field() == 989);
    assert(eps.significand() == 7737125245533627);
    lemma_rounds(eps, 1, 10_000_000_000, 86);

    let pi = Binary64 { bits: PI_BITS };
    let half = Binary64 { bits: HALF_PI_BITS };
    let limit = Binary64 { bits: NEAR_RETROGRADE_BITS };
    assert(pi.unsigned_bits() / 0x10_0000_0000_0000 == 1024);
    assert(half.unsigned_bits() / 0x10_0000_0000_0000 == 1023);
    assert(limit.unsigned_bits() / 0x10_0000_0000_0000 == 1024);
    assert(eps.unsigned_bits() / 0x10_0000_0000_0000 == 989);
    let unit = pow2(988) as int;
    let half_ulp = pow2(1022) as int;
    let ulp = pow2(1023) as int;
    lemma_pow2_unfold(1023);
    lemma_pow2_adds(35, 988);
    lemma_pow2_adds(34, 988);
    lemma2_to64_rest();
    assert(pi.scaled() == 7074237752028440 * ulp);
    assert(half.scaled() == 7074237752028440 * half_ulp);
    assert(limit.scaled() == 7074237751803260 * ulp);
    assert(eps.scaled() == 7737125245533627 * unit);
    assert(ulp == 0x8_0000_0000 * unit);
    assert(half_ulp == 0x4_0000_0000 * unit);
    // In units of 2^988: pi is 7074237752028440 * 2^35, the threshold
    // 7074237751803260 * 2^35, and half a unit in the last place 2^34.
    assert(limit.scaled() - (pi.scaled() - eps.scaled()) == (7074237751803260 * 0x8_0000_0000
        - 7074237752028440 * 0x8_0000_0000 + 7737125245533627) * unit) by (nonlinear_arith)
        requires
            pi.scaled() == 7074237752028440 * ulp,
            limit.scaled() == 7074237751803260 * ulp,
            eps.scaled() == 7737125245533627 * unit,
            ulp == 0x8_0000_0000 * unit,
    ;
    lemma_pow2_pos(988);
    assert((7074237751803260 * 0x8_0000_0000 - 7074237752028440 * 0x8_0000_0000
        + 7737125245533627) * unit <= 0x4_0000_0000 * unit) by (nonlinear_arith)
        requires
            unit > 0,
    ;
    assert(-(0x4_0000_0000 * unit) <= (7074237751803260 * 0x8_0000_0000 - 7074237752028440
        * 0x8_0000_0000 + 7737125245533627) * unit) by (nonlinear_arith)
        requires
            unit > 0,
    ;
}

/// Degenerate angles are exact: an inclination of zero fixes the node at
/// zero and an eccentricity of zero fixes the argument of pericenter at zero,
/// whatever the rest of the input.
pub proof fn lemma_degenerate_angles(state: StateVector, geometry: OrbitGeometry)
    ensures
        geometry.inc.zero() ==> plan_of(state, geometry).node == NodeRule::Zero,
        geometry.inc.zero() ==> plan_of(state, geometry).node.exact_value() == Some(zero()),
        geometry.e.zero() ==> plan_of(state, geometry).argument == ArgumentRule::Zero,
        geometry.e.zero() ==> plan_of(state, geometry).argument.exact_value() == Some(zero()),
{
    if geometry.e.zero() {
        lemma_scaled_magnitude_increases(0, NEAR_CIRCULAR_BITS as nat);
    }
}

/// An orbit treated as circular is bound.
pub proof fn lemma_near_circular_is_bound(e: Binary64)
    requires
        shape_of(e) == Shape::NearCircular,
    ensures
        energy_of(e) == Energy::Bound,
{
    lemma_scaled_magnitude_increases(NEAR_CIRCULAR_BITS as nat, ONE_BITS as nat);
}

/// In the reference plane, an orbit is prograde exactly where its inclination
/// is below a right angle.
pub proof fn lemma_planar_sense(inc: Binary64)
    requires
        plane_of(inc) != Plane::Inclined,
    ensures
        (plane_of(inc) == Plane::EquatorialPrograde) == inc.less(Binary64 { bits: HALF_PI_BITS }),
{
    lemma_scaled_magnitude_increases(NEAR_PLANAR_BITS as nat, HALF_PI_BITS as nat);
    lemma_scaled_magnitude_increases(HALF_PI_BITS as nat, NEAR_RETROGRADE_BITS as nat);
}

} // verus!
