//! Classical orbital elements.

use vstd::prelude::*;
use crate::binary64::Binary64;
use crate::binary64::lemma_pow2_values;
use crate::binary64::lemma_rounds;
use vstd::arithmetic::power2::pow2;
use vstd::arithmetic::power2::lemma_pow2_unfold;

verus! {

/// The pattern of pi, as a double.
pub const PI_BITS: u64 = 0x4009_21fb_5444_2d18;

/// The pattern of two pi, as a double.
pub const TWO_PI_BITS: u64 = 0x4019_21fb_5444_2d18;

/// Six elements of a two-body orbit, angles in radians.
///
/// The semi-major axis is signed: it is negative on a hyperbola. Where an
/// angle has no geometric meaning (the node of an equatorial orbit, the
/// argument of pericenter of a circle) it is zero by convention.
#[derive(Clone, Copy, Debug, PartialEq, Eq, Structural)]
pub struct KeplerOrbit {
    /// Semi-major axis.
    pub a: Binary64,
    /// Eccentricity.
    pub e: Binary64,
    /// Inclination.
    pub inc: Binary64,
    /// Argument of pericenter.
    pub arg: Binary64,
    /// Longitude of the ascending node.
    pub node: Binary64,
    /// True anomaly.
    pub f: Binary64,
}

/// `0 <= x < 2 pi`.
pub open spec fn in_turn(x: Binary64) -> bool {
    (Binary64 { bits: 0 }).at_most(x) && x.less(Binary64 { bits: TWO_PI_BITS })
}

impl KeplerOrbit {
    pub fn new(
        a: Binary64,
        e: Binary64,
        inc: Binary64,
        arg: Binary64,
        node: Binary64,
        f: Binary64,
    ) -> (orbit: KeplerOrbit)
        ensures
            orbit == (KeplerOrbit { a, e, inc, arg, node, f }),
    {
        KeplerOrbit { a, e, inc, arg, node, f }
    }

    /// The elements are in their ranges: the eccentricity is not negative, the
    /// inclination lies in `[0, pi]`, the argument of pericenter and the node
    /// lie in `[0, 2 pi)`. No NaN passes.
    pub open spec fn in_range(self) -> bool {
        &&& (Binary64 { bits: 0 }).at_most(self.e)
        &&& (Binary64 { bits: 0 }).at_most(self.inc)
        &&& self.inc.at_most(Binary64 { bits: PI_BITS })
        &&& in_turn(self.arg)
        &&& in_turn(self.node)
    }

    /// Whether the elements are in their ranges.
    pub fn is_in_range(&self) -> (r: bool)
        ensures
            r == self.in_range(),
    {
        let zero: Binary64 = Binary64::zero_value();
        let turn: Binary64 = Binary64::from_bits(TWO_PI_BITS);
        zero.le(self.e) && zero.le(self.inc) && self.inc.le(Binary64::from_bits(PI_BITS))
            && zero.le(self.arg) && self.arg.lt(turn) && zero.le(self.node) && self.node.lt(
            turn,
        )
    }

    /// No element is a NaN or an infinity.
    pub open spec fn finite(self) -> bool {
        &&& self.a.finite()
        &&& self.e.finite()
        &&& self.inc.finite()
        &&& self.arg.finite()
        &&& self.node.finite()
        &&& self.f.finite()
    }

    pub fn is_finite(&self) -> (r: bool)
        ensures
            r == self.finite(),
    {
        self.a.is_finite() && self.e.is_finite() && self.inc.is_finite() && self.arg.is_finite()
            && self.node.is_finite() && self.f.is_finite()
    }
}

/// The double pi is a double nearest to pi: it lies within half a unit in
/// its last place of both 3.14159265358979323846 and 3.14159265358979323847,
/// which enclose pi. The double two pi is twice the double pi, exactly.
pub proof fn lemma_pi_denotes()
    ensures
        (Binary64 { bits: PI_BITS }).rounds(
            314_159_265_358_979_323_846,
            100_000_000_000_000_000_000,
        ),
        (Binary64 { bits: PI_BITS }).rounds(
            314_159_265_358_979_323_847,
            100_000_000_000_000_000_000,
        ),
        (Binary64 { bits: TWO_PI_BITS }).scaled() == 2 * (Binary64 { bits: PI_BITS }).scaled(),
{
    let pi = Binary64 { bits: PI_BITS };
    let turn = Binary64 { bits: TWO_PI_BITS };
    lemma_pow2_values();
    assert(pi.exponent_field() == 1024);
    assert(pi.significand() == 7074237752028440);
    lemma_rounds(pi, 314_159_265_358_979_323_846, 100_000_000_000_000_000_000, 51);
    lemma_rounds(pi, 314_159_265_358_979_323_847, 100_000_000_000_000_000_000, 51);
    assert(turn.exponent_field() == 1025);
    assert(turn.significand() == 7074237752028440);
    lemma_pow2_unfold(1024);
    let weight = pow2(1023) as int;
    assert(pi.scaled() == 7074237752028440 * weight);
    assert(turn.scaled() == 7074237752028440 * (2 * weight));
    assert(7074237752028440 * (2 * weight) == 2 * (7074237752028440 * weight))
        by (nonlinear_arith);
}

} // verus!
