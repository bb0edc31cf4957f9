//! Cartesian states: a position and a velocity relative to a chosen center.

use vstd::prelude::*;
use crate::binary64::Binary64;

verus! {

/// Three components in a Cartesian frame.
#[derive(Clone, Copy, Debug, PartialEq, Eq, Structural)]
pub struct Vector3 {
    pub x: Binary64,
    pub y: Binary64,
    pub z: Binary64,
}

impl Vector3 {
    pub fn new(x: Binary64, y: Binary64, z: Binary64) -> (v: Vector3)
        ensures
            v == (Vector3 { x, y, z }),
    {
        Vector3 { x, y, z }
    }

    /// No component is a NaN or an infinity.
    pub open spec fn finite(self) -> bool {
        &&& self.x.finite()
        &&& self.y.finite()
        &&& self.z.finite()
    }

    pub fn is_finite(&self) -> (r: bool)
        ensures
            r == self.finite(),
    {
        self.x.is_finite() && self.y.is_finite() && self.z.is_finite()
    }
}

/// A position (length units) and a velocity (length per time).
#[derive(Clone, Copy, Debug, PartialEq, Eq, Structural)]
pub struct StateVector {
    pub position: Vector3,
    pub velocity: Vector3,
}

impl StateVector {
    pub fn new(
        x: Binary64,
        y: Binary64,
        z: Binary64,
        vx: Binary64,
        vy: Binary64,
        vz: Binary64,
    ) -> (state: StateVector)
        ensures
            state.position == (Vector3 { x, y, z }),
            state.velocity == (Vector3 { x: vx, y: vy, z: vz }),
    {
        StateVector { position: Vector3::new(x, y, z), velocity: Vector3::new(vx, vy, vz) }
    }
}

} // verus!
