//! Plain data consumed or produced at the simulation boundary.

use vstd::prelude::*;

use crate::fixed::in_range;

verus! {

/// The static spherical obstacle, re-supplied on every tick.
#[derive(Clone, Copy, PartialEq, Eq, Structural, Debug)]
pub struct Sphere {
    pub x: i64,
    pub y: i64,
    pub z: i64,
    pub radius: i64,
    pub friction_factor: i64,
}

impl Sphere {
    /// Centre and radius are representable fixed-point values.
    pub open spec fn wf(self) -> bool {
        in_range(self.x as int) && in_range(self.y as int) && in_range(self.z as int) && in_range(
            self.radius as int,
        )
    }
}

/// A read-only description of a cloth, for hosts that keep one uniform
/// record per cloth instance.
#[derive(Clone, Copy, PartialEq, Eq, Structural, Debug)]
pub struct ClotheData {
    pub center_x: i64,
    pub center_y: i64,
    pub center_z: i64,
    pub nb_vertices: u32,
    pub mass: i64,
}

/// The physical parameters of one tick.  All tunable constants are explicit
/// per-tick inputs, so runs are reproducible.
#[derive(Clone, Copy, PartialEq, Eq, Structural, Debug)]
pub struct ComputeData {
    pub spring_constant: i64,
    pub damping_factor: i64,
    pub gravity: i64,
    pub delta_time: i64,
    pub mass: i64,
}

} // verus!
