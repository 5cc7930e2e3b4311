//! One point mass of the cloth.

use vstd::prelude::*;

use crate::vec3::Vec3;

verus! {

/// Texture coordinates of a vertex, as fixed-point values in `[0, FX_ONE]`.
#[derive(Clone, Copy, PartialEq, Eq, Structural, Debug)]
pub struct TexCoords {
    pub u: i64,
    pub v: i64,
}

/// A cloth vertex: its position, shading normal, velocity, the force
/// accumulated for the current tick, and its texture coordinates.
#[derive(Clone, Copy, PartialEq, Eq, Structural, Debug)]
pub struct Node {
    pub position: Vec3,
    pub normal: Vec3,
    pub velocity: Vec3,
    pub resultant: Vec3,
    pub tex_coords: TexCoords,
}

impl Node {
    /// Every vector field is within the representable fixed-point range.
    pub open spec fn wf(self) -> bool {
        self.position.wf() && self.normal.wf() && self.velocity.wf() && self.resultant.wf()
    }
}

} // verus!
