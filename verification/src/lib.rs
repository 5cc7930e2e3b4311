//! A mass-spring cloth simulation over a static spherical obstacle.
//!
//! The cloth is a rectangular grid of point masses joined by structural,
//! shear and bend springs.  Each tick recomputes spring lengths, integrates
//! spring and gravity forces with semi-implicit Euler, resolves collision
//! against the sphere, and recomputes shading normals.
//!
//! All scalar quantities are fixed-point numbers: an `i64` holds the value
//! multiplied by `fixed::FX_ONE`.  Arithmetic saturates at `fixed::FX_BOUND`,
//! so every operation is total and the whole simulation is a deterministic
//! function of its inputs.

use vstd::prelude::*;

pub mod clothe;
pub mod data_containers;
pub mod fixed;
pub mod laws;
pub mod node;
pub mod spring;
pub mod vec3;

verus! {

/// Number of vertices handled by one worker of a parallel dispatch.
pub const WORKER_SIZE: u32 = 255;

/// How many workers are needed so that `nb` vertices get one slot each:
/// `nb / WORKER_SIZE`, rounded up.
pub fn get_workers(nb: u32) -> (r: u32)
    ensures
        r == (nb + WORKER_SIZE - 1) as int / WORKER_SIZE as int,
{
    if nb % WORKER_SIZE == 0 {
        nb / WORKER_SIZE
    } else {
        (nb / WORKER_SIZE) + 1
    }
}

} // verus!
