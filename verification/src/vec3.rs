//! Three-component fixed-point vectors.
//!
//! The view of a [`Vec3`] is a triple of mathematical integers; all vector
//! operations are specified on such triples with the saturating scalar
//! arithmetic of [`crate::fixed`].

use vstd::prelude::*;

use crate::fixed::fx_add;
use crate::fixed::fx_add_s;
use crate::fixed::fx_mul;
use crate::fixed::fx_mul_s;
use crate::fixed::fx_sub;
use crate::fixed::fx_sub_s;
use crate::fixed::in_range;
use crate::fixed::isqrt;
use crate::fixed::lemma_sqrt_floor_unique;
use crate::fixed::sat_s;
use crate::fixed::sqrt_floor;
use crate::fixed::FX_BOUND;

verus! {

/// A vector of three fixed-point coordinates.
#[derive(Clone, Copy, PartialEq, Eq, Structural, Debug)]
pub struct Vec3 {
    pub x: i64,
    pub y: i64,
    pub z: i64,
}

impl View for Vec3 {
    type V = (int, int, int);

    open spec fn view(&self) -> (int, int, int) {
        (self.x as int, self.y as int, self.z as int)
    }
}

/// All three components are representable fixed-point values.
pub open spec fn t_in_range(a: (int, int, int)) -> bool {
    in_range(a.0) && in_range(a.1) && in_range(a.2)
}

/// The `Vec3` whose components hold the values of `t`; faithful whenever
/// the components of `t` fit in `i64`.
pub open spec fn vec3_of(t: (int, int, int)) -> Vec3 {
    Vec3 { x: t.0 as i64, y: t.1 as i64, z: t.2 as i64 }
}

/// For an in-range triple, `vec3_of` round-trips to the same triple.
pub proof fn lemma_vec3_of_faithful(t: (int, int, int))
    requires
        t_in_range(t),
    ensures
        vec3_of(t)@ == t,
        vec3_of(t).wf(),
{
}

/// Componentwise saturating addition.
pub open spec fn v_add_s(a: (int, int, int), b: (int, int, int)) -> (int, int, int) {
    (fx_add_s(a.0, b.0), fx_add_s(a.1, b.1), fx_add_s(a.2, b.2))
}

/// Componentwise saturating subtraction.
pub open spec fn v_sub_s(a: (int, int, int), b: (int, int, int)) -> (int, int, int) {
    (fx_sub_s(a.0, b.0), fx_sub_s(a.1, b.1), fx_sub_s(a.2, b.2))
}

/// Scale a vector by a fixed-point factor.
pub open spec fn v_mul_fx_s(a: (int, int, int), s: int) -> (int, int, int) {
    (fx_mul_s(a.0, s), fx_mul_s(a.1, s), fx_mul_s(a.2, s))
}

/// Fixed-point cross product.
pub open spec fn v_cross_s(a: (int, int, int), b: (int, int, int)) -> (int, int, int) {
    (
        fx_sub_s(fx_mul_s(a.1, b.2), fx_mul_s(a.2, b.1)),
        fx_sub_s(fx_mul_s(a.2, b.0), fx_mul_s(a.0, b.2)),
        fx_sub_s(fx_mul_s(a.0, b.1), fx_mul_s(a.1, b.0)),
    )
}

/// Fixed-point dot product.
pub open spec fn v_dot_s(a: (int, int, int), b: (int, int, int)) -> int {
    fx_add_s(fx_add_s(fx_mul_s(a.0, b.0), fx_mul_s(a.1, b.1)), fx_mul_s(a.2, b.2))
}

/// Exact sum of squared componentwise differences (no saturation).
pub open spec fn norm_sq_s(a: (int, int, int), b: (int, int, int)) -> int {
    (a.0 - b.0) * (a.0 - b.0) + (a.1 - b.1) * (a.1 - b.1) + (a.2 - b.2) * (a.2 - b.2)
}

/// Euclidean distance between two in-range points: the floor square root of
/// the exact squared distance, saturated into the fixed-point range.
pub open spec fn dist_s(a: (int, int, int), b: (int, int, int)) -> int {
    sat_s(sqrt_floor(norm_sq_s(a, b)))
}

impl Vec3 {
    /// Componentwise saturating addition.
    pub fn add_v(self, o: Vec3) -> (r: Vec3)
        ensures
            r@ == v_add_s(self@, o@),
    {
        Vec3 { x: fx_add(self.x, o.x), y: fx_add(self.y, o.y), z: fx_add(self.z, o.z) }
    }

    /// Componentwise saturating subtraction.
    pub fn sub_v(self, o: Vec3) -> (r: Vec3)
        ensures
            r@ == v_sub_s(self@, o@),
    {
        Vec3 { x: fx_sub(self.x, o.x), y: fx_sub(self.y, o.y), z: fx_sub(self.z, o.z) }
    }

    /// Scale by a fixed-point factor.
    pub fn mul_fx(self, s: i64) -> (r: Vec3)
        ensures
            r@ == v_mul_fx_s(self@, s as int),
    {
        Vec3 { x: fx_mul(self.x, s), y: fx_mul(self.y, s), z: fx_mul(self.z, s) }
    }

    /// Fixed-point cross product.
    pub fn cross_v(self, o: Vec3) -> (r: Vec3)
        ensures
            r@ == v_cross_s(self@, o@),
    {
        Vec3 {
            x: fx_sub(fx_mul(self.y, o.z), fx_mul(self.z, o.y)),
            y: fx_sub(fx_mul(self.z, o.x), fx_mul(self.x, o.z)),
            z: fx_sub(fx_mul(self.x, o.y), fx_mul(self.y, o.x)),
        }
    }

    /// Fixed-point dot product.
    pub fn dot_fx(self, o: Vec3) -> (r: i64)
        ensures
            r as int == v_dot_s(self@, o@),
    {
        fx_add(fx_add(fx_mul(self.x, o.x), fx_mul(self.y, o.y)), fx_mul(self.z, o.z))
    }

    /// All components are in the representable range.
    pub open spec fn wf(self) -> bool {
        t_in_range(self@)
    }

    /// Euclidean distance to `o`.
    pub fn dist(self, o: Vec3) -> (r: i64)
        requires
            self.wf(),
            o.wf(),
        ensures
            r as int == dist_s(self@, o@),
            0 <= r <= FX_BOUND,
    {
        let dx: i128 = (self.x as i128) - (o.x as i128);
        let dy: i128 = (self.y as i128) - (o.y as i128);
        let dz: i128 = (self.z as i128) - (o.z as i128);
        assert(dx * dx + dy * dy + dz * dz < 0x1_0000_0000_0000_0000_0000_0000
            && dx * dx >= 0 && dy * dy >= 0 && dz * dz >= 0) by (nonlinear_arith)
            requires
                -0x8000_0000_0000 <= dx <= 0x8000_0000_0000,
                -0x8000_0000_0000 <= dy <= 0x8000_0000_0000,
                -0x8000_0000_0000 <= dz <= 0x8000_0000_0000,
        ;
        let s: u128 = ((dx * dx) as u128) + ((dy * dy) as u128) + ((dz * dz) as u128);
        let r0: u64 = isqrt(s);
        proof {
            lemma_sqrt_floor_unique(norm_sq_s(self@, o@), r0 as int);
        }
        if r0 > FX_BOUND as u64 {
            FX_BOUND
        } else {
            r0 as i64
        }
    }
}

} // verus!
