//! The cloth aggregate: grid construction and the simulation tick.

use vstd::prelude::*;

use crate::data_containers::ComputeData;
use crate::data_containers::Sphere;
use crate::fixed::clamp128;
use crate::fixed::div_away;
use crate::fixed::div_away128;
use crate::fixed::fx_add;
use crate::fixed::fx_add_s;
use crate::fixed::fx_mul;
use crate::fixed::fx_mul_s;
use crate::fixed::fx_div;
use crate::fixed::fx_div_s;
use crate::fixed::fx_scale;
use crate::fixed::fx_scale_s;
use crate::fixed::fx_sub;
use crate::fixed::fx_sub_s;
use crate::fixed::in_range;
use crate::fixed::sat_s;
use crate::fixed::DIST_EPSILON;
use crate::fixed::FX_BOUND;
use crate::fixed::FX_ONE;
use crate::node::Node;
use crate::node::TexCoords;
use crate::spring::Spring;
use crate::spring::SPRING_SLOTS;
use crate::vec3::dist_s;
use crate::vec3::t_in_range;
use crate::vec3::v_add_s;
use crate::vec3::v_cross_s;
use crate::vec3::v_dot_s;
use crate::vec3::v_mul_fx_s;
use crate::vec3::v_sub_s;
use crate::vec3::vec3_of;
use crate::vec3::Vec3;

verus! {

/// Construction was rejected: zero subdivisions or a non-positive length.
#[derive(Clone, Copy, PartialEq, Eq, Structural, Debug)]
pub struct InvalidTopology;

/// A tick was rejected: negative delta time.  No vertex state was touched.
#[derive(Clone, Copy, PartialEq, Eq, Structural, Debug)]
pub struct InvalidTick;

/// The axis that stands vertically: the grid is laid out across the two
/// other axes, and gravity pulls along this one.
#[derive(Clone, Copy, PartialEq, Eq, Structural, Debug)]
pub enum Axis {
    X,
    Y,
    Z,
}

/// The unit vector along `axis`, as a triple of fixed-point values.
pub open spec fn axis_unit_s(axis: Axis) -> (int, int, int) {
    match axis {
        Axis::X => (FX_ONE as int, 0int, 0int),
        Axis::Y => (0int, FX_ONE as int, 0int),
        Axis::Z => (0int, 0int, FX_ONE as int),
    }
}

/// Largest accepted subdivision count; keeps every vertex id, index value
/// and buffer length comfortably inside `u32` and `usize`.
pub const MAX_SUBDIVISIONS: u32 = 10000;

/// Row-major vertex id of grid position `(row, col)` on an
/// `(n+1) x (n+1)` grid.
pub open spec fn grid_idx(n: int, row: int, col: int) -> int {
    row * (n + 1) + col
}

/// Grid spacing: the side length divided by the subdivision count.
pub open spec fn spacing_s(length: int, n: int) -> int {
    length / n
}

/// Initial position of grid vertex `(row, col)`: columns advance along the
/// first planar axis, rows along the second, both offset so the grid is
/// centred on `c`; the vertical coordinate is `c`'s.
pub open spec fn init_pos_s(
    length: int,
    n: int,
    c: (int, int, int),
    axis: Axis,
    row: int,
    col: int,
) -> (int, int, int) {
    let sp = spacing_s(length, n);
    let half = length / 2;
    let ca = fx_add_s(fx_scale_s(col, sp), fx_sub_s(axis_center_a(c, axis), half));
    let cb = fx_add_s(fx_scale_s(row, sp), fx_sub_s(axis_center_b(c, axis), half));
    match axis {
        Axis::X => (c.0, ca, cb),
        Axis::Y => (ca, c.1, cb),
        Axis::Z => (ca, cb, c.2),
    }
}

/// Centre coordinate of the first planar axis.
pub open spec fn axis_center_a(c: (int, int, int), axis: Axis) -> int {
    match axis {
        Axis::X => c.1,
        Axis::Y => c.0,
        Axis::Z => c.0,
    }
}

/// Centre coordinate of the second planar axis.
pub open spec fn axis_center_b(c: (int, int, int), axis: Axis) -> int {
    match axis {
        Axis::X => c.2,
        Axis::Y => c.2,
        Axis::Z => c.1,
    }
}

/// Texture coordinate of planar offset `j` out of `n`, in `[0, FX_ONE]`.
pub open spec fn tex_s(n: int, j: int) -> int {
    (j * FX_ONE) / n
}

/// The full initial state of grid vertex `(row, col)`: initial velocity and
/// force are zero, the normal starts at zero and is only set by the first
/// tick's normal pass.
pub open spec fn init_node_s(
    length: int,
    n: int,
    c: (int, int, int),
    axis: Axis,
    row: int,
    col: int,
) -> Node {
    Node {
        position: vec3_of(init_pos_s(length, n, c, axis, row, col)),
        normal: Vec3 { x: 0, y: 0, z: 0 },
        velocity: Vec3 { x: 0, y: 0, z: 0 },
        resultant: Vec3 { x: 0, y: 0, z: 0 },
        tex_coords: TexCoords { u: tex_s(n, col) as i64, v: tex_s(n, row) as i64 },
    }
}

/// The `j`-th of the six triangle indices of cell `(row, col)`: the two
/// triangles `(top-right, top-left, bottom-left)` and
/// `(top-right, bottom-left, bottom-right)`.
pub open spec fn tri_index_s(n: int, row: int, col: int, j: int) -> int {
    let tl = grid_idx(n, row, col);
    let tr = tl + 1;
    let bl = tl + n + 1;
    let br = bl + 1;
    if j == 0 {
        tr
    } else if j == 1 {
        tl
    } else if j == 2 {
        bl
    } else if j == 3 {
        tr
    } else if j == 4 {
        bl
    } else {
        br
    }
}

/// Grid position served by spring slot `k` of vertex `(row, col)`, border
/// guarded: slots 0..=7 are the eight immediate neighbours (diagonals are
/// the shear springs, the axis steps the structural ones), slots 8..=11 the
/// two-step bend neighbours.  An absent slot maps to `(row, col)` itself.
pub open spec fn slot_neighbor_s(n: int, row: int, col: int, k: int) -> (int, int) {
    if k == 0 {
        if row > 0 && col > 0 {
            (row - 1, col - 1)
        } else {
            (row, col)
        }
    } else if k == 1 {
        if row > 0 {
            (row - 1, col)
        } else {
            (row, col)
        }
    } else if k == 2 {
        if row > 0 && col < n {
            (row - 1, col + 1)
        } else {
            (row, col)
        }
    } else if k == 3 {
        if col < n {
            (row, col + 1)
        } else {
            (row, col)
        }
    } else if k == 4 {
        if row < n && col < n {
            (row + 1, col + 1)
        } else {
            (row, col)
        }
    } else if k == 5 {
        if row < n {
            (row + 1, col)
        } else {
            (row, col)
        }
    } else if k == 6 {
        if row < n && col > 0 {
            (row + 1, col - 1)
        } else {
            (row, col)
        }
    } else if k == 7 {
        if col > 0 {
            (row, col - 1)
        } else {
            (row, col)
        }
    } else if k == 8 {
        if col > 1 {
            (row, col - 2)
        } else {
            (row, col)
        }
    } else if k == 9 {
        if col < n - 1 {
            (row, col + 2)
        } else {
            (row, col)
        }
    } else if k == 10 {
        if row > 1 {
            (row - 2, col)
        } else {
            (row, col)
        }
    } else {
        if row < n - 1 {
            (row + 2, col)
        } else {
            (row, col)
        }
    }
}

/// Whether spring slot `k` of vertex `(row, col)` is populated.
pub open spec fn slot_present_s(n: int, row: int, col: int, k: int) -> bool {
    slot_neighbor_s(n, row, col, k) != (row, col)
}

/// Rest distance of spring slot `k` of vertex `(row, col)`: the distance
/// between the two initial positions, or zero for an absent slot.
pub open spec fn init_rest_s(
    length: int,
    n: int,
    c: (int, int, int),
    axis: Axis,
    row: int,
    col: int,
    k: int,
) -> int {
    if slot_present_s(n, row, col, k) {
        let nb = slot_neighbor_s(n, row, col, k);
        dist_s(init_pos_s(length, n, c, axis, row, col), init_pos_s(length, n, c, axis, nb.0, nb.1))
    } else {
        0
    }
}

/// Slot `k` of the spring record of vertex `(row, col)` holds the border
/// guarded neighbour id of [`slot_neighbor_s`], the rest length of
/// [`init_rest_s`], and a zeroed current length.
pub open spec fn slot_ok(
    link: u32,
    rest: i64,
    cur: i64,
    length: int,
    n: int,
    c: (int, int, int),
    axis: Axis,
    row: int,
    col: int,
    k: int,
) -> bool {
    &&& link == grid_idx(n, slot_neighbor_s(n, row, col, k).0, slot_neighbor_s(n, row, col, k).1)
    &&& (link as int) < (n + 1) * (n + 1)
    &&& rest == init_rest_s(length, n, c, axis, row, col, k)
    &&& cur == 0
}

/// Current length of spring slot `k` of vertex `i`, measured on the
/// positions in `vs`.  An absent slot links a vertex to itself and measures
/// zero.
pub open spec fn cur_dist_s(vs: Seq<Node>, ss: Seq<Spring>, i: int, k: int) -> int {
    dist_s(vs[i].position@, vs[ss[i].links@[k] as int].position@)
}

/// Spring force that slot `k` exerts on vertex `i`: the unit vector from
/// `i` towards the neighbour, scaled by `spring_constant` times the length
/// deviation from rest — a stretched spring pulls the vertex towards its
/// neighbour, a compressed one pushes it away.  Absent slots and
/// degenerate (shorter than [`DIST_EPSILON`]) lengths contribute nothing.
pub open spec fn slot_force_s(
    vs: Seq<Node>,
    ss: Seq<Spring>,
    spring_constant: int,
    i: int,
    k: int,
) -> (int, int, int) {
    let link = ss[i].links@[k] as int;
    if link == i {
        (0int, 0int, 0int)
    } else {
        let cur = cur_dist_s(vs, ss, i, k);
        if cur < DIST_EPSILON {
            (0int, 0int, 0int)
        } else {
            let rest = ss[i].rest_distance@[k] as int;
            let coeff = fx_mul_s(spring_constant, fx_sub_s(cur, rest));
            let diff = v_sub_s(vs[link].position@, vs[i].position@);
            (
                fx_mul_s(fx_div_s(diff.0, cur), coeff),
                fx_mul_s(fx_div_s(diff.1, cur), coeff),
                fx_mul_s(fx_div_s(diff.2, cur), coeff),
            )
        }
    }
}

/// Saturating sum of the spring forces of the first `upto` slots of
/// vertex `i`.
pub open spec fn force_sum_s(
    vs: Seq<Node>,
    ss: Seq<Spring>,
    spring_constant: int,
    i: int,
    upto: int,
) -> (int, int, int)
    decreases upto,
{
    if upto <= 0 {
        (0int, 0int, 0int)
    } else {
        v_add_s(
            force_sum_s(vs, ss, spring_constant, i, upto - 1),
            slot_force_s(vs, ss, spring_constant, i, upto - 1),
        )
    }
}

/// Net force on vertex `i` for the tick: all spring forces plus gravity of
/// magnitude `mass * gravity` pulling down the vertical axis.
pub open spec fn resultant_s(
    vs: Seq<Node>,
    ss: Seq<Spring>,
    params: ComputeData,
    axis: Axis,
    i: int,
) -> (int, int, int) {
    let f = force_sum_s(vs, ss, params.spring_constant as int, i, SPRING_SLOTS as int);
    let g = fx_mul_s(params.mass as int, params.gravity as int);
    v_sub_s(f, v_mul_fx_s(axis_unit_s(axis), g))
}

/// Semi-implicit Euler update of vertex `i`, before collision: the new
/// velocity adds `resultant / mass * dt` and sheds `velocity * damping *
/// dt`; the new position advances by the new velocity times `dt`.  A vertex
/// held fixed keeps its position and velocity.
pub open spec fn candidate_s(
    vs: Seq<Node>,
    ss: Seq<Spring>,
    ff: Seq<bool>,
    params: ComputeData,
    dt: int,
    axis: Axis,
    i: int,
) -> ((int, int, int), (int, int, int)) {
    let p = vs[i].position@;
    let v = vs[i].velocity@;
    if ff[i] {
        (p, v)
    } else {
        let res = resultant_s(vs, ss, params, axis, i);
        let m = params.mass as int;
        let damp = params.damping_factor as int;
        let v2 = (
            fx_sub_s(fx_add_s(v.0, fx_mul_s(fx_div_s(res.0, m), dt)), fx_mul_s(fx_mul_s(v.0, damp), dt)),
            fx_sub_s(fx_add_s(v.1, fx_mul_s(fx_div_s(res.1, m), dt)), fx_mul_s(fx_mul_s(v.1, damp), dt)),
            fx_sub_s(fx_add_s(v.2, fx_mul_s(fx_div_s(res.2, m), dt)), fx_mul_s(fx_mul_s(v.2, damp), dt)),
        );
        let p2 = (
            fx_add_s(p.0, fx_mul_s(v2.0, dt)),
            fx_add_s(p.1, fx_mul_s(v2.1, dt)),
            fx_add_s(p.2, fx_mul_s(v2.2, dt)),
        );
        (p2, v2)
    }
}

/// Sphere collision response.  A candidate on or inside the sphere is
/// pushed out along the radial direction to the surface (rounding the
/// radial offset away from the centre, so the result never stays inside);
/// the radial velocity component is dropped and the tangential one scaled
/// by `1 - friction_factor`.  A candidate exactly at the centre has no
/// radial direction and falls back to the vertical axis.
pub open spec fn collide_s(
    sphere: Sphere,
    axis: Axis,
    pos: (int, int, int),
    vel: (int, int, int),
) -> ((int, int, int), (int, int, int)) {
    let cen = (sphere.x as int, sphere.y as int, sphere.z as int);
    let d = dist_s(pos, cen);
    if d > sphere.radius {
        (pos, vel)
    } else {
        let diff = (pos.0 - cen.0, pos.1 - cen.1, pos.2 - cen.2);
        let dir = if d == 0 {
            axis_unit_s(axis)
        } else {
            (fx_div_s(diff.0, d), fx_div_s(diff.1, d), fx_div_s(diff.2, d))
        };
        let out = if d == 0 {
            v_mul_fx_s(axis_unit_s(axis), sphere.radius as int)
        } else {
            (
                div_away(diff.0 * sphere.radius, d),
                div_away(diff.1 * sphere.radius, d),
                div_away(diff.2 * sphere.radius, d),
            )
        };
        let p2 = (sat_s(cen.0 + out.0), sat_s(cen.1 + out.1), sat_s(cen.2 + out.2));
        let dot = v_dot_s(vel, dir);
        let v2 = v_mul_fx_s(
            v_sub_s(vel, v_mul_fx_s(dir, dot)),
            fx_sub_s(FX_ONE as int, sphere.friction_factor as int),
        );
        (p2, v2)
    }
}

/// Position and velocity of vertex `i` after integration and collision.
pub open spec fn step_pos_vel_s(
    vs: Seq<Node>,
    ss: Seq<Spring>,
    ff: Seq<bool>,
    sphere: Sphere,
    params: ComputeData,
    dt: int,
    axis: Axis,
    i: int,
) -> ((int, int, int), (int, int, int)) {
    let pv = candidate_s(vs, ss, ff, params, dt, axis, i);
    if ff[i] {
        pv
    } else {
        collide_s(sphere, axis, pv.0, pv.1)
    }
}

/// Vertex `i` after the force phase: new position and velocity, the force
/// accumulator reset to zero, normal and texture coordinates untouched.
pub open spec fn integrated_node_s(
    vs: Seq<Node>,
    ss: Seq<Spring>,
    ff: Seq<bool>,
    sphere: Sphere,
    params: ComputeData,
    dt: int,
    axis: Axis,
    i: int,
) -> Node {
    let pv = step_pos_vel_s(vs, ss, ff, sphere, params, dt, axis, i);
    Node {
        position: vec3_of(pv.0),
        normal: vs[i].normal,
        velocity: vec3_of(pv.1),
        resultant: Vec3 { x: 0, y: 0, z: 0 },
        tex_coords: vs[i].tex_coords,
    }
}

/// The whole vertex array after the force phase.
pub open spec fn integrated_seq_s(
    vs: Seq<Node>,
    ss: Seq<Spring>,
    ff: Seq<bool>,
    sphere: Sphere,
    params: ComputeData,
    dt: int,
    axis: Axis,
) -> Seq<Node> {
    Seq::new(vs.len(), |i: int| integrated_node_s(vs, ss, ff, sphere, params, dt, axis, i))
}

/// Shading normal of vertex `i` on the positions in `vs`: the sum of the
/// cross products of consecutive present structural tangents, taken in the
/// cyclic order right, top, left, bottom, then normalised.  A degenerate
/// accumulated vector falls back to the vertical axis.
pub open spec fn normal_s(vs: Seq<Node>, ss: Seq<Spring>, axis: Axis, i: int) -> (int, int, int) {
    let p = vs[i].position@;
    let lt = ss[i].links@[1] as int;
    let lr = ss[i].links@[3] as int;
    let lb = ss[i].links@[5] as int;
    let ll = ss[i].links@[7] as int;
    let tt = v_sub_s(vs[lt].position@, p);
    let tr = v_sub_s(vs[lr].position@, p);
    let tb = v_sub_s(vs[lb].position@, p);
    let tl = v_sub_s(vs[ll].position@, p);
    let a0 = (0int, 0int, 0int);
    let a1 = if lr != i && lt != i {
        v_add_s(a0, v_cross_s(tr, tt))
    } else {
        a0
    };
    let a2 = if lt != i && ll != i {
        v_add_s(a1, v_cross_s(tt, tl))
    } else {
        a1
    };
    let a3 = if ll != i && lb != i {
        v_add_s(a2, v_cross_s(tl, tb))
    } else {
        a2
    };
    let acc = if lb != i && lr != i {
        v_add_s(a3, v_cross_s(tb, tr))
    } else {
        a3
    };
    let len = dist_s(acc, (0int, 0int, 0int));
    if len < DIST_EPSILON {
        axis_unit_s(axis)
    } else {
        (fx_div_s(acc.0, len), fx_div_s(acc.1, len), fx_div_s(acc.2, len))
    }
}

/// Vertex `i` after a full tick: the integrated position and velocity, and
/// the normal recomputed from the integrated positions.
pub open spec fn stepped_node_s(
    vs: Seq<Node>,
    ss: Seq<Spring>,
    ff: Seq<bool>,
    sphere: Sphere,
    params: ComputeData,
    dt: int,
    axis: Axis,
    i: int,
) -> Node {
    let mid = integrated_seq_s(vs, ss, ff, sphere, params, dt, axis);
    let nrm = normal_s(mid, ss, axis, i);
    Node {
        position: mid[i].position,
        normal: vec3_of(nrm),
        velocity: mid[i].velocity,
        resultant: mid[i].resultant,
        tex_coords: mid[i].tex_coords,
    }
}

/// The spring force sum reads only the links and rest lengths of a spring
/// record, never its cached current lengths.
proof fn lemma_force_sum_congruent(
    vs: Seq<Node>,
    ss1: Seq<Spring>,
    ss2: Seq<Spring>,
    spring_constant: int,
    i: int,
    upto: int,
)
    requires
        0 <= i < ss1.len(),
        ss1.len() == ss2.len(),
        ss1[i].links@ == ss2[i].links@,
        ss1[i].rest_distance@ == ss2[i].rest_distance@,
    ensures
        force_sum_s(vs, ss1, spring_constant, i, upto) == force_sum_s(
            vs,
            ss2,
            spring_constant,
            i,
            upto,
        ),
    decreases upto,
{
    if upto > 0 {
        lemma_force_sum_congruent(vs, ss1, ss2, spring_constant, i, upto - 1);
    }
}

/// The integrated vertex reads only the links and rest lengths of its
/// spring record.
proof fn lemma_integrated_congruent(
    vs: Seq<Node>,
    ss1: Seq<Spring>,
    ss2: Seq<Spring>,
    ff: Seq<bool>,
    sphere: Sphere,
    params: ComputeData,
    dt: int,
    axis: Axis,
    i: int,
)
    requires
        0 <= i < ss1.len(),
        ss1.len() == ss2.len(),
        ss1[i].links@ == ss2[i].links@,
        ss1[i].rest_distance@ == ss2[i].rest_distance@,
    ensures
        integrated_node_s(vs, ss1, ff, sphere, params, dt, axis, i) == integrated_node_s(
            vs,
            ss2,
            ff,
            sphere,
            params,
            dt,
            axis,
            i,
        ),
{
    lemma_force_sum_congruent(
        vs,
        ss1,
        ss2,
        params.spring_constant as int,
        i,
        SPRING_SLOTS as int,
    );
}

/// The recomputed normal reads only the links of a spring record.
proof fn lemma_normal_congruent(
    vs: Seq<Node>,
    ss1: Seq<Spring>,
    ss2: Seq<Spring>,
    axis: Axis,
    i: int,
)
    requires
        0 <= i < ss1.len(),
        ss1.len() == ss2.len(),
        ss1[i].links@ == ss2[i].links@,
    ensures
        normal_s(vs, ss1, axis, i) == normal_s(vs, ss2, axis, i),
{
}

/// A deformable rectangular cloth: an `(n+1) x (n+1)` vertex grid, its
/// triangle index buffer, and one spring record per vertex.
#[derive(Debug)]
pub struct Clothe {
    pub length: i64,
    pub number_square: u32,
    pub center_x: i64,
    pub center_y: i64,
    pub center_z: i64,
    pub nb_vertices: u32,
    pub vertices: Vec<Node>,
    pub indices: Vec<u32>,
    pub springs: Vec<Spring>,
    pub fixed_flags: Vec<bool>,
    pub up_axis: Axis,
}

impl Clothe {
    /// Structural well-formedness: buffer lengths agree with the
    /// subdivision count, every spring link addresses a vertex, and every
    /// vector is in the representable range.
    pub open spec fn wf(self) -> bool {
        &&& self.number_square >= 1
        &&& self.number_square <= MAX_SUBDIVISIONS
        &&& self.nb_vertices as int == (self.number_square + 1) * (self.number_square + 1)
        &&& self.vertices@.len() == self.nb_vertices
        &&& self.springs@.len() == self.nb_vertices
        &&& self.fixed_flags@.len() == self.nb_vertices
        &&& forall|i: int| 0 <= i < self.vertices@.len() ==> (#[trigger] self.vertices@[i]).wf()
        &&& forall|i: int| 0 <= i < self.springs@.len() ==> (#[trigger] self.springs@[i]).wf()
        &&& forall|i: int, k: int|
            0 <= i < self.springs@.len() && 0 <= k < SPRING_SLOTS ==> (#[trigger] self.springs@[i].links@[k])
                < self.nb_vertices
    }

    /// The state a fresh cloth is in: the flat grid described by
    /// [`init_node_s`], the index buffer of [`tri_index_s`], the spring
    /// slots of [`slot_neighbor_s`] with rest lengths [`init_rest_s`], no
    /// vertex held fixed.
    pub open spec fn is_initial(self, length: int, n: int, c: (int, int, int), axis: Axis) -> bool {
        &&& self.length == length
        &&& self.number_square == n
        &&& self.center_x == c.0
        &&& self.center_y == c.1
        &&& self.center_z == c.2
        &&& self.up_axis == axis
        &&& self.nb_vertices == (n + 1) * (n + 1)
        &&& self.vertices@.len() == (n + 1) * (n + 1)
        &&& forall|row: int, col: int|
            0 <= row <= n && 0 <= col <= n ==> self.vertices@[#[trigger] grid_idx(n, row, col)]
                == init_node_s(length, n, c, axis, row, col)
        &&& self.indices@.len() == 6 * n * n
        &&& forall|row: int, col: int, j: int|
            0 <= row < n && 0 <= col < n && 0 <= j < 6 ==> self.indices@[6 * (row * n + col) + j]
                == tri_index_s(n, row, col, j)
        &&& self.springs@.len() == (n + 1) * (n + 1)
        &&& forall|row: int, col: int|
            0 <= row <= n && 0 <= col <= n ==> Self::spring_built(
                self.springs@[#[trigger] grid_idx(n, row, col)],
                length,
                n,
                c,
                axis,
                row,
                col,
            )
        &&& self.fixed_flags@.len() == (n + 1) * (n + 1)
        &&& forall|i: int| 0 <= i < self.fixed_flags@.len() ==> !(#[trigger] self.fixed_flags@[i])
    }
}

/// An initial grid position has in-range components: the planar coordinates
/// are saturated sums, the vertical one is a centre coordinate.
proof fn lemma_init_pos_in_range(
    length: int,
    n: int,
    c: (int, int, int),
    axis: Axis,
    row: int,
    col: int,
)
    requires
        in_range(c.0),
        in_range(c.1),
        in_range(c.2),
    ensures
        t_in_range(init_pos_s(length, n, c, axis, row, col)),
{
}

/// Distinct grid positions have distinct row-major ids.
proof fn lemma_grid_idx_inj(n: int, r1: int, c1: int, r2: int, c2: int)
    by (nonlinear_arith)
    requires
        0 <= n,
        0 <= c1 <= n,
        0 <= c2 <= n,
        r1 * (n + 1) + c1 == r2 * (n + 1) + c2,
    ensures
        r1 == r2,
        c1 == c2,
{
}

/// Row-major ids of an `(n+1) x (n+1)` grid lie below `(n+1)^2`, which for
/// an accepted subdivision count stays far below `u32::MAX`.
proof fn lemma_grid_idx_bounds(n: int, row: int, col: int)
    by (nonlinear_arith)
    requires
        1 <= n <= 10000,
        0 <= row <= n,
        0 <= col <= n,
    ensures
        0 <= row * (n + 1) + col,
        row * (n + 1) + col < (n + 1) * (n + 1),
        (n + 1) * (n + 1) <= 100020001,
{
}
/// Distinct grid cells have distinct row-major cell numbers.
proof fn lemma_cell_inj(n: int, r1: int, c1: int, r2: int, c2: int)
    by (nonlinear_arith)
    requires
        1 <= n,
        0 <= c1 < n,
        0 <= c2 < n,
        r1 * n + c1 == r2 * n + c2,
    ensures
        r1 == r2,
        c1 == c2,
{
}

/// Cell numbers of an `n x n` grid lie below `n^2` and grow with the cell
/// position.
proof fn lemma_cell_bounds(n: int, row: int, col: int)
    by (nonlinear_arith)
    requires
        1 <= n <= 10000,
        0 <= row < n,
        0 <= col < n,
    ensures
        0 <= row * n + col,
        row * n + col < n * n,
        n * n <= 100000000,
{
}
impl Clothe {
    /// Append one vertex with the given position and texture coordinates,
    /// zero normal, velocity and force; its id is returned.
    fn insert_vertex(&mut self, x: i64, y: i64, z: i64, u: i64, v: i64) -> (id: u32)
        requires
            old(self).vertices@.len() < 0xffff_ffff,
        ensures
            final(self).vertices@ == old(self).vertices@.push(
                Node {
                    position: Vec3 { x, y, z },
                    normal: Vec3 { x: 0, y: 0, z: 0 },
                    velocity: Vec3 { x: 0, y: 0, z: 0 },
                    resultant: Vec3 { x: 0, y: 0, z: 0 },
                    tex_coords: TexCoords { u, v },
                },
            ),
            id as int == old(self).vertices@.len(),
            final(self).length == old(self).length,
            final(self).number_square == old(self).number_square,
            final(self).center_x == old(self).center_x,
            final(self).center_y == old(self).center_y,
            final(self).center_z == old(self).center_z,
            final(self).nb_vertices == old(self).nb_vertices,
            final(self).indices == old(self).indices,
            final(self).springs == old(self).springs,
            final(self).fixed_flags == old(self).fixed_flags,
            final(self).up_axis == old(self).up_axis,
    {
        let id: u32 = self.vertices.len() as u32;
        self.vertices.push(
            Node {
                position: Vec3 { x, y, z },
                normal: Vec3 { x: 0, y: 0, z: 0 },
                velocity: Vec3 { x: 0, y: 0, z: 0 },
                resultant: Vec3 { x: 0, y: 0, z: 0 },
                tex_coords: TexCoords { u, v },
            },
        );
        id
    }

    /// Distance between the current positions of vertices `i` and `j`.
    fn get_norm_distance(&self, i: u32, j: u32) -> (d: i64)
        requires
            (i as int) < self.vertices@.len(),
            (j as int) < self.vertices@.len(),
            self.vertices@[i as int].position.wf(),
            self.vertices@[j as int].position.wf(),
        ensures
            d as int == dist_s(
                self.vertices@[i as int].position@,
                self.vertices@[j as int].position@,
            ),
            0 <= d <= FX_BOUND,
    {
        let a: Vec3 = self.vertices[i as usize].position;
        let b: Vec3 = self.vertices[j as usize].position;
        a.dist(b)
    }

    /// Lay out the flat `(n+1) x (n+1)` vertex grid.
    fn build_grid(&mut self)
        requires
            old(self).vertices@.len() == 0,
            1 <= old(self).number_square <= MAX_SUBDIVISIONS,
            old(self).length > 0,
            in_range(old(self).center_x as int),
            in_range(old(self).center_y as int),
            in_range(old(self).center_z as int),
        ensures
            final(self).vertices@.len() == (old(self).number_square + 1) * (
            old(self).number_square + 1),
            forall|row: int, col: int|
                0 <= row <= old(self).number_square && 0 <= col <= old(self).number_square
                    ==> final(self).vertices@[#[trigger] grid_idx(
                    old(self).number_square as int,
                    row,
                    col,
                )] == init_node_s(
                    old(self).length as int,
                    old(self).number_square as int,
                    (old(self).center_x as int, old(self).center_y as int, old(self).center_z as int),
                    old(self).up_axis,
                    row,
                    col,
                ),
            forall|i: int|
                0 <= i < final(self).vertices@.len() ==> (#[trigger] final(self).vertices@[i]).wf(),
            final(self).length == old(self).length,
            final(self).number_square == old(self).number_square,
            final(self).center_x == old(self).center_x,
            final(self).center_y == old(self).center_y,
            final(self).center_z == old(self).center_z,
            final(self).nb_vertices == old(self).nb_vertices,
            final(self).indices == old(self).indices,
            final(self).springs == old(self).springs,
            final(self).fixed_flags == old(self).fixed_flags,
            final(self).up_axis == old(self).up_axis,
    {
        let n: u32 = self.number_square;
        let ghost nn: int = n as int;
        let ghost len0: int = self.length as int;
        let ghost c: (int, int, int) = (
            self.center_x as int,
            self.center_y as int,
            self.center_z as int,
        );
        let ghost axis = self.up_axis;
        let sp: i64 = ((self.length as u64) / (n as u64)) as i64;
        let half: i64 = ((self.length as u64) / 2) as i64;
        let (ca, cb): (i64, i64) = match self.up_axis {
            Axis::X => (self.center_y, self.center_z),
            Axis::Y => (self.center_x, self.center_z),
            Axis::Z => (self.center_x, self.center_y),
        };
        let offset_a: i64 = fx_sub(ca, half);
        let offset_b: i64 = fx_sub(cb, half);
        let mut row: u32 = 0;
        while row <= n
            invariant
                1 <= n <= MAX_SUBDIVISIONS,
                nn == n as int,
                row <= n + 1,
                sp as int == spacing_s(len0, nn),
                half as int == len0 / 2,
                offset_a as int == fx_sub_s(axis_center_a(c, axis), len0 / 2),
                offset_b as int == fx_sub_s(axis_center_b(c, axis), len0 / 2),
                self.number_square == n,
                self.length as int == len0,
                self.center_x as int == c.0,
                self.center_y as int == c.1,
                self.center_z as int == c.2,
                self.up_axis == axis,
                in_range(c.0) && in_range(c.1) && in_range(c.2),
                self.vertices@.len() == row * (nn + 1),
                forall|r: int, c2: int|
                    0 <= r <= nn && 0 <= c2 <= nn && #[trigger] grid_idx(nn, r, c2)
                        < self.vertices@.len() ==> self.vertices@[grid_idx(nn, r, c2)]
                        == init_node_s(len0, nn, c, axis, r, c2),
                forall|i: int|
                    0 <= i < self.vertices@.len() ==> (#[trigger] self.vertices@[i]).wf(),
                self.nb_vertices == old(self).nb_vertices,
                self.indices == old(self).indices,
                self.springs == old(self).springs,
                self.fixed_flags == old(self).fixed_flags,
            decreases n + 1 - row,
        {
            let mut col: u32 = 0;
            while col <= n
                invariant
                    1 <= n <= MAX_SUBDIVISIONS,
                    nn == n as int,
                    row <= n,
                    col <= n + 1,
                    sp as int == spacing_s(len0, nn),
                    half as int == len0 / 2,
                    offset_a as int == fx_sub_s(axis_center_a(c, axis), len0 / 2),
                    offset_b as int == fx_sub_s(axis_center_b(c, axis), len0 / 2),
                    self.number_square == n,
                    self.length as int == len0,
                    self.center_x as int == c.0,
                    self.center_y as int == c.1,
                    self.center_z as int == c.2,
                    self.up_axis == axis,
                    in_range(c.0) && in_range(c.1) && in_range(c.2),
                    self.vertices@.len() == row * (nn + 1) + col,
                    forall|r: int, c2: int|
                        0 <= r <= nn && 0 <= c2 <= nn && #[trigger] grid_idx(nn, r, c2)
                            < self.vertices@.len() ==> self.vertices@[grid_idx(nn, r, c2)]
                            == init_node_s(len0, nn, c, axis, r, c2),
                    forall|i: int|
                        0 <= i < self.vertices@.len() ==> (#[trigger] self.vertices@[i]).wf(),
                    self.nb_vertices == old(self).nb_vertices,
                    self.indices == old(self).indices,
                    self.springs == old(self).springs,
                    self.fixed_flags == old(self).fixed_flags,
                decreases n + 1 - col,
            {
                proof {
                    lemma_grid_idx_bounds(nn, row as int, col as int);
                }
                let pa: i64 = fx_add(fx_scale(col as i64, sp), offset_a);
                let pb: i64 = fx_add(fx_scale(row as i64, sp), offset_b);
                let (px, py, pz): (i64, i64, i64) = match self.up_axis {
                    Axis::X => (self.center_x, pa, pb),
                    Axis::Y => (pa, self.center_y, pb),
                    Axis::Z => (pa, pb, self.center_z),
                };
                let tu: i64 = (((col as u64) * 65536u64) / (n as u64)) as i64;
                let tv: i64 = (((row as u64) * 65536u64) / (n as u64)) as i64;
                let _ = self.insert_vertex(px, py, pz, tu, tv);
                proof {
                    let node = init_node_s(len0, nn, c, axis, row as int, col as int);
                    assert(self.vertices@[grid_idx(nn, row as int, col as int)] == node);
                    assert forall|r: int, c2: int|
                        0 <= r <= nn && 0 <= c2 <= nn && #[trigger] grid_idx(nn, r, c2)
                            < self.vertices@.len() implies self.vertices@[grid_idx(nn, r, c2)]
                        == init_node_s(len0, nn, c, axis, r, c2) by {
                        if grid_idx(nn, r, c2) == self.vertices@.len() - 1 {
                            lemma_grid_idx_inj(nn, r, c2, row as int, col as int);
                        }
                    }
                }
                col = col + 1;
            }
            proof {
                assert((row as int + 1) * (nn + 1) == row as int * (nn + 1) + (nn + 1))
                    by (nonlinear_arith);
            }
            row = row + 1;
        }
        proof {
            assert forall|r: int, c2: int| 0 <= r <= nn && 0 <= c2 <= nn implies #[trigger] grid_idx(
                nn,
                r,
                c2,
            ) < self.vertices@.len() by {
                lemma_grid_idx_bounds(nn, r, c2);
            }
        }
    }

    /// Emit the two triangles of every grid cell.
    fn build_indices(&mut self)
        requires
            old(self).indices@.len() == 0,
            1 <= old(self).number_square <= MAX_SUBDIVISIONS,
        ensures
            final(self).indices@.len() == 6 * old(self).number_square * old(self).number_square,
            forall|row: int, col: int, j: int|
                0 <= row < old(self).number_square && 0 <= col < old(self).number_square && 0 <= j
                    < 6 ==> final(self).indices@[6 * (row * old(self).number_square + col) + j]
                    == #[trigger] tri_index_s(old(self).number_square as int, row, col, j),
            final(self).length == old(self).length,
            final(self).number_square == old(self).number_square,
            final(self).center_x == old(self).center_x,
            final(self).center_y == old(self).center_y,
            final(self).center_z == old(self).center_z,
            final(self).nb_vertices == old(self).nb_vertices,
            final(self).vertices == old(self).vertices,
            final(self).springs == old(self).springs,
            final(self).fixed_flags == old(self).fixed_flags,
            final(self).up_axis == old(self).up_axis,
    {
        let n: u32 = self.number_square;
        let ghost nn: int = n as int;
        let mut row: u32 = 0;
        while row < n
            invariant
                1 <= n <= MAX_SUBDIVISIONS,
                nn == n as int,
                row <= n,
                self.number_square == n,
                self.indices@.len() == 6 * (row * nn),
                forall|r: int, c2: int, j: int|
                    0 <= r < nn && 0 <= c2 < nn && 0 <= j < 6 && 6 * (r * nn + c2) + j
                        < self.indices@.len() ==> self.indices@[6 * (r * nn + c2) + j]
                        == #[trigger] tri_index_s(nn, r, c2, j),
                self.length == old(self).length,
                self.center_x == old(self).center_x,
                self.center_y == old(self).center_y,
                self.center_z == old(self).center_z,
                self.nb_vertices == old(self).nb_vertices,
                self.vertices == old(self).vertices,
                self.springs == old(self).springs,
                self.fixed_flags == old(self).fixed_flags,
                self.up_axis == old(self).up_axis,
            decreases n - row,
        {
            let mut col: u32 = 0;
            while col < n
                invariant
                    1 <= n <= MAX_SUBDIVISIONS,
                    nn == n as int,
                    row < n,
                    col <= n,
                    self.number_square == n,
                    self.indices@.len() == 6 * (row * nn + col),
                    forall|r: int, c2: int, j: int|
                        0 <= r < nn && 0 <= c2 < nn && 0 <= j < 6 && 6 * (r * nn + c2) + j
                            < self.indices@.len() ==> self.indices@[6 * (r * nn + c2) + j]
                            == #[trigger] tri_index_s(nn, r, c2, j),
                    self.length == old(self).length,
                    self.center_x == old(self).center_x,
                    self.center_y == old(self).center_y,
                    self.center_z == old(self).center_z,
                    self.nb_vertices == old(self).nb_vertices,
                    self.vertices == old(self).vertices,
                    self.springs == old(self).springs,
                    self.fixed_flags == old(self).fixed_flags,
                    self.up_axis == old(self).up_axis,
                decreases n - col,
            {
                proof {
                    lemma_grid_idx_bounds(nn, row as int, col as int);
                    lemma_cell_bounds(nn, row as int, col as int);
                }
                let ghost len0: int = self.indices@.len() as int;
                let base: u32 = row * (n + 1) + col;
                self.indices.push(base + 1);
                self.indices.push(base);
                self.indices.push(base + n + 1);
                self.indices.push(base + 1);
                self.indices.push(base + n + 1);
                self.indices.push(base + n + 2);
                proof {
                    let cell: int = row as int * nn + col as int;
                    assert(self.indices@.len() == len0 + 6);
                    assert forall|r: int, c2: int, j: int|
                        0 <= r < nn && 0 <= c2 < nn && 0 <= j < 6 && 6 * (r * nn + c2) + j
                            < self.indices@.len() implies self.indices@[6 * (r * nn + c2) + j]
                        == #[trigger] tri_index_s(nn, r, c2, j) by {
                        let t: int = 6 * (r * nn + c2) + j;
                        if t >= len0 {
                            assert(6 * (r * nn + c2 - cell) == (t - len0) - j);
                            assert(r * nn + c2 == cell);
                            lemma_cell_inj(nn, r, c2, row as int, col as int);
                            assert(j == t - len0);
                        }
                    }
                }
                col = col + 1;
            }
            proof {
                assert(6 * ((row as int + 1) * nn) == 6 * (row as int * nn) + 6 * nn)
                    by (nonlinear_arith);
            }
            row = row + 1;
        }
        proof {
            assert(6 * (nn * nn) == 6 * nn * nn) by (nonlinear_arith);
            assert forall|r: int, c2: int, j: int|
                0 <= r < nn && 0 <= c2 < nn && 0 <= j < 6 implies self.indices@[6 * (r * nn + c2)
                + j] == #[trigger] tri_index_s(nn, r, c2, j) by {
                lemma_cell_bounds(nn, r, c2);
            }
        }
    }

    /// Grid position served by spring slot `k` of vertex `(row, col)`.
    fn slot_neighbor(n: u32, row: u32, col: u32, k: usize) -> (rc: (u32, u32))
        requires
            1 <= n <= MAX_SUBDIVISIONS,
            row <= n,
            col <= n,
            k < SPRING_SLOTS,
        ensures
            (rc.0 as int, rc.1 as int) == slot_neighbor_s(n as int, row as int, col as int, k as int),
            rc.0 <= n,
            rc.1 <= n,
    {
        if k == 0 {
            if row > 0 && col > 0 {
                (row - 1, col - 1)
            } else {
                (row, col)
            }
        } else if k == 1 {
            if row > 0 {
                (row - 1, col)
            } else {
                (row, col)
            }
        } else if k == 2 {
            if row > 0 && col < n {
                (row - 1, col + 1)
            } else {
                (row, col)
            }
        } else if k == 3 {
            if col < n {
                (row, col + 1)
            } else {
                (row, col)
            }
        } else if k == 4 {
            if row < n && col < n {
                (row + 1, col + 1)
            } else {
                (row, col)
            }
        } else if k == 5 {
            if row < n {
                (row + 1, col)
            } else {
                (row, col)
            }
        } else if k == 6 {
            if row < n && col > 0 {
                (row + 1, col - 1)
            } else {
                (row, col)
            }
        } else if k == 7 {
            if col > 0 {
                (row, col - 1)
            } else {
                (row, col)
            }
        } else if k == 8 {
            if col > 1 {
                (row, col - 2)
            } else {
                (row, col)
            }
        } else if k == 9 {
            if col + 1 < n {
                (row, col + 2)
            } else {
                (row, col)
            }
        } else if k == 10 {
            if row > 1 {
                (row - 2, col)
            } else {
                (row, col)
            }
        } else {
            if row + 1 < n {
                (row + 2, col)
            } else {
                (row, col)
            }
        }
    }

    /// One fully built spring record of vertex `(row, col)`.
    pub open spec fn spring_built(
        s: Spring,
        length: int,
        n: int,
        c: (int, int, int),
        axis: Axis,
        row: int,
        col: int,
    ) -> bool {
        &&& s.wf()
        &&& forall|k: int|
            0 <= k < SPRING_SLOTS ==> #[trigger] slot_ok(
                s.links@[k],
                s.rest_distance@[k],
                s.current_distance@[k],
                length,
                n,
                c,
                axis,
                row,
                col,
                k,
            )
    }

    /// Populate one spring record per vertex, with rest lengths measured on
    /// the freshly laid-out grid, and mark no vertex as held.
    fn build_springs(&mut self)
        requires
            old(self).springs@.len() == 0,
            old(self).fixed_flags@.len() == 0,
            1 <= old(self).number_square <= MAX_SUBDIVISIONS,
            old(self).length > 0,
            in_range(old(self).center_x as int),
            in_range(old(self).center_y as int),
            in_range(old(self).center_z as int),
            old(self).vertices@.len() == (old(self).number_square + 1) * (old(self).number_square
                + 1),
            forall|row: int, col: int|
                0 <= row <= old(self).number_square && 0 <= col <= old(self).number_square
                    ==> old(self).vertices@[#[trigger] grid_idx(
                    old(self).number_square as int,
                    row,
                    col,
                )] == init_node_s(
                    old(self).length as int,
                    old(self).number_square as int,
                    (old(self).center_x as int, old(self).center_y as int, old(self).center_z as int),
                    old(self).up_axis,
                    row,
                    col,
                ),
            forall|i: int|
                0 <= i < old(self).vertices@.len() ==> (#[trigger] old(self).vertices@[i]).wf(),
        ensures
            final(self).springs@.len() == (old(self).number_square + 1) * (old(self).number_square
                + 1),
            forall|row: int, col: int|
                0 <= row <= old(self).number_square && 0 <= col <= old(self).number_square
                    ==> Self::spring_built(
                    final(self).springs@[#[trigger] grid_idx(
                        old(self).number_square as int,
                        row,
                        col,
                    )],
                    old(self).length as int,
                    old(self).number_square as int,
                    (old(self).center_x as int, old(self).center_y as int, old(self).center_z as int),
                    old(self).up_axis,
                    row,
                    col,
                ),
            forall|i: int|
                0 <= i < final(self).springs@.len() ==> (#[trigger] final(self).springs@[i]).wf(),
            forall|i: int, k: int|
                0 <= i < final(self).springs@.len() && 0 <= k < SPRING_SLOTS ==> (
                #[trigger] final(self).springs@[i].links@[k]) < final(self).springs@.len(),
            final(self).fixed_flags@.len() == final(self).springs@.len(),
            forall|i: int|
                0 <= i < final(self).fixed_flags@.len() ==> !(#[trigger] final(self).fixed_flags@[i]),
            final(self).length == old(self).length,
            final(self).number_square == old(self).number_square,
            final(self).center_x == old(self).center_x,
            final(self).center_y == old(self).center_y,
            final(self).center_z == old(self).center_z,
            final(self).nb_vertices == old(self).nb_vertices,
            final(self).vertices == old(self).vertices,
            final(self).indices == old(self).indices,
            final(self).up_axis == old(self).up_axis,
    {
        let n: u32 = self.number_square;
        let ghost nn: int = n as int;
        let ghost len0: int = self.length as int;
        let ghost c: (int, int, int) = (
            self.center_x as int,
            self.center_y as int,
            self.center_z as int,
        );
        let ghost axis = self.up_axis;
        let mut row: u32 = 0;
        while row <= n
            invariant
                1 <= n <= MAX_SUBDIVISIONS,
                nn == n as int,
                row <= n + 1,
                self.number_square == n,
                self.length as int == len0,
                len0 > 0,
                self.center_x as int == c.0,
                self.center_y as int == c.1,
                self.center_z as int == c.2,
                self.up_axis == axis,
                in_range(c.0) && in_range(c.1) && in_range(c.2),
                self.vertices@.len() == (nn + 1) * (nn + 1),
                forall|r: int, c2: int|
                    0 <= r <= nn && 0 <= c2 <= nn ==> self.vertices@[#[trigger] grid_idx(
                        nn,
                        r,
                        c2,
                    )] == init_node_s(len0, nn, c, axis, r, c2),
                forall|i: int|
                    0 <= i < self.vertices@.len() ==> (#[trigger] self.vertices@[i]).wf(),
                self.springs@.len() == row * (nn + 1),
                self.fixed_flags@.len() == self.springs@.len(),
                forall|r: int, c2: int|
                    0 <= r <= nn && 0 <= c2 <= nn && #[trigger] grid_idx(nn, r, c2)
                        < self.springs@.len() ==> Self::spring_built(
                        self.springs@[grid_idx(nn, r, c2)],
                        len0,
                        nn,
                        c,
                        axis,
                        r,
                        c2,
                    ),
                forall|i: int|
                    0 <= i < self.springs@.len() ==> (#[trigger] self.springs@[i]).wf(),
                forall|i: int, k: int|
                    0 <= i < self.springs@.len() && 0 <= k < SPRING_SLOTS ==> (
                    #[trigger] self.springs@[i].links@[k]) < (nn + 1) * (nn + 1),
                forall|i: int|
                    0 <= i < self.fixed_flags@.len() ==> !(#[trigger] self.fixed_flags@[i]),
                self.nb_vertices == old(self).nb_vertices,
                self.vertices == old(self).vertices,
                self.indices == old(self).indices,
            decreases n + 1 - row,
        {
            let mut col: u32 = 0;
            while col <= n
                invariant
                    1 <= n <= MAX_SUBDIVISIONS,
                    nn == n as int,
                    row <= n,
                    col <= n + 1,
                    self.number_square == n,
                    self.length as int == len0,
                    len0 > 0,
                    self.center_x as int == c.0,
                    self.center_y as int == c.1,
                    self.center_z as int == c.2,
                    self.up_axis == axis,
                    in_range(c.0) && in_range(c.1) && in_range(c.2),
                    self.vertices@.len() == (nn + 1) * (nn + 1),
                    forall|r: int, c2: int|
                        0 <= r <= nn && 0 <= c2 <= nn ==> self.vertices@[#[trigger] grid_idx(
                            nn,
                            r,
                            c2,
                        )] == init_node_s(len0, nn, c, axis, r, c2),
                    forall|i: int|
                        0 <= i < self.vertices@.len() ==> (#[trigger] self.vertices@[i]).wf(),
                    self.springs@.len() == row * (nn + 1) + col,
                    self.fixed_flags@.len() == self.springs@.len(),
                    forall|r: int, c2: int|
                        0 <= r <= nn && 0 <= c2 <= nn && #[trigger] grid_idx(nn, r, c2)
                            < self.springs@.len() ==> Self::spring_built(
                            self.springs@[grid_idx(nn, r, c2)],
                            len0,
                            nn,
                            c,
                            axis,
                            r,
                            c2,
                        ),
                    forall|i: int|
                        0 <= i < self.springs@.len() ==> (#[trigger] self.springs@[i]).wf(),
                    forall|i: int, k: int|
                        0 <= i < self.springs@.len() && 0 <= k < SPRING_SLOTS ==> (
                        #[trigger] self.springs@[i].links@[k]) < (nn + 1) * (nn + 1),
                    forall|i: int|
                        0 <= i < self.fixed_flags@.len() ==> !(#[trigger] self.fixed_flags@[i]),
                    self.nb_vertices == old(self).nb_vertices,
                    self.vertices == old(self).vertices,
                    self.indices == old(self).indices,
                decreases n + 1 - col,
            {
                proof {
                    lemma_grid_idx_bounds(nn, row as int, col as int);
                }
                let own: u32 = row * (n + 1) + col;
                let mut links: Vec<u32> = Vec::new();
                let mut rests: Vec<i64> = Vec::new();
                let mut currents: Vec<i64> = Vec::new();
                let mut k: usize = 0;
                while k < SPRING_SLOTS
                    invariant
                        1 <= n <= MAX_SUBDIVISIONS,
                        nn == n as int,
                        row <= n,
                        col <= n,
                        own as int == grid_idx(nn, row as int, col as int),
                        (own as int) < (nn + 1) * (nn + 1),
                        k <= SPRING_SLOTS,
                        self.number_square == n,
                        self.length as int == len0,
                        len0 > 0,
                        self.center_x as int == c.0,
                        self.center_y as int == c.1,
                        self.center_z as int == c.2,
                        self.up_axis == axis,
                        in_range(c.0) && in_range(c.1) && in_range(c.2),
                        self.vertices@.len() == (nn + 1) * (nn + 1),
                        forall|r: int, c2: int|
                            0 <= r <= nn && 0 <= c2 <= nn ==> self.vertices@[#[trigger] grid_idx(
                                nn,
                                r,
                                c2,
                            )] == init_node_s(len0, nn, c, axis, r, c2),
                        forall|i: int|
                            0 <= i < self.vertices@.len() ==> (#[trigger] self.vertices@[i]).wf(),
                        links@.len() == k,
                        rests@.len() == k,
                        currents@.len() == k,
                        forall|j: int|
                            0 <= j < k ==> #[trigger] slot_ok(
                                links@[j],
                                rests@[j],
                                currents@[j],
                                len0,
                                nn,
                                c,
                                axis,
                                row as int,
                                col as int,
                                j,
                            ),
                    decreases SPRING_SLOTS - k,
                {
                    let (r2, c2): (u32, u32) = Self::slot_neighbor(n, row, col, k);
                    proof {
                        lemma_grid_idx_bounds(nn, r2 as int, c2 as int);
                    }
                    let link: u32 = r2 * (n + 1) + c2;
                    let present: bool = r2 != row || c2 != col;
                    proof {
                        let nb = slot_neighbor_s(nn, row as int, col as int, k as int);
                        let pown = init_pos_s(len0, nn, c, axis, row as int, col as int);
                        let pnb = init_pos_s(len0, nn, c, axis, nb.0, nb.1);
                        lemma_init_pos_in_range(len0, nn, c, axis, row as int, col as int);
                        lemma_init_pos_in_range(len0, nn, c, axis, nb.0, nb.1);
                        crate::vec3::lemma_vec3_of_faithful(pown);
                        crate::vec3::lemma_vec3_of_faithful(pnb);
                        assert(nb.0 == r2 as int && nb.1 == c2 as int);
                        assert(link as int == grid_idx(nn, nb.0, nb.1));
                        assert(self.vertices@[own as int] == init_node_s(
                            len0,
                            nn,
                            c,
                            axis,
                            row as int,
                            col as int,
                        ));
                        assert(self.vertices@[link as int] == init_node_s(
                            len0,
                            nn,
                            c,
                            axis,
                            nb.0,
                            nb.1,
                        ));
                        assert(self.vertices@[own as int].position@ == pown);
                        assert(self.vertices@[link as int].position@ == pnb);
                    }
                    let rest: i64 = if present {
                        self.get_norm_distance(own, link)
                    } else {
                        0
                    };
                    links.push(link);
                    rests.push(rest);
                    currents.push(0);
                    proof {
                        assert(present == slot_present_s(nn, row as int, col as int, k as int));
                        assert(slot_ok(
                            links@[k as int],
                            rests@[k as int],
                            currents@[k as int],
                            len0,
                            nn,
                            c,
                            axis,
                            row as int,
                            col as int,
                            k as int,
                        ));
                    }
                    k = k + 1;
                }
                let ghost pre_springs = self.springs@;
                let spring = Spring { links, rest_distance: rests, current_distance: currents };
                self.springs.push(spring);
                self.fixed_flags.push(false);
                proof {
                    let sp_new = self.springs@[self.springs@.len() - 1];
                    assert forall|kk: int| 0 <= kk < SPRING_SLOTS implies #[trigger] slot_ok(
                        sp_new.links@[kk],
                        sp_new.rest_distance@[kk],
                        sp_new.current_distance@[kk],
                        len0,
                        nn,
                        c,
                        axis,
                        row as int,
                        col as int,
                        kk,
                    ) by {
                        assert(slot_ok(
                            sp_new.links@[kk],
                            sp_new.rest_distance@[kk],
                            sp_new.current_distance@[kk],
                            len0,
                            nn,
                            c,
                            axis,
                            row as int,
                            col as int,
                            kk,
                        ));
                    }
                    assert(Self::spring_built(
                        self.springs@[grid_idx(nn, row as int, col as int)],
                        len0,
                        nn,
                        c,
                        axis,
                        row as int,
                        col as int,
                    ));
                    assert forall|i: int, kk: int|
                        0 <= i < self.springs@.len() && 0 <= kk < SPRING_SLOTS implies (
                    #[trigger] self.springs@[i].links@[kk]) < (nn + 1) * (nn + 1) by {
                        if i < self.springs@.len() - 1 {
                            assert(self.springs@[i] == pre_springs[i]);
                            assert(pre_springs[i].links@[kk] < (nn + 1) * (nn + 1));
                        } else {
                            assert(slot_ok(
                                sp_new.links@[kk],
                                sp_new.rest_distance@[kk],
                                sp_new.current_distance@[kk],
                                len0,
                                nn,
                                c,
                                axis,
                                row as int,
                                col as int,
                                kk,
                            ));
                        }
                    }
                    assert forall|r: int, c2: int|
                        0 <= r <= nn && 0 <= c2 <= nn && #[trigger] grid_idx(nn, r, c2)
                            < self.springs@.len() implies Self::spring_built(
                        self.springs@[grid_idx(nn, r, c2)],
                        len0,
                        nn,
                        c,
                        axis,
                        r,
                        c2,
                    ) by {
                        if grid_idx(nn, r, c2) == self.springs@.len() - 1 {
                            lemma_grid_idx_inj(nn, r, c2, row as int, col as int);
                        }
                    }
                }
                col = col + 1;
            }
            proof {
                assert((row as int + 1) * (nn + 1) == row as int * (nn + 1) + (nn + 1))
                    by (nonlinear_arith);
            }
            row = row + 1;
        }
        proof {
            assert forall|r: int, c2: int| 0 <= r <= nn && 0 <= c2 <= nn implies #[trigger] grid_idx(
                nn,
                r,
                c2,
            ) < self.springs@.len() by {
                lemma_grid_idx_bounds(nn, r, c2);
            }
        }
    }

    /// Build the vertex grid, the index buffer and the spring records.
    fn construct_vertices(&mut self)
        requires
            old(self).vertices@.len() == 0,
            old(self).indices@.len() == 0,
            old(self).springs@.len() == 0,
            old(self).fixed_flags@.len() == 0,
            1 <= old(self).number_square <= MAX_SUBDIVISIONS,
            old(self).length > 0,
            in_range(old(self).center_x as int),
            in_range(old(self).center_y as int),
            in_range(old(self).center_z as int),
        ensures
            final(self).wf(),
            final(self).is_initial(
                old(self).length as int,
                old(self).number_square as int,
                (old(self).center_x as int, old(self).center_y as int, old(self).center_z as int),
                old(self).up_axis,
            ),
    {
        let ghost nn: int = self.number_square as int;
        self.build_grid();
        proof {
            lemma_grid_idx_bounds(nn, nn, nn);
        }
        self.nb_vertices = self.vertices.len() as u32;
        self.build_indices();
        self.build_springs();
    }

    /// Build a cloth of side `length` with `number_square` subdivisions per
    /// side, centred on `center`, hanging across the two axes other than
    /// `up_axis`.  Rejects a zero subdivision count and a non-positive
    /// length with [`InvalidTopology`].  The centre must be a representable
    /// fixed-point point and the subdivision count at most
    /// [`MAX_SUBDIVISIONS`].
    pub fn new_with_axis(length: i64, number_square: u32, center: Vec3, up_axis: Axis) -> (r:
        Result<Clothe, InvalidTopology>)
        requires
            center.wf(),
            number_square <= MAX_SUBDIVISIONS,
        ensures
            r is Err <==> (number_square == 0 || length <= 0),
            r is Ok ==> (r->Ok_0).wf(),
            r is Ok ==> (r->Ok_0).is_initial(
                length as int,
                number_square as int,
                center@,
                up_axis,
            ),
    {
        if number_square == 0 || length <= 0 {
            return Err(InvalidTopology);
        }
        let mut instance = Clothe {
            length,
            number_square,
            center_x: center.x,
            center_y: center.y,
            center_z: center.z,
            nb_vertices: 0,
            vertices: Vec::new(),
            indices: Vec::new(),
            springs: Vec::new(),
            fixed_flags: Vec::new(),
            up_axis,
        };
        instance.construct_vertices();
        Ok(instance)
    }

    /// The executable unit vector along `axis`.
    fn axis_unit(axis: Axis) -> (u: Vec3)
        ensures
            u@ == axis_unit_s(axis),
            u.wf(),
    {
        match axis {
            Axis::X => Vec3 { x: FX_ONE, y: 0, z: 0 },
            Axis::Y => Vec3 { x: 0, y: FX_ONE, z: 0 },
            Axis::Z => Vec3 { x: 0, y: 0, z: FX_ONE },
        }
    }

    /// Resolve the collision of one candidate position and velocity
    /// against the sphere, as [`collide_s`] describes.
    fn collide(sphere: &Sphere, axis: Axis, pos: Vec3, vel: Vec3) -> (pv: (Vec3, Vec3))
        requires
            sphere.wf(),
            pos.wf(),
            vel.wf(),
        ensures
            pv.0@ == collide_s(*sphere, axis, pos@, vel@).0,
            pv.1@ == collide_s(*sphere, axis, pos@, vel@).1,
            pv.0.wf(),
            pv.1.wf(),
    {
        let cen = Vec3 { x: sphere.x, y: sphere.y, z: sphere.z };
        let d: i64 = pos.dist(cen);
        if d > sphere.radius {
            return (pos, vel);
        }
        let diffx: i64 = pos.x - cen.x;
        let diffy: i64 = pos.y - cen.y;
        let diffz: i64 = pos.z - cen.z;
        let dir: Vec3 = if d == 0 {
            Self::axis_unit(axis)
        } else {
            Vec3 { x: fx_div(diffx, d), y: fx_div(diffy, d), z: fx_div(diffz, d) }
        };
        let (ox, oy, oz): (i128, i128, i128) = if d == 0 {
            let o: Vec3 = Self::axis_unit(axis).mul_fx(sphere.radius);
            (o.x as i128, o.y as i128, o.z as i128)
        } else {
            proof {
                assert(diffx * sphere.radius <= 0x4000_0000_0000_0000_0000_0000_0000
                    && diffx * sphere.radius >= -0x4000_0000_0000_0000_0000_0000_0000
                    && diffy * sphere.radius <= 0x4000_0000_0000_0000_0000_0000_0000
                    && diffy * sphere.radius >= -0x4000_0000_0000_0000_0000_0000_0000
                    && diffz * sphere.radius <= 0x4000_0000_0000_0000_0000_0000_0000
                    && diffz * sphere.radius >= -0x4000_0000_0000_0000_0000_0000_0000)
                    by (nonlinear_arith)
                    requires
                        -0x1_0000_0000_0000 <= diffx <= 0x1_0000_0000_0000,
                        -0x1_0000_0000_0000 <= diffy <= 0x1_0000_0000_0000,
                        -0x1_0000_0000_0000 <= diffz <= 0x1_0000_0000_0000,
                        0 <= sphere.radius <= 0x4000_0000_0000,
                ;
            }
            (
                div_away128((diffx as i128) * (sphere.radius as i128), d as i128),
                div_away128((diffy as i128) * (sphere.radius as i128), d as i128),
                div_away128((diffz as i128) * (sphere.radius as i128), d as i128),
            )
        };
        let p2 = Vec3 {
            x: clamp128((cen.x as i128) + ox),
            y: clamp128((cen.y as i128) + oy),
            z: clamp128((cen.z as i128) + oz),
        };
        let dot: i64 = vel.dot_fx(dir);
        let v2: Vec3 = vel.sub_v(dir.mul_fx(dot)).mul_fx(fx_sub(FX_ONE, sphere.friction_factor));
        (p2, v2)
    }

    /// Distance phase: refresh every spring's current length from the live
    /// positions.  Links and rest lengths are untouched.
    fn update_distances(&mut self)
        requires
            old(self).wf(),
        ensures
            final(self).wf(),
            final(self).springs@.len() == old(self).springs@.len(),
            forall|i: int|
                0 <= i < old(self).springs@.len() ==> (#[trigger] final(self).springs@[i]).links@
                    == old(self).springs@[i].links@ && final(self).springs@[i].rest_distance@
                    == old(self).springs@[i].rest_distance@,
            forall|i: int, k: int|
                0 <= i < old(self).springs@.len() && 0 <= k < SPRING_SLOTS ==> (
                #[trigger] final(self).springs@[i].current_distance@[k]) as int == cur_dist_s(
                    old(self).vertices@,
                    old(self).springs@,
                    i,
                    k,
                ),
            final(self).length == old(self).length,
            final(self).number_square == old(self).number_square,
            final(self).center_x == old(self).center_x,
            final(self).center_y == old(self).center_y,
            final(self).center_z == old(self).center_z,
            final(self).nb_vertices == old(self).nb_vertices,
            final(self).vertices == old(self).vertices,
            final(self).indices == old(self).indices,
            final(self).fixed_flags == old(self).fixed_flags,
            final(self).up_axis == old(self).up_axis,
    {
        let ghost vs0 = self.vertices@;
        let ghost ss0 = self.springs@;
        let n_s: usize = self.springs.len();
        let mut out: Vec<Spring> = Vec::new();
        let mut i: usize = 0;
        while i < n_s
            invariant
                self.wf(),
                vs0 == self.vertices@,
                ss0 == self.springs@,
                n_s == ss0.len(),
                i <= n_s,
                out@.len() == i,
                forall|j: int|
                    0 <= j < i ==> (#[trigger] out@[j]).links@ == ss0[j].links@
                        && out@[j].rest_distance@ == ss0[j].rest_distance@ && out@[j].wf(),
                forall|j: int, k: int|
                    0 <= j < i && 0 <= k < SPRING_SLOTS ==> (
                    #[trigger] out@[j].current_distance@[k]) as int == cur_dist_s(vs0, ss0, j, k),
            decreases n_s - i,
        {
            let mut links2: Vec<u32> = Vec::new();
            let mut rests2: Vec<i64> = Vec::new();
            let mut curs2: Vec<i64> = Vec::new();
            let mut k: usize = 0;
            while k < SPRING_SLOTS
                invariant
                    self.wf(),
                    vs0 == self.vertices@,
                    ss0 == self.springs@,
                    n_s == ss0.len(),
                    i < n_s,
                    k <= SPRING_SLOTS,
                    links2@.len() == k,
                    rests2@.len() == k,
                    curs2@.len() == k,
                    forall|j: int|
                        0 <= j < k ==> (#[trigger] links2@[j]) == ss0[i as int].links@[j],
                    forall|j: int|
                        0 <= j < k ==> (#[trigger] rests2@[j]) == ss0[i as int].rest_distance@[j],
                    forall|j: int|
                        0 <= j < k ==> (#[trigger] curs2@[j]) as int == cur_dist_s(
                            vs0,
                            ss0,
                            i as int,
                            j,
                        ),
                decreases SPRING_SLOTS - k,
            {
                let lk: u32 = self.springs[i].links[k];
                let rd: i64 = self.springs[i].rest_distance[k];
                let d: i64 = self.get_norm_distance(i as u32, lk);
                links2.push(lk);
                rests2.push(rd);
                curs2.push(d);
                k = k + 1;
            }
            proof {
                assert(links2@ =~= ss0[i as int].links@);
                assert(rests2@ =~= ss0[i as int].rest_distance@);
            }
            out.push(Spring { links: links2, rest_distance: rests2, current_distance: curs2 });
            i = i + 1;
        }
        self.springs = out;
        proof {
            assert forall|i2: int, k: int|
                0 <= i2 < self.springs@.len() && 0 <= k < SPRING_SLOTS implies (
            #[trigger] self.springs@[i2].links@[k]) < self.nb_vertices by {
                assert(self.springs@[i2].links@ == ss0[i2].links@);
                assert(ss0[i2].links@[k] < self.nb_vertices);
            }
        }
    }

    /// Force phase: integrate every vertex from this tick's spring lengths
    /// (which the distance phase has already refreshed), then resolve the
    /// sphere collision.
    fn integrate_forces(&mut self, delta_time: i64, sphere: &Sphere, params: &ComputeData)
        requires
            old(self).wf(),
            sphere.wf(),
            forall|i: int, k: int|
                0 <= i < old(self).springs@.len() && 0 <= k < SPRING_SLOTS ==> (
                #[trigger] old(self).springs@[i].current_distance@[k]) as int == cur_dist_s(
                    old(self).vertices@,
                    old(self).springs@,
                    i,
                    k,
                ),
        ensures
            final(self).wf(),
            final(self).vertices@.len() == old(self).vertices@.len(),
            forall|i: int|
                0 <= i < old(self).vertices@.len() ==> #[trigger] final(self).vertices@[i]
                    == integrated_node_s(
                    old(self).vertices@,
                    old(self).springs@,
                    old(self).fixed_flags@,
                    *sphere,
                    *params,
                    delta_time as int,
                    old(self).up_axis,
                    i,
                ),
            final(self).length == old(self).length,
            final(self).number_square == old(self).number_square,
            final(self).center_x == old(self).center_x,
            final(self).center_y == old(self).center_y,
            final(self).center_z == old(self).center_z,
            final(self).nb_vertices == old(self).nb_vertices,
            final(self).springs == old(self).springs,
            final(self).indices == old(self).indices,
            final(self).fixed_flags == old(self).fixed_flags,
            final(self).up_axis == old(self).up_axis,
    {
        let ghost vs0 = self.vertices@;
        let ghost ss0 = self.springs@;
        let ghost ff0 = self.fixed_flags@;
        let ghost ax = self.up_axis;
        let n_v: usize = self.vertices.len();
        let mut out: Vec<Node> = Vec::new();
        let mut i: usize = 0;
        while i < n_v
            invariant
                self.wf(),
                sphere.wf(),
                vs0 == self.vertices@,
                ss0 == self.springs@,
                ff0 == self.fixed_flags@,
                ax == self.up_axis,
                forall|i2: int, k: int|
                    0 <= i2 < ss0.len() && 0 <= k < SPRING_SLOTS ==> (
                    #[trigger] ss0[i2].current_distance@[k]) as int == cur_dist_s(vs0, ss0, i2, k),
                n_v == vs0.len(),
                i <= n_v,
                out@.len() == i,
                forall|j: int|
                    0 <= j < i ==> #[trigger] out@[j] == integrated_node_s(
                        vs0,
                        ss0,
                        ff0,
                        *sphere,
                        *params,
                        delta_time as int,
                        ax,
                        j,
                    ),
                forall|j: int| 0 <= j < i ==> (#[trigger] out@[j]).wf(),
            decreases n_v - i,
        {
            let node: Node = self.vertices[i];
            let held: bool = self.fixed_flags[i];
            let new_node: Node;
            if held {
                new_node = Node {
                    position: node.position,
                    normal: node.normal,
                    velocity: node.velocity,
                    resultant: Vec3 { x: 0, y: 0, z: 0 },
                    tex_coords: node.tex_coords,
                };
            } else {
                let mut acc: Vec3 = Vec3 { x: 0, y: 0, z: 0 };
                let mut k: usize = 0;
                while k < SPRING_SLOTS
                    invariant
                        self.wf(),
                        vs0 == self.vertices@,
                        ss0 == self.springs@,
                        forall|i2: int, k2: int|
                            0 <= i2 < ss0.len() && 0 <= k2 < SPRING_SLOTS ==> (
                            #[trigger] ss0[i2].current_distance@[k2]) as int == cur_dist_s(
                                vs0,
                                ss0,
                                i2,
                                k2,
                            ),
                        n_v == vs0.len(),
                        i < n_v,
                        node == vs0[i as int],
                        k <= SPRING_SLOTS,
                        acc@ == force_sum_s(
                            vs0,
                            ss0,
                            params.spring_constant as int,
                            i as int,
                            k as int,
                        ),
                        acc.wf(),
                    decreases SPRING_SLOTS - k,
                {
                    let ghost acc_pre = acc@;
                    let link: u32 = self.springs[i].links[k];
                    if link as usize != i {
                        let cur: i64 = self.springs[i].current_distance[k];
                        if cur >= DIST_EPSILON {
                            let rest: i64 = self.springs[i].rest_distance[k];
                            let coeff: i64 = fx_mul(params.spring_constant, fx_sub(cur, rest));
                            let diff: Vec3 = self.vertices[link as usize].position.sub_v(
                                node.position,
                            );
                            let fvec = Vec3 {
                                x: fx_mul(fx_div(diff.x, cur), coeff),
                                y: fx_mul(fx_div(diff.y, cur), coeff),
                                z: fx_mul(fx_div(diff.z, cur), coeff),
                            };
                            acc = acc.add_v(fvec);
                            proof {
                                assert(fvec@ == slot_force_s(
                                    vs0,
                                    ss0,
                                    params.spring_constant as int,
                                    i as int,
                                    k as int,
                                ));
                            }
                        } else {
                            proof {
                                assert(slot_force_s(
                                    vs0,
                                    ss0,
                                    params.spring_constant as int,
                                    i as int,
                                    k as int,
                                ) == (0int, 0int, 0int));
                                assert(v_add_s(acc_pre, (0int, 0int, 0int)) == acc_pre);
                            }
                        }
                    } else {
                        proof {
                            assert(slot_force_s(
                                vs0,
                                ss0,
                                params.spring_constant as int,
                                i as int,
                                k as int,
                            ) == (0int, 0int, 0int));
                            assert(v_add_s(acc_pre, (0int, 0int, 0int)) == acc_pre);
                        }
                    }
                    k = k + 1;
                }
                let g: i64 = fx_mul(params.mass, params.gravity);
                let gvec: Vec3 = Self::axis_unit(self.up_axis).mul_fx(g);
                let res: Vec3 = acc.sub_v(gvec);
                let v2 = Vec3 {
                    x: fx_sub(
                        fx_add(node.velocity.x, fx_mul(fx_div(res.x, params.mass), delta_time)),
                        fx_mul(fx_mul(node.velocity.x, params.damping_factor), delta_time),
                    ),
                    y: fx_sub(
                        fx_add(node.velocity.y, fx_mul(fx_div(res.y, params.mass), delta_time)),
                        fx_mul(fx_mul(node.velocity.y, params.damping_factor), delta_time),
                    ),
                    z: fx_sub(
                        fx_add(node.velocity.z, fx_mul(fx_div(res.z, params.mass), delta_time)),
                        fx_mul(fx_mul(node.velocity.z, params.damping_factor), delta_time),
                    ),
                };
                let p2 = Vec3 {
                    x: fx_add(node.position.x, fx_mul(v2.x, delta_time)),
                    y: fx_add(node.position.y, fx_mul(v2.y, delta_time)),
                    z: fx_add(node.position.z, fx_mul(v2.z, delta_time)),
                };
                let (p3, v3): (Vec3, Vec3) = Self::collide(sphere, self.up_axis, p2, v2);
                new_node = Node {
                    position: p3,
                    normal: node.normal,
                    velocity: v3,
                    resultant: Vec3 { x: 0, y: 0, z: 0 },
                    tex_coords: node.tex_coords,
                };
                proof {
                    let pv = candidate_s(vs0, ss0, ff0, *params, delta_time as int, ax, i as int);
                    assert(p2@ == pv.0 && v2@ == pv.1);
                }
            }
            proof {
                assert(new_node == integrated_node_s(
                    vs0,
                    ss0,
                    ff0,
                    *sphere,
                    *params,
                    delta_time as int,
                    ax,
                    i as int,
                ));
            }
            out.push(new_node);
            i = i + 1;
        }
        self.vertices = out;
    }

    /// Normal phase: recompute every vertex's shading normal from the
    /// positions its structural neighbours now hold.
    /// The recomputed shading normal of vertex `i`, as [`normal_s`]
    /// describes.
    #[verifier::rlimit(100)]
    fn compute_normal(&self, i: usize) -> (nrm: Vec3)
        requires
            self.wf(),
            i < self.vertices@.len(),
        ensures
            nrm@ == normal_s(self.vertices@, self.springs@, self.up_axis, i as int),
            nrm.wf(),
    {
        let node: Node = self.vertices[i];
        let iu: u32 = i as u32;
        let lt: u32 = self.springs[i].links[1];
        let lr: u32 = self.springs[i].links[3];
        let lb: u32 = self.springs[i].links[5];
        let ll: u32 = self.springs[i].links[7];
        let tt: Vec3 = self.vertices[lt as usize].position.sub_v(node.position);
        let tr: Vec3 = self.vertices[lr as usize].position.sub_v(node.position);
        let tb: Vec3 = self.vertices[lb as usize].position.sub_v(node.position);
        let tl: Vec3 = self.vertices[ll as usize].position.sub_v(node.position);
        let mut acc: Vec3 = Vec3 { x: 0, y: 0, z: 0 };
        if lr != iu && lt != iu {
            acc = acc.add_v(tr.cross_v(tt));
        }
        if lt != iu && ll != iu {
            acc = acc.add_v(tt.cross_v(tl));
        }
        if ll != iu && lb != iu {
            acc = acc.add_v(tl.cross_v(tb));
        }
        if lb != iu && lr != iu {
            acc = acc.add_v(tb.cross_v(tr));
        }
        let len: i64 = acc.dist(Vec3 { x: 0, y: 0, z: 0 });
        if len < DIST_EPSILON {
            Self::axis_unit(self.up_axis)
        } else {
            Vec3 { x: fx_div(acc.x, len), y: fx_div(acc.y, len), z: fx_div(acc.z, len) }
        }
    }

    fn update_normals(&mut self)
        requires
            old(self).wf(),
        ensures
            final(self).wf(),
            final(self).vertices@.len() == old(self).vertices@.len(),
            forall|i: int|
                0 <= i < old(self).vertices@.len() ==> #[trigger] final(self).vertices@[i] == (Node {
                    position: old(self).vertices@[i].position,
                    normal: vec3_of(
                        normal_s(old(self).vertices@, old(self).springs@, old(self).up_axis, i),
                    ),
                    velocity: old(self).vertices@[i].velocity,
                    resultant: old(self).vertices@[i].resultant,
                    tex_coords: old(self).vertices@[i].tex_coords,
                }),
            final(self).length == old(self).length,
            final(self).number_square == old(self).number_square,
            final(self).center_x == old(self).center_x,
            final(self).center_y == old(self).center_y,
            final(self).center_z == old(self).center_z,
            final(self).nb_vertices == old(self).nb_vertices,
            final(self).springs == old(self).springs,
            final(self).indices == old(self).indices,
            final(self).fixed_flags == old(self).fixed_flags,
            final(self).up_axis == old(self).up_axis,
    {
        let ghost vs0 = self.vertices@;
        let ghost ss0 = self.springs@;
        let ghost ax = self.up_axis;
        let n_v: usize = self.vertices.len();
        let mut out: Vec<Node> = Vec::new();
        let mut i: usize = 0;
        while i < n_v
            invariant
                self.wf(),
                vs0 == self.vertices@,
                ss0 == self.springs@,
                ax == self.up_axis,
                n_v == vs0.len(),
                i <= n_v,
                out@.len() == i,
                forall|j: int|
                    0 <= j < i ==> #[trigger] out@[j] == (Node {
                        position: vs0[j].position,
                        normal: vec3_of(normal_s(vs0, ss0, ax, j)),
                        velocity: vs0[j].velocity,
                        resultant: vs0[j].resultant,
                        tex_coords: vs0[j].tex_coords,
                    }),
                forall|j: int| 0 <= j < i ==> (#[trigger] out@[j]).wf(),
            decreases n_v - i,
        {
            let node: Node = self.vertices[i];
            let nrm: Vec3 = self.compute_normal(i);
            let new_node = Node {
                position: node.position,
                normal: nrm,
                velocity: node.velocity,
                resultant: node.resultant,
                tex_coords: node.tex_coords,
            };
            out.push(new_node);
            i = i + 1;
        }
        self.vertices = out;
    }

    /// Advance the simulation by one tick of `delta_time`: refresh all
    /// spring lengths, integrate forces and resolve the sphere collision on
    /// every vertex, then recompute all normals.  A negative `delta_time`
    /// is rejected with [`InvalidTick`] and leaves the state untouched;
    /// otherwise every vertex ends as [`stepped_node_s`] describes and
    /// every spring's current length as [`cur_dist_s`], both functions of
    /// the pre-tick state alone.  The sphere's centre and radius must be
    /// representable fixed-point values.
    pub fn step(&mut self, delta_time: i64, sphere: Sphere, params: ComputeData) -> (r: Result<
        (),
        InvalidTick,
    >)
        requires
            old(self).wf(),
            sphere.wf(),
        ensures
            final(self).wf(),
            r is Err <==> delta_time < 0,
            delta_time < 0 ==> *final(self) == *old(self),
            delta_time >= 0 ==> {
                &&& final(self).vertices@.len() == old(self).vertices@.len()
                &&& forall|i: int|
                    0 <= i < old(self).vertices@.len() ==> #[trigger] final(self).vertices@[i]
                        == stepped_node_s(
                        old(self).vertices@,
                        old(self).springs@,
                        old(self).fixed_flags@,
                        sphere,
                        params,
                        delta_time as int,
                        old(self).up_axis,
                        i,
                    )
                &&& final(self).springs@.len() == old(self).springs@.len()
                &&& forall|i: int|
                    0 <= i < old(self).springs@.len() ==> (#[trigger] final(self).springs@[i]).links@
                        == old(self).springs@[i].links@ && final(self).springs@[i].rest_distance@
                        == old(self).springs@[i].rest_distance@
                &&& forall|i: int, k: int|
                    0 <= i < old(self).springs@.len() && 0 <= k < SPRING_SLOTS ==> (
                    #[trigger] final(self).springs@[i].current_distance@[k]) as int == cur_dist_s(
                        old(self).vertices@,
                        old(self).springs@,
                        i,
                        k,
                    )
            },
            final(self).length == old(self).length,
            final(self).number_square == old(self).number_square,
            final(self).center_x == old(self).center_x,
            final(self).center_y == old(self).center_y,
            final(self).center_z == old(self).center_z,
            final(self).nb_vertices == old(self).nb_vertices,
            final(self).indices == old(self).indices,
            final(self).fixed_flags == old(self).fixed_flags,
            final(self).up_axis == old(self).up_axis,
    {
        if delta_time < 0 {
            return Err(InvalidTick);
        }
        let ghost vs0 = self.vertices@;
        let ghost ss0 = self.springs@;
        let ghost ff0 = self.fixed_flags@;
        let ghost ax = self.up_axis;
        self.update_distances();
        let ghost ss1 = self.springs@;
        proof {
            assert forall|i: int, k: int|
                0 <= i < ss1.len() && 0 <= k < SPRING_SLOTS implies (
            #[trigger] ss1[i].current_distance@[k]) as int == cur_dist_s(vs0, ss1, i, k) by {
                assert(ss1[i].current_distance@[k] as int == cur_dist_s(vs0, ss0, i, k));
                assert(ss1[i].links@ == ss0[i].links@);
            }
        }
        self.integrate_forces(delta_time, &sphere, &params);
        proof {
            assert forall|i: int| 0 <= i < vs0.len() implies #[trigger] self.vertices@[i]
                == integrated_node_s(
                vs0,
                ss0,
                ff0,
                sphere,
                params,
                delta_time as int,
                ax,
                i,
            ) by {
                lemma_integrated_congruent(
                    vs0,
                    ss1,
                    ss0,
                    ff0,
                    sphere,
                    params,
                    delta_time as int,
                    ax,
                    i,
                );
            }
            assert(self.vertices@ =~= integrated_seq_s(
                vs0,
                ss0,
                ff0,
                sphere,
                params,
                delta_time as int,
                ax,
            ));
        }
        let ghost mid = self.vertices@;
        self.update_normals();
        proof {
            assert forall|i: int| 0 <= i < vs0.len() implies #[trigger] self.vertices@[i]
                == stepped_node_s(
                vs0,
                ss0,
                ff0,
                sphere,
                params,
                delta_time as int,
                ax,
                i,
            ) by {
                lemma_normal_congruent(mid, ss1, ss0, ax, i);
                assert(self.vertices@[i] == (Node {
                    position: mid[i].position,
                    normal: vec3_of(normal_s(mid, ss1, ax, i)),
                    velocity: mid[i].velocity,
                    resultant: mid[i].resultant,
                    tex_coords: mid[i].tex_coords,
                }));
            }
        }
        Ok(())
    }

    /// Hold vertex `index` in place (or release it): a held vertex is
    /// skipped by the force phase and keeps its position and velocity.
    pub fn set_fixed(&mut self, index: u32, value: bool)
        requires
            old(self).wf(),
            (index as int) < old(self).fixed_flags@.len(),
        ensures
            final(self).wf(),
            final(self).fixed_flags@ == old(self).fixed_flags@.update(index as int, value),
            final(self).length == old(self).length,
            final(self).number_square == old(self).number_square,
            final(self).center_x == old(self).center_x,
            final(self).center_y == old(self).center_y,
            final(self).center_z == old(self).center_z,
            final(self).nb_vertices == old(self).nb_vertices,
            final(self).vertices == old(self).vertices,
            final(self).springs == old(self).springs,
            final(self).indices == old(self).indices,
            final(self).up_axis == old(self).up_axis,
    {
        self.fixed_flags[index as usize] = value;
    }

    /// [`Clothe::new_with_axis`] with the conventional vertical axis `Y`.
    pub fn new(length: i64, number_square: u32, center: Vec3) -> (r: Result<
        Clothe,
        InvalidTopology,
    >)
        requires
            center.wf(),
            number_square <= MAX_SUBDIVISIONS,
        ensures
            r is Err <==> (number_square == 0 || length <= 0),
            r is Ok ==> (r->Ok_0).wf(),
            r is Ok ==> (r->Ok_0).is_initial(
                length as int,
                number_square as int,
                center@,
                Axis::Y,
            ),
    {
        Self::new_with_axis(length, number_square, center, Axis::Y)
    }
}

} // verus!
