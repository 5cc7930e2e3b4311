//! Properties of the simulation that hold for every input, stated and
//! proved over the specification functions of the other modules.

use vstd::prelude::*;

use crate::clothe::candidate_s;
use crate::clothe::collide_s;
use crate::clothe::cur_dist_s;
use crate::clothe::force_sum_s;
use crate::clothe::grid_idx;
use crate::clothe::slot_neighbor_s;
use crate::clothe::slot_present_s;
use crate::clothe::step_pos_vel_s;
use crate::clothe::stepped_node_s;
use crate::clothe::Axis;
use crate::clothe::Clothe;
use crate::data_containers::ComputeData;
use crate::data_containers::Sphere;
use crate::fixed::div_away;
use crate::fixed::fx_div_s;
use crate::fixed::fx_mul_s;
use crate::fixed::is_sqrt_floor;
use crate::fixed::lemma_sqrt_floor_at_least;
use crate::fixed::lemma_sqrt_floor_exists;
use crate::fixed::lemma_sqrt_floor_unique;
use crate::fixed::sqrt_floor;
use crate::fixed::FX_BOUND;
use crate::fixed::FX_ONE;
use crate::node::Node;
use crate::spring::Spring;
use crate::spring::SPRING_SLOTS;
use crate::vec3::dist_s;
use crate::vec3::norm_sq_s;
use crate::vec3::t_in_range;

verus! {

/// A freshly built cloth has exactly `(n+1)^2` vertices, `6 n^2` triangle
/// indices, and one spring record per vertex.
pub proof fn lemma_grid_counts(c: Clothe, length: int, n: int, cen: (int, int, int), axis: Axis)
    requires
        c.is_initial(length, n, cen, axis),
    ensures
        c.vertices@.len() == (n + 1) * (n + 1),
        c.indices@.len() == 6 * n * n,
        c.springs@.len() == c.vertices@.len(),
{
}

/// On a freshly built cloth, every populated spring slot's rest length is
/// exactly the measured distance between the initial positions of the two
/// vertices it connects.
pub proof fn lemma_initial_rest_lengths(
    c: Clothe,
    length: int,
    n: int,
    cen: (int, int, int),
    axis: Axis,
    row: int,
    col: int,
    k: int,
)
    requires
        c.is_initial(length, n, cen, axis),
        0 <= row <= n,
        0 <= col <= n,
        0 <= k < SPRING_SLOTS,
        slot_present_s(n, row, col, k),
    ensures
        c.springs@[grid_idx(n, row, col)].rest_distance@[k] == dist_s(
            c.vertices@[grid_idx(n, row, col)].position@,
            c.vertices@[grid_idx(
                n,
                slot_neighbor_s(n, row, col, k).0,
                slot_neighbor_s(n, row, col, k).1,
            )].position@,
        ),
{
    let nb = slot_neighbor_s(n, row, col, k);
    assert(0 <= nb.0 <= n && 0 <= nb.1 <= n);
    assert(c.vertices@[grid_idx(n, row, col)] == crate::clothe::init_node_s(
        length,
        n,
        cen,
        axis,
        row,
        col,
    ));
    assert(c.vertices@[grid_idx(n, nb.0, nb.1)] == crate::clothe::init_node_s(
        length,
        n,
        cen,
        axis,
        nb.0,
        nb.1,
    ));
    assert(Clothe::spring_built(c.springs@[grid_idx(n, row, col)], length, n, cen, axis, row, col));
    assert(crate::clothe::slot_ok(
        c.springs@[grid_idx(n, row, col)].links@[k],
        c.springs@[grid_idx(n, row, col)].rest_distance@[k],
        c.springs@[grid_idx(n, row, col)].current_distance@[k],
        length,
        n,
        cen,
        axis,
        row,
        col,
        k,
    ));
    let p1 = crate::clothe::init_pos_s(length, n, cen, axis, row, col);
    let p2 = crate::clothe::init_pos_s(length, n, cen, axis, nb.0, nb.1);
    assert(crate::vec3::vec3_of(p1)@ == p1);
    assert(crate::vec3::vec3_of(p2)@ == p2);
}

/// Multiplying by a zero deviation gives a zero fixed-point product.
proof fn lemma_fx_mul_zero(a: int)
    ensures
        fx_mul_s(a, 0) == 0,
        fx_mul_s(0, a) == 0,
{
    vstd::arithmetic::div_mod::lemma_div_of0(FX_ONE as int);
}

/// A zero numerator gives a zero fixed-point quotient.
proof fn lemma_fx_div_zero(b: int)
    ensures
        fx_div_s(0, b) == 0,
{
    if b > 0 {
        vstd::arithmetic::div_mod::lemma_div_of0(b);
    }
}

/// When every slot of vertex `i` measures exactly its rest length, the
/// spring forces cancel slot by slot: the sum is exactly zero.
proof fn lemma_flat_force_sum_zero(
    vs: Seq<Node>,
    ss: Seq<Spring>,
    spring_constant: int,
    i: int,
    upto: int,
)
    requires
        0 <= i < vs.len(),
        i < ss.len(),
        forall|k: int|
            0 <= k < SPRING_SLOTS ==> #[trigger] cur_dist_s(vs, ss, i, k)
                == ss[i].rest_distance@[k],
        0 <= upto <= SPRING_SLOTS,
    ensures
        force_sum_s(vs, ss, spring_constant, i, upto) == (0int, 0int, 0int),
    decreases upto,
{
    if upto > 0 {
        lemma_flat_force_sum_zero(vs, ss, spring_constant, i, upto - 1);
        let k = upto - 1;
        let link = ss[i].links@[k] as int;
        if link != i {
            let cur = cur_dist_s(vs, ss, i, k);
            if cur >= crate::fixed::DIST_EPSILON {
                lemma_fx_mul_zero(spring_constant);
                let diff = crate::vec3::v_sub_s(vs[link].position@, vs[i].position@);
                lemma_fx_mul_zero(fx_div_s(diff.0, cur));
                lemma_fx_mul_zero(fx_div_s(diff.1, cur));
                lemma_fx_mul_zero(fx_div_s(diff.2, cur));
            }
        }
    }
}

/// Flat-grid fixed point: with zero gravity, zero velocity, every spring
/// slot of vertex `i` at exactly its rest length, and the vertex clear of
/// the sphere, one tick leaves the vertex's position unchanged and its
/// velocity zero — exactly, not merely within a tolerance.  Damping has no
/// effect because the velocity is already zero.
pub proof fn lemma_flat_grid_fixed_point(
    vs: Seq<Node>,
    ss: Seq<Spring>,
    ff: Seq<bool>,
    sphere: Sphere,
    params: ComputeData,
    dt: int,
    axis: Axis,
    i: int,
)
    requires
        0 <= i < vs.len(),
        i < ss.len(),
        i < ff.len(),
        vs[i].wf(),
        params.gravity == 0,
        vs[i].velocity@ == (0int, 0int, 0int),
        forall|k: int|
            0 <= k < SPRING_SLOTS ==> #[trigger] cur_dist_s(vs, ss, i, k)
                == ss[i].rest_distance@[k],
        dist_s(vs[i].position@, (sphere.x as int, sphere.y as int, sphere.z as int))
            > sphere.radius,
    ensures
        stepped_node_s(vs, ss, ff, sphere, params, dt, axis, i).position == vs[i].position,
        stepped_node_s(vs, ss, ff, sphere, params, dt, axis, i).velocity@ == (0int, 0int, 0int),
{
    let p = vs[i].position@;
    if !ff[i] {
        lemma_flat_force_sum_zero(vs, ss, params.spring_constant as int, i, SPRING_SLOTS as int);
        lemma_fx_mul_zero(params.mass as int);
        let u = crate::clothe::axis_unit_s(axis);
        lemma_fx_mul_zero(u.0);
        lemma_fx_mul_zero(u.1);
        lemma_fx_mul_zero(u.2);
        let res = crate::clothe::resultant_s(vs, ss, params, axis, i);
        assert(res == (0int, 0int, 0int));
        lemma_fx_div_zero(params.mass as int);
        lemma_fx_mul_zero(params.mass as int);
        lemma_fx_mul_zero(dt);
        lemma_fx_mul_zero(params.damping_factor as int);
        let pv = crate::clothe::candidate_s(vs, ss, ff, params, dt, axis, i);
        assert(pv.1 == (0int, 0int, 0int));
        assert(pv.0 == p);
    }
    assert(step_pos_vel_s(vs, ss, ff, sphere, params, dt, axis, i) == (p, (0int, 0int, 0int)));
    assert(crate::vec3::vec3_of(p) == vs[i].position);
}

/// A freshly built cloth is a fixed point of the tick wherever it clears
/// the sphere: its spring lengths all equal their rest lengths and its
/// velocities are zero, so with zero gravity one tick moves no vertex.
pub proof fn lemma_fresh_grid_fixed_point(
    c: Clothe,
    length: int,
    n: int,
    cen: (int, int, int),
    axis: Axis,
    sphere: Sphere,
    params: ComputeData,
    dt: int,
    row: int,
    col: int,
)
    requires
        c.wf(),
        c.is_initial(length, n, cen, axis),
        params.gravity == 0,
        0 <= row <= n,
        0 <= col <= n,
        dist_s(
            c.vertices@[grid_idx(n, row, col)].position@,
            (sphere.x as int, sphere.y as int, sphere.z as int),
        ) > sphere.radius,
    ensures
        stepped_node_s(
            c.vertices@,
            c.springs@,
            c.fixed_flags@,
            sphere,
            params,
            dt,
            axis,
            grid_idx(n, row, col),
        ).position == c.vertices@[grid_idx(n, row, col)].position,
        stepped_node_s(
            c.vertices@,
            c.springs@,
            c.fixed_flags@,
            sphere,
            params,
            dt,
            axis,
            grid_idx(n, row, col),
        ).velocity@ == (0int, 0int, 0int),
{
    let vs = c.vertices@;
    let ss = c.springs@;
    let i = grid_idx(n, row, col);
    assert(0 <= i < (n + 1) * (n + 1)) by (nonlinear_arith)
        requires
            0 <= row <= n,
            0 <= col <= n,
            i == row * (n + 1) + col,
    ;
    assert(vs[i] == crate::clothe::init_node_s(length, n, cen, axis, row, col));
    assert(Clothe::spring_built(ss[i], length, n, cen, axis, row, col));
    assert forall|k: int| 0 <= k < SPRING_SLOTS implies #[trigger] cur_dist_s(vs, ss, i, k)
        == ss[i].rest_distance@[k] by {
        assert(crate::clothe::slot_ok(
            ss[i].links@[k],
            ss[i].rest_distance@[k],
            ss[i].current_distance@[k],
            length,
            n,
            cen,
            axis,
            row,
            col,
            k,
        ));
        let nb = slot_neighbor_s(n, row, col, k);
        assert(0 <= nb.0 <= n && 0 <= nb.1 <= n);
        assert(ss[i].links@[k] as int == grid_idx(n, nb.0, nb.1));
        let p1 = crate::clothe::init_pos_s(length, n, cen, axis, row, col);
        let p2 = crate::clothe::init_pos_s(length, n, cen, axis, nb.0, nb.1);
        assert(vs[grid_idx(n, nb.0, nb.1)] == crate::clothe::init_node_s(
            length,
            n,
            cen,
            axis,
            nb.0,
            nb.1,
        ));
        assert(crate::vec3::vec3_of(p1)@ == p1);
        assert(crate::vec3::vec3_of(p2)@ == p2);
        if !slot_present_s(n, row, col, k) {
            assert(nb == (row, col));
            assert(ss[i].links@[k] as int == i);
            assert(crate::vec3::norm_sq_s(vs[i].position@, vs[i].position@) == 0);
            crate::fixed::lemma_sqrt_floor_unique(0, 0);
        }
    }
    lemma_flat_grid_fixed_point(vs, ss, c.fixed_flags@, sphere, params, dt, axis, i);
}

/// Rounding a quotient away from zero does not round below the exact
/// quotient: `d * div_away(p, d) >= p` for a non-negative dividend.
proof fn lemma_div_away_lower(p: int, d: int)
    requires
        p >= 0,
        d >= 1,
    ensures
        d * div_away(p, d) >= p,
        div_away(p, d) >= 0,
{
    let m = p + d - 1;
    vstd::arithmetic::div_mod::lemma_fundamental_div_mod(m, d);
    vstd::arithmetic::div_mod::lemma_mod_division_less_than_divisor(m, d);
    vstd::arithmetic::div_mod::lemma_div_pos_is_pos(m, d);
}

/// Rounding away from zero never exceeds a bound the exact quotient meets.
proof fn lemma_div_away_upper(p: int, d: int, b: int)
    requires
        p >= 0,
        d >= 1,
        b >= 0,
        p <= d * b,
    ensures
        div_away(p, d) <= b,
{
    let m = p + d - 1;
    vstd::arithmetic::div_mod::lemma_fundamental_div_mod(m, d);
    vstd::arithmetic::div_mod::lemma_mod_division_less_than_divisor(m, d);
    let q = m / d;
    if q > b {
        assert(d * q >= d * (b + 1)) by (nonlinear_arith)
            requires
                d >= 1,
                q >= b + 1,
        ;
        assert(d * (b + 1) == d * b + d) by (nonlinear_arith);
        assert(false);
    }
}

/// One component of the radial push-out: its magnitude stays within the
/// radius, and scaled by the distance it dominates the exact product
/// `diff * r`.
proof fn lemma_clamp_comp(diff: int, r: int, d: int)
    requires
        d >= 1,
        r >= 0,
        -d <= diff <= d,
    ensures
        -r <= div_away(diff * r, d) <= r,
        div_away(diff * r, d) * div_away(diff * r, d) * (d * d) >= (diff * r) * (diff * r),
{
    let p = diff * r;
    if p >= 0 {
        assert(p <= d * r) by (nonlinear_arith)
            requires
                p == diff * r,
                diff <= d,
                r >= 0,
        ;
        lemma_div_away_lower(p, d);
        lemma_div_away_upper(p, d, r);
        let o = div_away(p, d);
        assert(o * o * (d * d) >= p * p) by (nonlinear_arith)
            requires
                d * o >= p,
                p >= 0,
                d >= 1,
                o >= 0,
        ;
    } else {
        assert(-p <= d * r) by (nonlinear_arith)
            requires
                p == diff * r,
                -d <= diff,
                r >= 0,
        ;
        lemma_div_away_lower(-p, d);
        lemma_div_away_upper(-p, d, r);
        let q = div_away(-p, d);
        assert(div_away(p, d) == -q);
        assert(q * q * (d * d) >= p * p) by (nonlinear_arith)
            requires
                d * q >= -p,
                -p >= 0,
                d >= 1,
                q >= 0,
        ;
        assert((-q) * (-q) == q * q) by (nonlinear_arith);
    }
}

/// No tunneling: a candidate position on or inside the sphere is pushed
/// out to a distance of at least the radius — the collision response never
/// leaves a vertex strictly inside the obstacle.  The sphere must fit in
/// the representable range with its radius to spare, so that the pushed
/// position cannot saturate.
pub proof fn lemma_collide_no_tunnel(
    sphere: Sphere,
    axis: Axis,
    pos: (int, int, int),
    vel: (int, int, int),
)
    requires
        t_in_range(pos),
        sphere.wf(),
        0 <= sphere.radius < FX_BOUND,
        -FX_BOUND + sphere.radius <= sphere.x <= FX_BOUND - sphere.radius,
        -FX_BOUND + sphere.radius <= sphere.y <= FX_BOUND - sphere.radius,
        -FX_BOUND + sphere.radius <= sphere.z <= FX_BOUND - sphere.radius,
        dist_s(pos, (sphere.x as int, sphere.y as int, sphere.z as int)) <= sphere.radius,
    ensures
        dist_s(
            collide_s(sphere, axis, pos, vel).0,
            (sphere.x as int, sphere.y as int, sphere.z as int),
        ) >= sphere.radius,
{
    let cen = (sphere.x as int, sphere.y as int, sphere.z as int);
    let r = sphere.radius as int;
    let f0 = pos.0 - cen.0;
    let f1 = pos.1 - cen.1;
    let f2 = pos.2 - cen.2;
    let sq = norm_sq_s(pos, cen);
    assert(f0 * f0 >= 0 && f1 * f1 >= 0 && f2 * f2 >= 0) by (nonlinear_arith);
    lemma_sqrt_floor_exists(sq);
    let root = sqrt_floor(sq);
    let d = dist_s(pos, cen);
    assert(root <= FX_BOUND);
    assert(d == root);
    if d == 0 {
        assert(root == 0);
        assert(is_sqrt_floor(sq, 0));
        assert(sq < (0 + 1) * (0 + 1));
        assert(f0 == 0 && f1 == 0 && f2 == 0) by (nonlinear_arith)
            requires
                f0 * f0 + f1 * f1 + f2 * f2 == sq,
                f0 * f0 >= 0,
                f1 * f1 >= 0,
                f2 * f2 >= 0,
                sq < 1,
        ;
        let u = crate::clothe::axis_unit_s(axis);
        vstd::arithmetic::div_mod::lemma_div_multiples_vanish(r, FX_ONE as int);
        lemma_fx_mul_zero(r);
        assert(fx_mul_s(FX_ONE as int, r) == r);
        let out = crate::vec3::v_mul_fx_s(u, r);
        let p2 = collide_s(sphere, axis, pos, vel).0;
        assert(norm_sq_s(p2, cen) == r * r) by (nonlinear_arith)
            requires
                (p2.0 - cen.0) * (p2.0 - cen.0) + (p2.1 - cen.1) * (p2.1 - cen.1) + (p2.2 - cen.2)
                    * (p2.2 - cen.2) == norm_sq_s(p2, cen),
                (p2.0 - cen.0 == r && p2.1 - cen.1 == 0 && p2.2 - cen.2 == 0) || (p2.0 - cen.0 == 0
                    && p2.1 - cen.1 == r && p2.2 - cen.2 == 0) || (p2.0 - cen.0 == 0 && p2.1 - cen.1
                    == 0 && p2.2 - cen.2 == r),
        ;
        assert(is_sqrt_floor(r * r, r)) by (nonlinear_arith)
            requires
                r >= 0,
        ;
        lemma_sqrt_floor_unique(r * r, r);
    } else {
        assert(-d <= f0 <= d && -d <= f1 <= d && -d <= f2 <= d) by (nonlinear_arith)
            requires
                is_sqrt_floor(sq, d),
                f0 * f0 + f1 * f1 + f2 * f2 == sq,
                f0 * f0 >= 0,
                f1 * f1 >= 0,
                f2 * f2 >= 0,
        ;
        lemma_clamp_comp(f0, r, d);
        lemma_clamp_comp(f1, r, d);
        lemma_clamp_comp(f2, r, d);
        let o0 = div_away(f0 * r, d);
        let o1 = div_away(f1 * r, d);
        let o2 = div_away(f2 * r, d);
        assert((o0 * o0 + o1 * o1 + o2 * o2) * (d * d) >= sq * (r * r)) by (nonlinear_arith)
            requires
                o0 * o0 * (d * d) >= (f0 * r) * (f0 * r),
                o1 * o1 * (d * d) >= (f1 * r) * (f1 * r),
                o2 * o2 * (d * d) >= (f2 * r) * (f2 * r),
                f0 * f0 + f1 * f1 + f2 * f2 == sq,
        ;
        assert(sq * (r * r) >= (d * d) * (r * r)) by (nonlinear_arith)
            requires
                d * d <= sq,
        ;
        assert(o0 * o0 + o1 * o1 + o2 * o2 >= r * r) by (nonlinear_arith)
            requires
                (o0 * o0 + o1 * o1 + o2 * o2) * (d * d) >= (d * d) * (r * r),
                d >= 1,
        ;
        let p2 = collide_s(sphere, axis, pos, vel).0;
        assert(p2.0 == cen.0 + o0 && p2.1 == cen.1 + o1 && p2.2 == cen.2 + o2);
        assert(norm_sq_s(p2, cen) == o0 * o0 + o1 * o1 + o2 * o2);
        lemma_sqrt_floor_at_least(norm_sq_s(p2, cen), r);
        lemma_sqrt_floor_exists(norm_sq_s(p2, cen));
    }
}

/// No tunneling, at the level of a whole tick: if the unclamped candidate
/// position of a vertex that is not held fixed would lie on or inside the
/// sphere, the vertex's post-tick distance to the sphere's centre is at
/// least the radius.
pub proof fn lemma_step_no_tunneling(
    vs: Seq<Node>,
    ss: Seq<Spring>,
    ff: Seq<bool>,
    sphere: Sphere,
    params: ComputeData,
    dt: int,
    axis: Axis,
    i: int,
)
    requires
        0 <= i < vs.len(),
        i < ss.len(),
        i < ff.len(),
        !ff[i],
        sphere.wf(),
        0 <= sphere.radius < FX_BOUND,
        -FX_BOUND + sphere.radius <= sphere.x <= FX_BOUND - sphere.radius,
        -FX_BOUND + sphere.radius <= sphere.y <= FX_BOUND - sphere.radius,
        -FX_BOUND + sphere.radius <= sphere.z <= FX_BOUND - sphere.radius,
        dist_s(
            candidate_s(vs, ss, ff, params, dt, axis, i).0,
            (sphere.x as int, sphere.y as int, sphere.z as int),
        ) <= sphere.radius,
    ensures
        dist_s(
            stepped_node_s(vs, ss, ff, sphere, params, dt, axis, i).position@,
            (sphere.x as int, sphere.y as int, sphere.z as int),
        ) >= sphere.radius,
{
    let pv = candidate_s(vs, ss, ff, params, dt, axis, i);
    assert(t_in_range(pv.0));
    lemma_collide_no_tunnel(sphere, axis, pv.0, pv.1);
    let out = collide_s(sphere, axis, pv.0, pv.1);
    assert(t_in_range(out.0));
    assert(crate::vec3::vec3_of(out.0)@ == out.0);
}

/// Running a tick twice from equal states, with equal obstacle and
/// parameters, yields equal results for every vertex.  Each vertex's
/// post-tick value is a pure function of the pre-tick state and the tick
/// inputs, so how the per-vertex work is split across workers can change
/// neither any vertex nor the final state.
pub proof fn lemma_step_deterministic(
    vs1: Seq<Node>,
    ss1: Seq<Spring>,
    ff1: Seq<bool>,
    sphere1: Sphere,
    params1: ComputeData,
    dt1: int,
    axis1: Axis,
    vs2: Seq<Node>,
    ss2: Seq<Spring>,
    ff2: Seq<bool>,
    sphere2: Sphere,
    params2: ComputeData,
    dt2: int,
    axis2: Axis,
    i: int,
)
    requires
        vs1 == vs2,
        ss1 == ss2,
        ff1 == ff2,
        sphere1 == sphere2,
        params1 == params2,
        dt1 == dt2,
        axis1 == axis2,
    ensures
        stepped_node_s(vs1, ss1, ff1, sphere1, params1, dt1, axis1, i) == stepped_node_s(
            vs2,
            ss2,
            ff2,
            sphere2,
            params2,
            dt2,
            axis2,
            i,
        ),
{
}

} // verus!
