use clothe_simulator::clothe::{Clothe, InvalidTick};
use clothe_simulator::data_containers::{ComputeData, Sphere};
use clothe_simulator::fixed::FX_ONE;
use clothe_simulator::node::Node;
use clothe_simulator::vec3::Vec3;

fn fx(v: f64) -> i64 {
    (v * FX_ONE as f64).round() as i64
}

fn to_f(v: i64) -> f64 {
    v as f64 / FX_ONE as f64
}

fn far_sphere() -> Sphere {
    Sphere { x: 0, y: fx(-1000.0), z: 0, radius: fx(1.0), friction_factor: fx(0.5) }
}

fn params(spring_constant: f64, damping: f64, gravity: f64, dt: f64, mass: f64) -> ComputeData {
    ComputeData {
        spring_constant: fx(spring_constant),
        damping_factor: fx(damping),
        gravity: fx(gravity),
        delta_time: fx(dt),
        mass: fx(mass),
    }
}

fn snapshot(cloth: &Clothe) -> Vec<Node> {
    cloth.vertices.clone()
}

fn same_nodes(a: &[Node], b: &[Node]) -> bool {
    a.len() == b.len() && a.iter().zip(b.iter()).all(|(x, y)| x == y)
}

#[test]
fn flat_grid_is_a_fixed_point() {
    // Zero gravity, zero initial velocity, spring lengths at rest, the
    // sphere far away: one tick must leave every position exactly as it
    // was and every velocity at zero.
    let mut cloth = Clothe::new(fx(1.0), 3, Vec3 { x: 0, y: fx(2.0), z: 0 }).unwrap();
    let before = snapshot(&cloth);
    let p = params(1000.0, 0.0, 0.0, 0.016, 1.0);
    cloth.step(p.delta_time, far_sphere(), p).unwrap();
    for (v, old) in cloth.vertices.iter().zip(before.iter()) {
        assert_eq!(v.position, old.position);
        assert_eq!((v.velocity.x, v.velocity.y, v.velocity.z), (0, 0, 0));
    }
}

#[test]
fn negative_delta_time_leaves_state_untouched() {
    let mut cloth = Clothe::new(fx(1.0), 2, Vec3 { x: 0, y: fx(2.0), z: 0 }).unwrap();
    let p = params(1000.0, 0.5, 9.81, 0.016, 1.0);
    // disturb the state first so it is not the trivial initial one
    cloth.step(p.delta_time, far_sphere(), p).unwrap();
    let before = snapshot(&cloth);
    let rest_before: Vec<Vec<i64>> = cloth.springs.iter().map(|s| s.current_distance.clone()).collect();
    let indices_before = cloth.indices.clone();
    let r = cloth.step(fx(-1.0), far_sphere(), p);
    assert_eq!(r.unwrap_err(), InvalidTick);
    assert!(same_nodes(&cloth.vertices, &before));
    assert_eq!(cloth.indices, indices_before);
    for (s, old) in cloth.springs.iter().zip(rest_before.iter()) {
        assert_eq!(&s.current_distance, old);
    }
}

#[test]
fn gravity_pulls_the_free_cloth_down() {
    let mut cloth = Clothe::new(fx(1.0), 2, Vec3 { x: 0, y: fx(2.0), z: 0 }).unwrap();
    let p = params(1000.0, 0.5, 9.81, 0.016, 1.0);
    let y0: f64 = to_f(cloth.vertices[0].position.y);
    for _ in 0..50 {
        cloth.step(p.delta_time, far_sphere(), p).unwrap();
    }
    for v in &cloth.vertices {
        assert!(to_f(v.position.y) < y0 - 0.05);
    }
}

#[test]
fn identical_runs_are_identical() {
    // Same topology, same parameter sequence: the two runs must agree bit
    // for bit, tick after tick.
    let centre = Vec3 { x: 0, y: fx(1.4), z: 0 };
    let mut a = Clothe::new(fx(2.0), 6, centre).unwrap();
    let mut b = Clothe::new(fx(2.0), 6, centre).unwrap();
    let sphere = Sphere { x: 0, y: 0, z: 0, radius: fx(1.05), friction_factor: fx(0.8) };
    for tick in 0..40 {
        let dt = if tick % 2 == 0 { 0.016 } else { 0.008 };
        let p = params(1000.0, 0.5, 9.81, dt, 1.0);
        a.step(p.delta_time, sphere, p).unwrap();
        b.step(p.delta_time, sphere, p).unwrap();
        assert!(same_nodes(&a.vertices, &b.vertices));
    }
}

#[test]
fn no_vertex_ends_inside_the_sphere() {
    // Drop a cloth straight onto a sphere with a large time step, so that
    // unclamped candidate positions land deep inside it.  After every
    // tick, every vertex must sit at least the radius away from the
    // centre (up to the fixed-point measurement grain).
    let sphere = Sphere { x: 0, y: 0, z: 0, radius: fx(1.05), friction_factor: fx(0.8) };
    let mut cloth = Clothe::new(fx(2.0), 8, Vec3 { x: 0, y: fx(1.2), z: 0 }).unwrap();
    let p = params(20.0, 0.2, 9.81, 0.05, 1.0);
    let radius = to_f(sphere.radius);
    for _ in 0..120 {
        cloth.step(p.delta_time, sphere, p).unwrap();
        for v in &cloth.vertices {
            let d = (to_f(v.position.x).powi(2) + to_f(v.position.y).powi(2)
                + to_f(v.position.z).powi(2))
                .sqrt();
            assert!(d >= radius - 1e-3, "vertex inside sphere: {}", d);
        }
    }
}

#[test]
fn collision_keeps_cloth_resting_on_sphere() {
    // After many ticks the cloth settles: some vertex actually touched
    // the sphere (the drop was not missed), and none is inside it.
    let sphere = Sphere { x: 0, y: 0, z: 0, radius: fx(1.05), friction_factor: fx(0.8) };
    let mut cloth = Clothe::new(fx(2.0), 8, Vec3 { x: 0, y: fx(1.2), z: 0 }).unwrap();
    let p = params(100.0, 0.3, 9.81, 0.02, 1.0);
    for _ in 0..300 {
        cloth.step(p.delta_time, sphere, p).unwrap();
    }
    let radius = to_f(sphere.radius);
    let mut touching = 0usize;
    for v in &cloth.vertices {
        let d = (to_f(v.position.x).powi(2) + to_f(v.position.y).powi(2)
            + to_f(v.position.z).powi(2))
            .sqrt();
        assert!(d >= radius - 1e-3);
        if d < radius + 0.05 {
            touching += 1;
        }
    }
    assert!(touching > 0);
}

#[test]
fn hanging_corner_scenario() {
    // L=1, N=1, one corner held fixed, spring constant 1000, damping 0.1,
    // gravity 9.81, dt=0.01, 1000 ticks: the free corners sink on
    // average, the fixed corner does not move, and no spring touching the
    // fixed corner stretches beyond a small multiple of its rest length.
    let mut cloth = Clothe::new(fx(1.0), 1, Vec3 { x: 0, y: fx(2.0), z: 0 }).unwrap();
    cloth.set_fixed(0, true);
    let fixed_pos = cloth.vertices[0].position;
    let p = params(1000.0, 0.1, 9.81, 0.01, 1.0);
    let free: [usize; 3] = [1, 2, 3];
    let avg_height = |c: &Clothe| -> f64 {
        free.iter().map(|&i| to_f(c.vertices[i].position.y)).sum::<f64>() / free.len() as f64
    };
    let h0 = avg_height(&cloth);
    let mut early_sum = 0.0f64;
    let mut late_sum = 0.0f64;
    for tick in 0..1000 {
        cloth.step(p.delta_time, far_sphere(), p).unwrap();
        assert_eq!(cloth.vertices[0].position, fixed_pos);
        let h = avg_height(&cloth);
        if tick < 100 {
            early_sum += h;
        }
        if tick >= 900 {
            late_sum += h;
        }
        // springs touching the held corner stay boundedly stretched
        let s = &cloth.springs[0];
        for k in 0..12usize {
            if s.links[k] != 0 && s.rest_distance[k] > 0 {
                assert!(s.current_distance[k] < 3 * s.rest_distance[k]);
            }
        }
    }
    assert!(late_sum / 100.0 < early_sum / 100.0);
    assert!(avg_height(&cloth) < h0);
}

#[test]
fn zero_delta_time_is_accepted() {
    let mut cloth = Clothe::new(fx(1.0), 2, Vec3 { x: 0, y: fx(2.0), z: 0 }).unwrap();
    let before = snapshot(&cloth);
    let p = params(1000.0, 0.5, 9.81, 0.0, 1.0);
    cloth.step(0, far_sphere(), p).unwrap();
    for (v, old) in cloth.vertices.iter().zip(before.iter()) {
        assert_eq!(v.position, old.position);
    }
}
