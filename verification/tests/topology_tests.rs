use clothe_simulator::clothe::{Axis, Clothe, InvalidTopology};
use clothe_simulator::fixed::FX_ONE;
use clothe_simulator::spring::SPRING_SLOTS;
use clothe_simulator::vec3::Vec3;
use clothe_simulator::{get_workers, WORKER_SIZE};

fn fx(v: f64) -> i64 {
    (v * FX_ONE as f64).round() as i64
}

fn to_f(v: i64) -> f64 {
    v as f64 / FX_ONE as f64
}

fn origin() -> Vec3 {
    Vec3 { x: 0, y: 0, z: 0 }
}

#[test]
fn vertex_and_index_counts() {
    let cloth = Clothe::new(fx(1.0), 3, origin()).unwrap();
    assert_eq!(cloth.nb_vertices, 16);
    assert_eq!(cloth.vertices.len(), 16);
    assert_eq!(cloth.indices.len(), 9 * 6);
    assert_eq!(cloth.springs.len(), 16);
    let big = Clothe::new(fx(2.5), 21, Vec3 { x: 0, y: fx(2.0), z: 0 }).unwrap();
    assert_eq!(big.nb_vertices, 22 * 22);
    assert_eq!(big.vertices.len(), 22 * 22);
    assert_eq!(big.indices.len(), 21 * 21 * 6);
    assert_eq!(big.springs.len(), 22 * 22);
}

#[test]
fn single_cell_triangles() {
    let cloth = Clothe::new(fx(1.0), 1, origin()).unwrap();
    assert_eq!(cloth.vertices.len(), 4);
    assert_eq!(cloth.indices, vec![1, 0, 2, 1, 2, 3]);
}

#[test]
fn single_cell_neighbour_kinds() {
    // L=1, N=1: every vertex has exactly 2 structural neighbours, exactly
    // 1 shear neighbour and no bend neighbours (the grid is too small).
    let cloth = Clothe::new(fx(1.0), 1, origin()).unwrap();
    for (i, spring) in cloth.springs.iter().enumerate() {
        let own = i as u32;
        let structural = [1usize, 3, 5, 7]
            .iter()
            .filter(|&&k| spring.links[k] != own)
            .count();
        let shear = [0usize, 2, 4, 6]
            .iter()
            .filter(|&&k| spring.links[k] != own)
            .count();
        let bend = [8usize, 9, 10, 11]
            .iter()
            .filter(|&&k| spring.links[k] != own)
            .count();
        assert_eq!(structural, 2);
        assert_eq!(shear, 1);
        assert_eq!(bend, 0);
    }
}

#[test]
fn rest_lengths_match_measured_distances() {
    let cloth = Clothe::new(fx(2.0), 2, Vec3 { x: fx(0.5), y: fx(1.0), z: fx(-0.25) }).unwrap();
    assert_eq!(cloth.springs.len(), cloth.vertices.len());
    let mut populated = 0usize;
    for (i, spring) in cloth.springs.iter().enumerate() {
        for k in 0..SPRING_SLOTS {
            let link = spring.links[k] as usize;
            if link == i {
                assert_eq!(spring.rest_distance[k], 0);
                continue;
            }
            populated += 1;
            let a = cloth.vertices[i].position;
            let b = cloth.vertices[link].position;
            let dx = to_f(a.x) - to_f(b.x);
            let dy = to_f(a.y) - to_f(b.y);
            let dz = to_f(a.z) - to_f(b.z);
            let expected = (dx * dx + dy * dy + dz * dz).sqrt();
            assert!((to_f(spring.rest_distance[k]) - expected).abs() < 1e-3);
        }
    }
    assert!(populated > 0);
}

#[test]
fn grid_positions_and_texture_coordinates() {
    // N=2, L=1, centred on the origin: spacing 0.5, the grid spans
    // [-0.5, 0.5] on x and z, y stays at the centre height.
    let cloth = Clothe::new(fx(1.0), 2, Vec3 { x: 0, y: fx(2.0), z: 0 }).unwrap();
    let v00 = &cloth.vertices[0];
    assert!((to_f(v00.position.x) + 0.5).abs() < 1e-3);
    assert_eq!(v00.position.y, fx(2.0));
    assert!((to_f(v00.position.z) + 0.5).abs() < 1e-3);
    assert_eq!(v00.tex_coords.u, 0);
    assert_eq!(v00.tex_coords.v, 0);
    // row 1, col 2: position (0.5, 2, 0), texture (1, 0.5)
    let v12 = &cloth.vertices[1 * 3 + 2];
    assert!((to_f(v12.position.x) - 0.5).abs() < 1e-3);
    assert!((to_f(v12.position.z) - 0.0).abs() < 1e-3);
    assert_eq!(v12.tex_coords.u, FX_ONE);
    assert_eq!(v12.tex_coords.v, FX_ONE / 2);
    // initial velocity and force are zero everywhere
    for v in &cloth.vertices {
        assert_eq!((v.velocity.x, v.velocity.y, v.velocity.z), (0, 0, 0));
        assert_eq!((v.resultant.x, v.resultant.y, v.resultant.z), (0, 0, 0));
    }
}

#[test]
fn vertical_axis_is_configurable() {
    let c = Vec3 { x: fx(1.0), y: fx(2.0), z: fx(3.0) };
    let on_x = Clothe::new_with_axis(fx(1.0), 2, c, Axis::X).unwrap();
    for v in &on_x.vertices {
        assert_eq!(v.position.x, fx(1.0));
    }
    let on_z = Clothe::new_with_axis(fx(1.0), 2, c, Axis::Z).unwrap();
    for v in &on_z.vertices {
        assert_eq!(v.position.z, fx(3.0));
    }
    let on_y = Clothe::new(fx(1.0), 2, c).unwrap();
    for v in &on_y.vertices {
        assert_eq!(v.position.y, fx(2.0));
    }
}

#[test]
fn zero_subdivisions_rejected() {
    let r = Clothe::new(fx(1.0), 0, origin());
    assert_eq!(r.unwrap_err(), InvalidTopology);
}

#[test]
fn non_positive_length_rejected() {
    assert_eq!(Clothe::new(0, 3, origin()).unwrap_err(), InvalidTopology);
    assert_eq!(Clothe::new(fx(-2.0), 3, origin()).unwrap_err(), InvalidTopology);
}

#[test]
fn worker_count_rounds_up() {
    assert_eq!(WORKER_SIZE, 255);
    assert_eq!(get_workers(0), 0);
    assert_eq!(get_workers(1), 1);
    assert_eq!(get_workers(255), 1);
    assert_eq!(get_workers(256), 2);
    assert_eq!(get_workers(510), 2);
    assert_eq!(get_workers(511), 3);
    assert_eq!(get_workers(22 * 22), 2);
}
