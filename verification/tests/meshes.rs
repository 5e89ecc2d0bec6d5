use procmesh::ellipsoid::{ellipsoid_grid, ellipsoid_grid_with, ellipsoid_mesh, EllipsoidParams};
use procmesh::fixed::Fx;
use procmesh::heightfield::{heightfield_grid, heightfield_mesh, HeightField};
use procmesh::mesh::MeshError;

const ONE: i64 = 65536;

fn fx(raw: i64) -> Fx {
    Fx { raw }
}

fn field(size: usize, heights: &[i64]) -> HeightField {
    let samples: Vec<Fx> = heights.iter().map(|&h| fx(h)).collect();
    HeightField::new(size, samples).unwrap()
}

#[test]
fn heightfield_grid_small_exact() {
    let f = field(2, &[ONE, 2 * ONE, 3 * ONE, 4 * ONE]);
    let m = heightfield_grid(&f).unwrap();
    let pos: Vec<(i64, i64, i64)> =
        m.positions.iter().map(|p| (p.x.raw, p.y.raw, p.z.raw)).collect();
    assert_eq!(
        pos,
        vec![
            (0, ONE, 0),
            (ONE, 2 * ONE, 0),
            (0, 3 * ONE, ONE),
            (ONE, 4 * ONE, ONE),
        ]
    );
    assert_eq!(m.indices, vec![0, 1, 2, 1, 3, 2]);
    assert_eq!(m.normals.len(), 0);
}

#[test]
fn heightfield_is_deterministic() {
    let heights: Vec<i64> = (0..16).map(|k| (k * 1000 - 8000) as i64).collect();
    let a = heightfield_mesh(&field(4, &heights)).unwrap();
    let b = heightfield_mesh(&field(4, &heights)).unwrap();
    assert_eq!(a.positions, b.positions);
    assert_eq!(a.indices, b.indices);
    assert_eq!(a.normals, b.normals);
}

#[test]
fn heightfield_triangle_count() {
    for size in [2usize, 3, 5, 8] {
        let heights: Vec<i64> = (0..size * size).map(|k| (k as i64) * 7).collect();
        let grid = heightfield_grid(&field(size, &heights)).unwrap();
        let quads = (size - 1) * (size - 1);
        assert_eq!(grid.indices.len(), 6 * quads);
        let mesh = heightfield_mesh(&field(size, &heights)).unwrap();
        assert_eq!(mesh.indices.len() / 3, 2 * quads);
        assert_eq!(mesh.positions.len(), 6 * quads);
        assert_eq!(mesh.normals.len(), 6 * quads);
    }
}

#[test]
fn heightfield_index_bounds() {
    let heights: Vec<i64> = (0..25).map(|k| (k as i64) * 3000).collect();
    let grid = heightfield_grid(&field(5, &heights)).unwrap();
    for &i in grid.indices.iter() {
        assert!((i as usize) < grid.positions.len());
    }
    let mesh = heightfield_mesh(&field(5, &heights)).unwrap();
    for (k, &i) in mesh.indices.iter().enumerate() {
        assert_eq!(i as usize, k);
        assert!((i as usize) < mesh.positions.len());
    }
}

#[test]
fn heightfield_flat_terrain_normals_point_down_the_winding() {
    // every face of a flat field lies in the xz plane; with the fixed
    // diagonal winding the edge cross product points along negative y
    let f = field(3, &[5 * ONE; 9]);
    let m = heightfield_mesh(&f).unwrap();
    for n in m.normals.iter() {
        assert_eq!((n.x.raw, n.y.raw, n.z.raw), (0, -ONE, 0));
    }
}

#[test]
fn heightfield_rejects_small_sizes() {
    assert_eq!(
        heightfield_grid(&field(1, &[0])).unwrap_err(),
        MeshError::InvalidParameter
    );
    assert_eq!(
        heightfield_mesh(&field(0, &[])).unwrap_err(),
        MeshError::InvalidParameter
    );
}

#[test]
fn heightfield_new_rejects_bad_buffers() {
    assert!(HeightField::new(2, vec![fx(0); 3]).is_err());
    assert!(HeightField::new(2, vec![fx(0); 4]).is_ok());
    assert!(HeightField::new(16385, vec![]).is_err());
}

fn params(lon: usize, lat: usize, nf: i64, e: i64) -> EllipsoidParams {
    EllipsoidParams {
        longitude_segments: lon,
        latitude_segments: lat,
        noise_factor: fx(nf),
        elongation_factor: fx(e),
    }
}

#[test]
fn ellipsoid_unperturbed_equator_is_exact() {
    let p = params(4, 2, ONE / 2, ONE);
    let perts = vec![fx(0); (2 + 1) * (4 + 1)];
    let m = ellipsoid_grid_with(&p, &perts).unwrap();
    // row 1 is the equator of a 2-row sphere: theta is a quarter turn
    let at = |i: usize, j: usize| {
        let v = m.positions[i * 5 + j];
        (v.x.raw, v.y.raw, v.z.raw)
    };
    assert_eq!(at(1, 0), (ONE, 0, 0));
    assert_eq!(at(1, 1), (0, 0, ONE));
    assert_eq!(at(1, 2), (-ONE, 0, 0));
    assert_eq!(at(1, 3), (0, 0, -ONE));
    assert_eq!(at(1, 4), (ONE, 0, 0));
}

#[test]
fn ellipsoid_poles_are_exact_whatever_the_perturbation() {
    let nf = 3 * ONE;
    let p = params(6, 3, nf, 2 * ONE);
    // extreme perturbations at both ends of the allowed band
    let perts: Vec<Fx> = (0..(3 + 1) * (6 + 1))
        .map(|k| if k % 2 == 0 { fx(nf) } else { fx(-nf) })
        .collect();
    let m = ellipsoid_grid_with(&p, &perts).unwrap();
    for j in 0..7 {
        let north = m.positions[j];
        assert_eq!((north.x.raw, north.y.raw, north.z.raw), (0, ONE, 0));
        let south = m.positions[3 * 7 + j];
        assert_eq!((south.x.raw, south.y.raw, south.z.raw), (0, -ONE, 0));
    }
}

#[test]
fn ellipsoid_random_poles_and_counts() {
    let p = params(8, 5, ONE / 4, ONE);
    let m = ellipsoid_grid(&p).unwrap();
    assert_eq!(m.positions.len(), 6 * 9);
    assert_eq!(m.indices.len(), 6 * 5 * 8);
    for j in 0..9 {
        assert_eq!(m.positions[j].y.raw, ONE);
        assert_eq!(m.positions[5 * 9 + j].y.raw, -ONE);
    }
    for &i in m.indices.iter() {
        assert!((i as usize) < m.positions.len());
    }
}

#[test]
fn ellipsoid_random_radius_stays_in_the_noise_band() {
    // noise 0.25 and no elongation: every coordinate of every vertex is
    // at most 1.25 in magnitude (this fails if a drawn perturbation ever
    // leaves [-noise, noise])
    let p = params(12, 7, ONE / 4, ONE);
    let m = ellipsoid_grid(&p).unwrap();
    let limit = ONE + ONE / 4 + 16;
    for v in m.positions.iter() {
        assert!(v.x.raw.abs() <= limit);
        assert!(v.y.raw.abs() <= limit);
        assert!(v.z.raw.abs() <= limit);
    }
}

#[test]
fn ellipsoid_mesh_counts_and_identity_indices() {
    let p = params(5, 4, ONE / 8, ONE + ONE / 2);
    let m = ellipsoid_mesh(&p).unwrap();
    let quads = 5 * 4;
    assert_eq!(m.positions.len(), 6 * quads);
    assert_eq!(m.indices.len(), 6 * quads);
    assert_eq!(m.normals.len(), 6 * quads);
    for (k, &i) in m.indices.iter().enumerate() {
        assert_eq!(i as usize, k);
    }
    // triangle count is 2 * longitude * latitude
    assert_eq!(m.indices.len() / 3, 2 * quads);
}

#[test]
fn ellipsoid_rejects_invalid_parameters() {
    assert_eq!(
        ellipsoid_mesh(&params(0, 3, 0, ONE)).unwrap_err(),
        MeshError::InvalidParameter
    );
    assert_eq!(
        ellipsoid_mesh(&params(3, 0, 0, ONE)).unwrap_err(),
        MeshError::InvalidParameter
    );
    assert_eq!(
        ellipsoid_mesh(&params(3, 3, -1, ONE)).unwrap_err(),
        MeshError::InvalidParameter
    );
    assert_eq!(
        ellipsoid_mesh(&params(3, 3, 0, 0)).unwrap_err(),
        MeshError::InvalidParameter
    );
}
