//! Terrain generation: a square grid of height samples becomes a
//! triangulated mesh with per-face flat normals.
//!
//! Vertices are laid out row-major: grid cell `(x, z)` is vertex
//! `z * size + x` at position `(x, height, z)`.  The triangulation and the
//! flat-normal pass are shared with the other generators, and the whole
//! pipeline is a function of the sampled field alone, so equal fields give
//! equal buffers.

use vstd::prelude::*;

verus! {

use crate::fixed::{iabs, Fx};
use crate::grid::{grid_indices, quad_tri_index, tri_at};
use crate::mesh::{
    index_ok,
    positions_bounded,
    tri_normal_v,
    with_flat_normals,
    MeshBuffer,
    MeshError,
    POS_LIMIT,
};
use crate::vec3::{v3, v3_bounded, Vec3v, Vec3x};
use vstd::arithmetic::div_mod::{
    lemma_fundamental_div_mod,
    lemma_fundamental_div_mod_converse_div,
    lemma_fundamental_div_mod_converse_mod,
    lemma_multiply_divide_lt,
};

/// Largest accepted grid side.
pub const MAX_GRID_SIZE: usize = 16384;

/// Height samples on a square grid, row-major by `z` then `x`.
#[derive(Debug)]
pub struct HeightField {
    pub size: usize,
    pub samples: Vec<Fx>,
}

impl HeightField {
    /// One sample per grid cell, each within the coordinate limit.
    pub open spec fn wf(self) -> bool {
        &&& self.size <= MAX_GRID_SIZE
        &&& self.samples@.len() == (self.size as int) * (self.size as int)
        &&& forall|k: int|
            0 <= k < self.samples@.len() ==> iabs(
                (#[trigger] self.samples@[k]).raw as int,
            ) <= POS_LIMIT as int
    }

    /// Wrap a sample buffer, refusing a side over the limit, a buffer of
    /// the wrong length, or an out-of-range sample.
    pub fn new(size: usize, samples: Vec<Fx>) -> (r: Result<HeightField, MeshError>)
        ensures
            match r {
                Ok(f) => {
                    &&& f.size == size
                    &&& f.samples == samples
                    &&& f.wf()
                },
                Err(e) => {
                    &&& e == MeshError::InvalidParameter
                    &&& !(size <= MAX_GRID_SIZE && samples@.len() == (size as int) * (size as int)
                        && (forall|k: int|
                        0 <= k < samples@.len() ==> iabs(
                            (#[trigger] samples@[k]).raw as int,
                        ) <= POS_LIMIT as int))
                },
            },
    {
        if size > MAX_GRID_SIZE {
            return Err(MeshError::InvalidParameter);
        }
        proof {
            assert((size as int) * (size as int) <= 16384 * 16384) by (nonlinear_arith)
                requires
                    0 <= size as int <= 16384,
            ;
        }
        let n = size * size;
        if samples.len() != n {
            return Err(MeshError::InvalidParameter);
        }
        let mut k: usize = 0;
        while k < n
            invariant
                n == samples@.len(),
                k <= n,
                forall|i: int|
                    0 <= i < k ==> iabs((#[trigger] samples@[i]).raw as int) <= POS_LIMIT as int,
            decreases n - k,
        {
            let s = samples[k].raw;
            if s > POS_LIMIT || s < -POS_LIMIT {
                return Err(MeshError::InvalidParameter);
            }
            k = k + 1;
        }
        Ok(HeightField { size, samples })
    }
}

/// Vertex `k` of the heightfield grid: position `(x, height, z)` for grid
/// cell `(x, z) = (k % size, k / size)`.
pub open spec fn hf_vertex(size: int, hs: Seq<Fx>, k: int) -> Vec3v {
    v3((k % size) * 65536, hs[k].raw as int, (k / size) * 65536)
}

/// Position `k` of a vertex buffer, as its integer model.
pub open spec fn vert_at(ps: Seq<Vec3x>, k: int) -> Vec3v {
    ps[k]@
}

/// Vertex index that entry `k` of a grid index buffer refers to.
pub open spec fn grid_flat_index(k: int, cols: int) -> int {
    quad_tri_index(k / 6, cols, k % 6)
}

/// Flat normal carried by corner `k` of the duplicated heightfield mesh.
pub open spec fn hf_flat_normal(size: int, hs: Seq<Fx>, k: int) -> Vec3v {
    let t = 3 * (k / 3);
    tri_normal_v(
        hf_vertex(size, hs, grid_flat_index(t, size)),
        hf_vertex(size, hs, grid_flat_index(t + 1, size)),
        hf_vertex(size, hs, grid_flat_index(t + 2, size)),
    )
}

/// Build the shared-vertex heightfield mesh: row-major positions and the
/// grid triangulation, with no normals yet.  Fails exactly when the side
/// is below two samples.
pub fn heightfield_grid(f: &HeightField) -> (r: Result<MeshBuffer, MeshError>)
    requires
        f.wf(),
    ensures
        match r {
            Ok(m) => {
                &&& f.size >= 2
                &&& m.positions@.len() == (f.size as int) * (f.size as int)
                &&& forall|k: int|
                    0 <= k < m.positions@.len() ==> #[trigger] vert_at(m.positions@, k)
                        == hf_vertex(f.size as int, f.samples@, k)
                &&& m.indices@.len() == 6 * (((f.size - 1) as int) * ((f.size - 1) as int))
                &&& forall|q: int, j: int|
                    0 <= q < ((f.size - 1) as int) * ((f.size - 1) as int) && 0 <= j < 6
                        ==> #[trigger] tri_at(m.indices@, q, j) == quad_tri_index(
                        q,
                        f.size as int,
                        j,
                    )
                &&& index_ok(m.indices@, m.positions@.len() as int)
                &&& positions_bounded(m.positions@, POS_LIMIT as int)
                &&& m.normals@.len() == 0
                &&& m.wf()
                &&& m.triangle_count() == 2 * (((f.size - 1) as int) * ((f.size - 1) as int))
            },
            Err(e) => {
                &&& e == MeshError::InvalidParameter
                &&& f.size < 2
            },
        },
{
    if f.size < 2 {
        return Err(MeshError::InvalidParameter);
    }
    let size = f.size;
    let mut ps: Vec<Vec3x> = Vec::new();
    proof {
        assert((0 as int) * (size as int) == 0) by (nonlinear_arith);
    }
    for z in 0..size
        invariant
            2 <= size <= 16384,
            size == f.size,
            f.wf(),
            ps@.len() == (z as int) * (size as int),
            (z as int) * (size as int) <= 16384 * 16384,
            forall|k: int|
                0 <= k < ps@.len() ==> #[trigger] vert_at(ps@, k) == hf_vertex(
                    size as int,
                    f.samples@,
                    k,
                ),
            positions_bounded(ps@, POS_LIMIT as int),
    {
        proof {
            assert((z as int) * (size as int) + size as int == ((z as int) + 1) * (size as int)
                && ((z as int) + 1) * (size as int) <= 16384 * 16384) by (nonlinear_arith)
                requires
                    0 <= (z as int) + 1 <= 16384,
                    0 <= size as int <= 16384,
            ;
        }
        for x in 0..size
            invariant
                2 <= size <= 16384,
                size == f.size,
                f.wf(),
                z < size,
                ps@.len() == (z as int) * (size as int) + x as int,
                (z as int) * (size as int) + size as int == ((z as int) + 1) * (size as int),
                ((z as int) + 1) * (size as int) <= 16384 * 16384,
                forall|k: int|
                    0 <= k < ps@.len() ==> #[trigger] vert_at(ps@, k) == hf_vertex(
                        size as int,
                        f.samples@,
                        k,
                    ),
                positions_bounded(ps@, POS_LIMIT as int),
        {
            proof {
                assert((z as int) * (size as int) + x < (size as int) * (size as int))
                    by (nonlinear_arith)
                    requires
                        0 <= (z as int) < (size as int),
                        0 <= (x as int) < (size as int),
                ;
            }
            let k = z * size + x;
            let h = f.samples[k];
            let vx = Fx { raw: (x as i64) * 65536 };
            let vz = Fx { raw: (z as i64) * 65536 };
            let ghost pre = ps@;
            ps.push(Vec3x { x: vx, y: h, z: vz });
            proof {
                lemma_fundamental_div_mod_converse_div(
                    k as int,
                    size as int,
                    z as int,
                    x as int,
                );
                lemma_fundamental_div_mod_converse_mod(
                    k as int,
                    size as int,
                    z as int,
                    x as int,
                );
                assert(vert_at(ps@, k as int) == hf_vertex(size as int, f.samples@, k as int));
                assert forall|m: int| 0 <= m < ps@.len() implies #[trigger] vert_at(ps@, m)
                    == hf_vertex(size as int, f.samples@, m) by {
                    if m < pre.len() {
                        assert(vert_at(pre, m) == hf_vertex(size as int, f.samples@, m));
                    }
                }
                assert forall|m: int| 0 <= m < ps@.len() implies v3_bounded(
                    #[trigger] ps@[m]@,
                    POS_LIMIT as int,
                ) by {
                    if m < pre.len() {
                        assert(v3_bounded(pre[m]@, POS_LIMIT as int));
                    } else {
                        assert(iabs(f.samples@[k as int].raw as int) <= POS_LIMIT as int);
                    }
                }
            }
        }
    }
    let idx = grid_indices(size, size);
    proof {
        assert forall|k: int| 0 <= k < idx@.len() implies ((#[trigger] idx@[k]) as int)
            < ps@.len() by {}
        lemma_fundamental_div_mod_converse_mod(
            6 * (((size - 1) as int) * ((size - 1) as int)),
            3,
            2 * (((size - 1) as int) * ((size - 1) as int)),
            0,
        );
        lemma_fundamental_div_mod_converse_div(
            6 * (((size - 1) as int) * ((size - 1) as int)),
            3,
            2 * (((size - 1) as int) * ((size - 1) as int)),
            0,
        );
    }
    Ok(MeshBuffer { positions: ps, indices: idx, normals: Vec::new() })
}

/// Generate the terrain mesh for a sampled height field: the grid mesh of
/// `heightfield_grid` with its vertices duplicated per face and flat
/// normals attached.  Fails exactly when the side is below two samples.
pub fn heightfield_mesh(f: &HeightField) -> (r: Result<MeshBuffer, MeshError>)
    requires
        f.wf(),
    ensures
        match r {
            Ok(m) => {
                &&& f.size >= 2
                &&& m.positions@.len() == 6 * (((f.size - 1) as int) * ((f.size - 1) as int))
                &&& m.indices@.len() == m.positions@.len()
                &&& m.normals@.len() == m.positions@.len()
                &&& m.triangle_count() == 2 * (((f.size - 1) as int) * ((f.size - 1) as int))
                &&& forall|k: int|
                    0 <= k < m.positions@.len() ==> #[trigger] vert_at(m.positions@, k)
                        == hf_vertex(
                        f.size as int,
                        f.samples@,
                        grid_flat_index(k, f.size as int),
                    )
                &&& forall|k: int|
                    0 <= k < m.indices@.len() ==> (#[trigger] m.indices@[k]) as int == k
                &&& forall|k: int|
                    0 <= k < m.normals@.len() ==> #[trigger] vert_at(m.normals@, k)
                        == hf_flat_normal(f.size as int, f.samples@, k)
                &&& index_ok(m.indices@, m.positions@.len() as int)
                &&& m.wf()
            },
            Err(e) => {
                &&& e == MeshError::InvalidParameter
                &&& f.size < 2
            },
        },
{
    let grid = match heightfield_grid(f) {
        Ok(g) => g,
        Err(e) => {
            return Err(e);
        },
    };
    let size = f.size;
    let ghost nq = ((size - 1) as int) * ((size - 1) as int);
    proof {
        assert(nq <= 16384 * 16384) by (nonlinear_arith)
            requires
                0 <= (size - 1) as int <= 16384,
                nq == ((size - 1) as int) * ((size - 1) as int),
        ;
        lemma_fundamental_div_mod_converse_mod(6 * nq, 3, 2 * nq, 0);
    }
    let m = with_flat_normals(&grid);
    proof {
        let gps = grid.positions@;
        let gidx = grid.indices@;
        let len = gidx.len() as int;
        assert(3 * (len / 3) == len) by {
            lemma_fundamental_div_mod_converse_div(6 * nq, 3, 2 * nq, 0);
        }
        assert forall|k: int| 0 <= k < len implies (#[trigger] gidx[k]) as int
            == grid_flat_index(k, size as int) by {
            lemma_fundamental_div_mod(k, 6);
            lemma_multiply_divide_lt(k, 6, nq);
            assert(0 <= k % 6 < 6);
            assert(tri_at(gidx, k / 6, k % 6) == quad_tri_index(k / 6, size as int, k % 6));
            assert(gidx[6 * (k / 6) + k % 6] == gidx[k]);
        }
        assert forall|k: int| 0 <= k < len implies #[trigger] vert_at(m.positions@, k)
            == hf_vertex(size as int, f.samples@, grid_flat_index(k, size as int)) by {
            assert(m.positions@[k] == gps[gidx[k] as int]);
            assert(vert_at(gps, gidx[k] as int) == hf_vertex(
                size as int,
                f.samples@,
                gidx[k] as int,
            ));
        }
        assert forall|k: int| 0 <= k < len implies #[trigger] vert_at(m.normals@, k)
            == hf_flat_normal(size as int, f.samples@, k) by {
            let t = k / 3;
            lemma_fundamental_div_mod(k, 3);
            lemma_multiply_divide_lt(k, 3, len / 3);
            assert(0 <= t && 3 * t + 2 < len);
            assert(m.normals@[k]@ == crate::mesh::face_normal_v(gps, gidx, t));
            assert(gidx[3 * t] as int == grid_flat_index(3 * t, size as int));
            assert(gidx[3 * t + 1] as int == grid_flat_index(3 * t + 1, size as int));
            assert(gidx[3 * t + 2] as int == grid_flat_index(3 * t + 2, size as int));
            assert(vert_at(gps, gidx[3 * t] as int) == hf_vertex(
                size as int,
                f.samples@,
                gidx[3 * t] as int,
            ));
            assert(vert_at(gps, gidx[3 * t + 1] as int) == hf_vertex(
                size as int,
                f.samples@,
                gidx[3 * t + 1] as int,
            ));
            assert(vert_at(gps, gidx[3 * t + 2] as int) == hf_vertex(
                size as int,
                f.samples@,
                gidx[3 * t + 2] as int,
            ));
        }
    }
    Ok(m)
}

} // verus!
