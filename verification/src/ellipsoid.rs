//! "Potato" generation: a UV-sphere, stretched along the x axis and
//! perturbed per vertex by a damped radial noise term.
//!
//! The grid has `latitude_segments + 1` rows and `longitude_segments + 1`
//! columns; vertex `(i, j)` sits at spherical angles
//! `theta = i / (2 * lat)` turns and `phi = j / lon` turns.  The radial
//! perturbation is scaled by `sqrt(1 - |cos theta|)`, which vanishes at
//! the poles, so the pole rows are exact regardless of the noise factor.

use vstd::prelude::*;

verus! {

use crate::fixed::{
    fx_mul_v,
    iabs,
    lemma_fx_mul_bound,
    lemma_fx_mul_one,
    lemma_fx_mul_zero,
    lemma_sqrt_v_le,
    sqrt_v,
    Fx,
};
use crate::grid::{grid_indices, quad_tri_index, tri_at};
use crate::heightfield::{grid_flat_index, vert_at};
use crate::mesh::{index_ok, positions_bounded, tri_normal_v, with_flat_normals, MeshBuffer, MeshError, POS_LIMIT};
use crate::trig::{cos_turns, cos_v, sin_turns, sin_v, lemma_quarter_points};
use crate::vec3::{v3, v3_bounded, v3_scale, Vec3v, Vec3x};
use vstd::arithmetic::div_mod::{
    lemma_div_of0,
    lemma_fundamental_div_mod,
    lemma_multiply_divide_lt,
    lemma_div_multiples_vanish,
    lemma_div_pos_is_pos,
    lemma_fundamental_div_mod_converse_div,
    lemma_fundamental_div_mod_converse_mod,
};

/// Largest accepted segment count in either direction.
pub const MAX_SEGMENTS: usize = 8192;

/// Largest accepted magnitude of the noise and elongation factors: one
/// hundred units.
pub const MAX_FACTOR: i64 = 6553600;

/// Parameters of the perturbed ellipsoid.
#[derive(Clone, Copy, Debug, PartialEq, Eq, Structural)]
pub struct EllipsoidParams {
    pub longitude_segments: usize,
    pub latitude_segments: usize,
    pub noise_factor: Fx,
    pub elongation_factor: Fx,
}

impl EllipsoidParams {
    /// Machine bounds under which generation cannot overflow.
    pub open spec fn in_bounds(self) -> bool {
        &&& self.longitude_segments <= MAX_SEGMENTS
        &&& self.latitude_segments <= MAX_SEGMENTS
        &&& iabs(self.noise_factor.raw as int) <= MAX_FACTOR as int
        &&& iabs(self.elongation_factor.raw as int) <= MAX_FACTOR as int
    }

    /// The validation the generator performs: at least one segment each
    /// way, a non-negative noise factor, a positive elongation.
    pub open spec fn valid(self) -> bool {
        &&& self.longitude_segments >= 1
        &&& self.latitude_segments >= 1
        &&& self.noise_factor.raw >= 0
        &&& self.elongation_factor.raw > 0
    }

    /// Number of grid vertices.
    pub open spec fn vertex_count(self) -> int {
        ((self.latitude_segments + 1) as int) * ((self.longitude_segments + 1) as int)
    }
}

/// Polar angle of latitude row `i`, in raw turn steps: `i / (2 * lat)` of
/// a turn, so row `0` is the north pole and row `lat` the south pole.
pub open spec fn theta_units(i: int, lat: int) -> int {
    (i * 32768) / lat
}

/// Azimuthal angle of longitude column `j`, in raw turn steps.
pub open spec fn phi_units(j: int, lon: int) -> int {
    (j * 65536) / lon
}

/// Damping of the radial noise at latitude row `i`:
/// `sqrt(1 - |cos theta|)`, which is zero exactly at the poles.
pub open spec fn damp_units(i: int, lat: int) -> int {
    sqrt_v((65536 - iabs(cos_v(theta_units(i, lat)))) * 65536)
}

/// Unperturbed surface point of grid cell `(i, j)`:
/// `(cos phi * sin theta * e, cos theta, sin phi * sin theta)`.
pub open spec fn base_vertex(i: int, j: int, lat: int, lon: int, e: int) -> Vec3v {
    let ct = cos_v(theta_units(i, lat));
    let st = sin_v(theta_units(i, lat));
    let cp = cos_v(phi_units(j, lon));
    let sp = sin_v(phi_units(j, lon));
    v3(fx_mul_v(fx_mul_v(cp, st), e), ct, fx_mul_v(sp, st))
}

/// Radius multiplier of a vertex: one plus its damped perturbation.
pub open spec fn radius_mult(i: int, lat: int, pert: int) -> int {
    65536 + fx_mul_v(pert, damp_units(i, lat))
}

/// Perturbed vertex `k` of the grid, row-major with `lon + 1` columns.
pub open spec fn ell_vertex(k: int, lat: int, lon: int, e: int, perts: Seq<Fx>) -> Vec3v {
    let i = k / (lon + 1);
    let j = k % (lon + 1);
    v3_scale(base_vertex(i, j, lat, lon, e), radius_mult(i, lat, perts[k].raw as int))
}

/// At both poles the noise damping factor is exactly zero.
pub proof fn lemma_pole_damping(lat: int)
    requires
        1 <= lat,
    ensures
        damp_units(0, lat) == 0,
        damp_units(lat, lat) == 0,
{
    lemma_quarter_points();
    lemma_div_of0(lat);
    assert(theta_units(0, lat) == 0);
    lemma_div_multiples_vanish(32768, lat);
    assert(theta_units(lat, lat) == 32768);
    assert(cos_v(0) == 65536);
    assert(cos_v(32768) == -65536);
    assert((65536 - iabs(cos_v(theta_units(0, lat)))) * 65536 == 0);
    assert((65536 - iabs(cos_v(theta_units(lat, lat)))) * 65536 == 0);
}

/// A pole-row vertex is exactly the unit pole point, whatever its
/// perturbation: the damping factor there is zero.
pub proof fn lemma_pole_vertex(k: int, lat: int, lon: int, e: int, perts: Seq<Fx>)
    requires
        1 <= lat,
        1 <= lon,
        0 <= k < (lat + 1) * (lon + 1),
        k < lon + 1 || k >= lat * (lon + 1),
    ensures
        k < lon + 1 ==> ell_vertex(k, lat, lon, e, perts) == v3(0, 65536, 0),
        k >= lat * (lon + 1) ==> ell_vertex(k, lat, lon, e, perts) == v3(0, -65536, 0),
{
    lemma_quarter_points();
    lemma_pole_damping(lat);
    let pert = perts[k].raw as int;
    if k < lon + 1 {
        lemma_fundamental_div_mod_converse_div(k, lon + 1, 0, k);
        assert(k / (lon + 1) == 0);
        lemma_div_of0(lat);
        assert(theta_units(0, lat) == 0);
        assert(sin_v(0) == 0);
        assert(cos_v(0) == 65536);
        let cp = cos_v(phi_units(k % (lon + 1), lon));
        let sp = sin_v(phi_units(k % (lon + 1), lon));
        lemma_fx_mul_zero(cp);
        lemma_fx_mul_zero(sp);
        lemma_fx_mul_zero(e);
        assert(fx_mul_v(fx_mul_v(cp, 0), e) == 0);
        lemma_fx_mul_zero(pert);
        assert(radius_mult(0, lat, pert) == 65536);
        lemma_fx_mul_one(0);
        lemma_fx_mul_one(65536);
        assert(ell_vertex(k, lat, lon, e, perts) == v3(0, 65536, 0));
    }
    if k >= lat * (lon + 1) {
        assert(k < (lat + 1) * (lon + 1));
        assert(lat * (lon + 1) + (lon + 1) == (lat + 1) * (lon + 1)) by (nonlinear_arith);
        lemma_fundamental_div_mod_converse_div(k, lon + 1, lat, k - lat * (lon + 1));
        assert(k / (lon + 1) == lat);
        lemma_div_multiples_vanish(32768, lat);
        assert(theta_units(lat, lat) == 32768);
        assert(sin_v(32768) == 0);
        assert(cos_v(32768) == -65536);
        let cp = cos_v(phi_units(k % (lon + 1), lon));
        let sp = sin_v(phi_units(k % (lon + 1), lon));
        lemma_fx_mul_zero(cp);
        lemma_fx_mul_zero(sp);
        lemma_fx_mul_zero(e);
        assert(fx_mul_v(fx_mul_v(cp, 0), e) == 0);
        lemma_fx_mul_zero(pert);
        assert(radius_mult(lat, lat, pert) == 65536);
        lemma_fx_mul_one(0);
        lemma_fx_mul_one(-65536);
        assert(ell_vertex(k, lat, lon, e, perts) == v3(0, -65536, 0));
    }
}

/// Build the shared-vertex ellipsoid mesh from a given perturbation per
/// vertex: row-major positions over the `(lat+1) x (lon+1)` grid and the
/// grid triangulation, with no normals yet.  Fails exactly when the
/// parameters are invalid.
pub fn ellipsoid_grid_with(p: &EllipsoidParams, perts: &Vec<Fx>) -> (r: Result<
    MeshBuffer,
    MeshError,
>)
    requires
        p.in_bounds(),
        perts@.len() == p.vertex_count(),
        forall|k: int|
            0 <= k < perts@.len() ==> iabs((#[trigger] perts@[k]).raw as int) <= iabs(
                p.noise_factor.raw as int,
            ),
    ensures
        match r {
            Ok(m) => {
                let lat = p.latitude_segments as int;
                let lon = p.longitude_segments as int;
                &&& p.valid()
                &&& m.positions@.len() == p.vertex_count()
                &&& forall|k: int|
                    0 <= k < m.positions@.len() ==> #[trigger] vert_at(m.positions@, k)
                        == ell_vertex(k, lat, lon, p.elongation_factor.raw as int, perts@)
                &&& forall|k: int|
                    0 <= k < lon + 1 ==> #[trigger] vert_at(m.positions@, k) == v3(0, 65536, 0)
                &&& forall|k: int|
                    lat * (lon + 1) <= k < (lat + 1) * (lon + 1) ==> #[trigger] vert_at(
                        m.positions@,
                        k,
                    ) == v3(0, -65536, 0)
                &&& m.indices@.len() == 6 * (lat * lon)
                &&& forall|q: int, j: int|
                    0 <= q < lat * lon && 0 <= j < 6 ==> #[trigger] tri_at(m.indices@, q, j)
                        == quad_tri_index(q, lon + 1, j)
                &&& index_ok(m.indices@, m.positions@.len() as int)
                &&& positions_bounded(m.positions@, POS_LIMIT as int)
                &&& m.normals@.len() == 0
                &&& m.wf()
                &&& m.triangle_count() == 2 * (lat * lon)
            },
            Err(e) => {
                &&& e == MeshError::InvalidParameter
                &&& !p.valid()
            },
        },
{
    if p.longitude_segments < 1 || p.latitude_segments < 1 || p.noise_factor.raw < 0
        || p.elongation_factor.raw <= 0 {
        return Err(MeshError::InvalidParameter);
    }
    let lat = p.latitude_segments;
    let lon = p.longitude_segments;
    let rows = lat + 1;
    let cols = lon + 1;
    let elong = p.elongation_factor;
    let ghost lati = lat as int;
    let ghost loni = lon as int;
    let ghost ei = elong.raw as int;
    proof {
        assert((0 as int) * (cols as int) == 0) by (nonlinear_arith);
        assert(6553600 * 6619136 == 65536 * 661913600);
        lemma_div_multiples_vanish(661913600, 65536);
        assert(6553600 * 65536 == 65536 * 6553600);
        lemma_div_multiples_vanish(6553600, 65536);
        assert(65536 * 65536 == 65536 * 65536);
        lemma_div_multiples_vanish(65536, 65536);
    }
    let mut ps: Vec<Vec3x> = Vec::new();
    for i in 0..rows
        invariant
            1 <= lat <= 8192,
            1 <= lon <= 8192,
            rows == lat + 1,
            cols == lon + 1,
            lati == lat as int,
            loni == lon as int,
            ei == elong.raw as int,
            elong == p.elongation_factor,
            iabs(ei) <= 6553600,
            iabs(p.noise_factor.raw as int) <= 6553600,
            perts@.len() == (rows as int) * (cols as int),
            forall|k: int|
                0 <= k < perts@.len() ==> iabs((#[trigger] perts@[k]).raw as int) <= iabs(
                    p.noise_factor.raw as int,
                ),
            ps@.len() == (i as int) * (cols as int),
            (i as int) * (cols as int) <= 16384 * 16384,
            forall|k: int|
                0 <= k < ps@.len() ==> #[trigger] vert_at(ps@, k) == ell_vertex(
                    k,
                    lati,
                    loni,
                    ei,
                    perts@,
                ),
            positions_bounded(ps@, POS_LIMIT as int),
            (6553600 * 6619136) / 65536 == 661913600,
            (6553600 * 65536) / 65536 == 6553600,
            (65536 * 65536) / 65536 == 65536,
    {
        proof {
            assert((i as int) * (cols as int) + cols as int == ((i as int) + 1) * (cols as int)
                && ((i as int) + 1) * (cols as int) <= 16384 * 16384) by (nonlinear_arith)
                requires
                    0 <= (i as int) + 1 <= 16384,
                    0 <= cols as int <= 16384,
            ;
        }
        for j in 0..cols
            invariant
                1 <= lat <= 8192,
                1 <= lon <= 8192,
                rows == lat + 1,
                cols == lon + 1,
                lati == lat as int,
                loni == lon as int,
                ei == elong.raw as int,
                elong == p.elongation_factor,
                iabs(ei) <= 6553600,
                iabs(p.noise_factor.raw as int) <= 6553600,
                i < rows,
                perts@.len() == (rows as int) * (cols as int),
                forall|k: int|
                    0 <= k < perts@.len() ==> iabs((#[trigger] perts@[k]).raw as int) <= iabs(
                        p.noise_factor.raw as int,
                    ),
                ps@.len() == (i as int) * (cols as int) + j as int,
                (i as int) * (cols as int) + cols as int == ((i as int) + 1) * (cols as int),
                ((i as int) + 1) * (cols as int) <= 16384 * 16384,
                forall|k: int|
                    0 <= k < ps@.len() ==> #[trigger] vert_at(ps@, k) == ell_vertex(
                        k,
                        lati,
                        loni,
                        ei,
                        perts@,
                    ),
                positions_bounded(ps@, POS_LIMIT as int),
                (6553600 * 6619136) / 65536 == 661913600,
                (6553600 * 65536) / 65536 == 6553600,
                (65536 * 65536) / 65536 == 65536,
        {
            proof {
                assert((i as int) * (cols as int) + j < (rows as int) * (cols as int))
                    by (nonlinear_arith)
                    requires
                        0 <= (i as int) < (rows as int),
                        0 <= (j as int) < (cols as int),
                ;
                assert((i as int) * 32768 <= (lat as int) * 32768) by (nonlinear_arith)
                    requires
                        0 <= (i as int) <= lat as int,
                ;
                vstd::arithmetic::div_mod::lemma_multiply_divide_le(
                    (i as int) * 32768,
                    lat as int,
                    32768,
                );
                lemma_div_pos_is_pos((i as int) * 32768, lat as int);
                assert((j as int) * 65536 <= (lon as int) * 65536) by (nonlinear_arith)
                    requires
                        0 <= (j as int) <= lon as int,
                ;
                vstd::arithmetic::div_mod::lemma_multiply_divide_le(
                    (j as int) * 65536,
                    lon as int,
                    65536,
                );
                lemma_div_pos_is_pos((j as int) * 65536, lon as int);
            }
            let k = i * cols + j;
            let th = Fx { raw: (((i as u64) * 32768) / (lat as u64)) as i64 };
            let ph = Fx { raw: (((j as u64) * 65536) / (lon as u64)) as i64 };
            proof {
                assert(th.raw == theta_units(i as int, lati));
                assert(ph.raw == phi_units(j as int, loni));
            }
            let ct = cos_turns(th);
            let st = sin_turns(th);
            let cp = cos_turns(ph);
            let sp = sin_turns(ph);
            let ca = ct.abs_val();
            let one_m = Fx { raw: 65536 - ca.raw };
            let dmp = one_m.sqrt_val();
            proof {
                assert(dmp.raw == damp_units(i as int, lati));
                lemma_sqrt_v_le((65536 - ca.raw) * 65536, 65536);
                assert(dmp.raw <= 65536);
                lemma_fx_mul_bound(perts@[k as int].raw as int, dmp.raw as int, 6553600, 65536);
            }
            let pert = perts[k];
            let pd = pert.times(dmp);
            let mult = Fx { raw: 65536 + pd.raw };
            proof {
                assert(mult.raw == radius_mult(i as int, lati, pert.raw as int));
                assert(iabs(mult.raw as int) <= 6619136);
                lemma_fx_mul_bound(cp.raw as int, st.raw as int, 65536, 65536);
            }
            let bx1 = cp.times(st);
            proof {
                lemma_fx_mul_bound(bx1.raw as int, ei, 65536, 6553600);
                assert((65536 * 6553600) / 65536 == 6553600) by {
                    lemma_div_multiples_vanish(6553600, 65536);
                }
                lemma_fx_mul_bound(sp.raw as int, st.raw as int, 65536, 65536);
            }
            let bx = bx1.times(elong);
            let bz = sp.times(st);
            let base = Vec3x { x: bx, y: ct, z: bz };
            proof {
                assert(base@ == base_vertex(i as int, j as int, lati, loni, ei));
                lemma_fx_mul_bound(base@.x, mult.raw as int, 6553600, 6619136);
                lemma_fx_mul_bound(base@.y, mult.raw as int, 65536, 6619136);
                lemma_fx_mul_bound(base@.z, mult.raw as int, 65536, 6619136);
                assert((65536 * 6619136) / 65536 == 6619136) by {
                    lemma_div_multiples_vanish(6619136, 65536);
                }
            }
            let vert = base.scaled(mult);
            let ghost pre = ps@;
            ps.push(vert);
            proof {
                lemma_fundamental_div_mod_converse_div(k as int, cols as int, i as int, j as int);
                lemma_fundamental_div_mod_converse_mod(k as int, cols as int, i as int, j as int);
                assert(vert@ == ell_vertex(k as int, lati, loni, ei, perts@));
                assert forall|m: int| 0 <= m < ps@.len() implies #[trigger] vert_at(ps@, m)
                    == ell_vertex(m, lati, loni, ei, perts@) by {
                    if m < pre.len() {
                        assert(vert_at(pre, m) == ell_vertex(m, lati, loni, ei, perts@));
                    }
                }
                assert forall|m: int| 0 <= m < ps@.len() implies v3_bounded(
                    #[trigger] ps@[m]@,
                    POS_LIMIT as int,
                ) by {
                    if m < pre.len() {
                        assert(v3_bounded(pre[m]@, POS_LIMIT as int));
                    } else {
                        assert(iabs(vert@.x) <= 661913600);
                        assert(iabs(vert@.y) <= 661913600);
                        assert(iabs(vert@.z) <= 661913600);
                    }
                }
            }
        }
    }
    let idx = grid_indices(rows, cols);
    proof {
        assert(((rows - 1) as int) * ((cols - 1) as int) == lati * loni);
        assert forall|k: int| 0 <= k < idx@.len() implies ((#[trigger] idx@[k]) as int)
            < ps@.len() by {}
        lemma_fundamental_div_mod_converse_mod(6 * (lati * loni), 3, 2 * (lati * loni), 0);
        lemma_fundamental_div_mod_converse_div(6 * (lati * loni), 3, 2 * (lati * loni), 0);
        assert forall|k: int| 0 <= k < loni + 1 implies #[trigger] vert_at(ps@, k) == v3(
            0,
            65536,
            0,
        ) by {
            assert((rows as int) * (cols as int) == (lati + 1) * (loni + 1));
            assert((lati + 1) * (loni + 1) == lati * (loni + 1) + (loni + 1) && lati * (loni + 1)
                >= 0) by (nonlinear_arith)
                requires
                    lati >= 1,
                    loni >= 1,
            ;
            lemma_pole_vertex(k, lati, loni, ei, perts@);
        }
        assert forall|k: int|
            lati * (loni + 1) <= k < (lati + 1) * (loni + 1) implies #[trigger] vert_at(
            ps@,
            k,
        ) == v3(0, -65536, 0) by {
            assert((rows as int) * (cols as int) == (lati + 1) * (loni + 1));
            assert((lati + 1) * (loni + 1) == lati * (loni + 1) + (loni + 1) && lati * (loni + 1)
                >= 0) by (nonlinear_arith)
                requires
                    lati >= 1,
                    loni >= 1,
            ;
            lemma_pole_vertex(k, lati, loni, ei, perts@);
        }
    }
    Ok(MeshBuffer { positions: ps, indices: idx, normals: Vec::new() })
}

/// Vertex of the duplicated ellipsoid mesh at corner `k`.
pub open spec fn ell_flat_vertex(k: int, lat: int, lon: int, e: int, perts: Seq<Fx>) -> Vec3v {
    ell_vertex(grid_flat_index(k, lon + 1), lat, lon, e, perts)
}

/// Flat normal carried by corner `k` of the duplicated ellipsoid mesh.
pub open spec fn ell_flat_normal(k: int, lat: int, lon: int, e: int, perts: Seq<Fx>) -> Vec3v {
    let t = 3 * (k / 3);
    tri_normal_v(
        ell_flat_vertex(t, lat, lon, e, perts),
        ell_flat_vertex(t + 1, lat, lon, e, perts),
        ell_flat_vertex(t + 2, lat, lon, e, perts),
    )
}

/// Generate the potato mesh from a given perturbation per grid vertex:
/// the grid mesh of `ellipsoid_grid_with` with its vertices duplicated
/// per face and flat normals attached.  Fails exactly when the
/// parameters are invalid.
pub fn ellipsoid_mesh_with(p: &EllipsoidParams, perts: &Vec<Fx>) -> (r: Result<
    MeshBuffer,
    MeshError,
>)
    requires
        p.in_bounds(),
        perts@.len() == p.vertex_count(),
        forall|k: int|
            0 <= k < perts@.len() ==> iabs((#[trigger] perts@[k]).raw as int) <= iabs(
                p.noise_factor.raw as int,
            ),
    ensures
        match r {
            Ok(m) => {
                let lat = p.latitude_segments as int;
                let lon = p.longitude_segments as int;
                &&& p.valid()
                &&& m.positions@.len() == 6 * (lat * lon)
                &&& m.indices@.len() == m.positions@.len()
                &&& m.normals@.len() == m.positions@.len()
                &&& m.triangle_count() == 2 * (lat * lon)
                &&& forall|k: int|
                    0 <= k < m.positions@.len() ==> #[trigger] vert_at(m.positions@, k)
                        == ell_flat_vertex(k, lat, lon, p.elongation_factor.raw as int, perts@)
                &&& forall|k: int|
                    0 <= k < m.indices@.len() ==> (#[trigger] m.indices@[k]) as int == k
                &&& forall|k: int|
                    0 <= k < m.normals@.len() ==> #[trigger] vert_at(m.normals@, k)
                        == ell_flat_normal(k, lat, lon, p.elongation_factor.raw as int, perts@)
                &&& index_ok(m.indices@, m.positions@.len() as int)
                &&& m.wf()
            },
            Err(e) => {
                &&& e == MeshError::InvalidParameter
                &&& !p.valid()
            },
        },
{
    let grid = match ellipsoid_grid_with(p, perts) {
        Ok(g) => g,
        Err(e) => {
            return Err(e);
        },
    };
    let ghost lati = p.latitude_segments as int;
    let ghost loni = p.longitude_segments as int;
    let ghost ei = p.elongation_factor.raw as int;
    let ghost nq = lati * loni;
    proof {
        assert(nq <= 8192 * 8192) by (nonlinear_arith)
            requires
                0 <= lati <= 8192,
                0 <= loni <= 8192,
                nq == lati * loni,
        ;
        lemma_fundamental_div_mod_converse_mod(6 * nq, 3, 2 * nq, 0);
    }
    let m = with_flat_normals(&grid);
    proof {
        let gps = grid.positions@;
        let gidx = grid.indices@;
        let len = gidx.len() as int;
        assert(3 * (len / 3) == len) by {
            lemma_fundamental_div_mod_converse_div(6 * nq, 3, 2 * nq, 0);
        }
        assert forall|k: int| 0 <= k < len implies (#[trigger] gidx[k]) as int
            == grid_flat_index(k, loni + 1) by {
            lemma_fundamental_div_mod(k, 6);
            lemma_multiply_divide_lt(k, 6, nq);
            assert(0 <= k % 6 < 6);
            assert(tri_at(gidx, k / 6, k % 6) == quad_tri_index(k / 6, loni + 1, k % 6));
            assert(gidx[6 * (k / 6) + k % 6] == gidx[k]);
        }
        assert forall|k: int| 0 <= k < len implies #[trigger] vert_at(m.positions@, k)
            == ell_flat_vertex(k, lati, loni, ei, perts@) by {
            assert(m.positions@[k] == gps[gidx[k] as int]);
            assert(vert_at(gps, gidx[k] as int) == ell_vertex(
                gidx[k] as int,
                lati,
                loni,
                ei,
                perts@,
            ));
        }
        assert forall|k: int| 0 <= k < len implies #[trigger] vert_at(m.normals@, k)
            == ell_flat_normal(k, lati, loni, ei, perts@) by {
            let t = k / 3;
            lemma_fundamental_div_mod(k, 3);
            lemma_multiply_divide_lt(k, 3, len / 3);
            assert(0 <= t && 3 * t + 2 < len);
            assert(m.normals@[k]@ == crate::mesh::face_normal_v(gps, gidx, t));
            assert(gidx[3 * t] as int == grid_flat_index(3 * t, loni + 1));
            assert(gidx[3 * t + 1] as int == grid_flat_index(3 * t + 1, loni + 1));
            assert(gidx[3 * t + 2] as int == grid_flat_index(3 * t + 2, loni + 1));
            assert(vert_at(gps, gidx[3 * t] as int) == ell_vertex(
                gidx[3 * t] as int,
                lati,
                loni,
                ei,
                perts@,
            ));
            assert(vert_at(gps, gidx[3 * t + 1] as int) == ell_vertex(
                gidx[3 * t + 1] as int,
                lati,
                loni,
                ei,
                perts@,
            ));
            assert(vert_at(gps, gidx[3 * t + 2] as int) == ell_vertex(
                gidx[3 * t + 2] as int,
                lati,
                loni,
                ei,
                perts@,
            ));
        }
    }
    Ok(m)
}

/// Relies on `rand::random_range` over the inclusive range `lo..=hi`: it
/// returns a value of that range, and panics only when the range is
/// empty, which the precondition rules out.
#[verifier::external_body]
fn draw_raw_in(lo: i64, hi: i64) -> (r: i64)
    requires
        lo <= hi,
    ensures
        lo <= r <= hi,
{
    rand::random_range(lo..=hi)
}

/// Draw one uniform perturbation in `[-noise, noise]` for each of `n`
/// grid vertices.
pub fn draw_perturbations(noise: Fx, n: usize) -> (r: Vec<Fx>)
    requires
        0 <= noise.raw,
    ensures
        r@.len() == n,
        forall|k: int| 0 <= k < n ==> iabs((#[trigger] r@[k]).raw as int) <= noise.raw,
{
    let mut v: Vec<Fx> = Vec::new();
    let mut k: usize = 0;
    while k < n
        invariant
            0 <= noise.raw,
            k <= n,
            v@.len() == k,
            forall|m: int| 0 <= m < k ==> iabs((#[trigger] v@[m]).raw as int) <= noise.raw,
        decreases n - k,
    {
        let d = draw_raw_in(-noise.raw, noise.raw);
        v.push(Fx { raw: d });
        k = k + 1;
    }
    v
}

/// Generate the shared-vertex potato grid, drawing a fresh uniform
/// perturbation for every vertex: the result is one outcome of
/// `ellipsoid_grid_with`, so all its structure, and the exact pole rows,
/// hold whatever was drawn.
pub fn ellipsoid_grid(p: &EllipsoidParams) -> (r: Result<MeshBuffer, MeshError>)
    requires
        p.in_bounds(),
    ensures
        match r {
            Ok(m) => {
                let lat = p.latitude_segments as int;
                let lon = p.longitude_segments as int;
                &&& p.valid()
                &&& m.positions@.len() == p.vertex_count()
                &&& forall|k: int|
                    0 <= k < lon + 1 ==> #[trigger] vert_at(m.positions@, k) == v3(0, 65536, 0)
                &&& forall|k: int|
                    lat * (lon + 1) <= k < (lat + 1) * (lon + 1) ==> #[trigger] vert_at(
                        m.positions@,
                        k,
                    ) == v3(0, -65536, 0)
                &&& m.indices@.len() == 6 * (lat * lon)
                &&& forall|q: int, j: int|
                    0 <= q < lat * lon && 0 <= j < 6 ==> #[trigger] tri_at(m.indices@, q, j)
                        == quad_tri_index(q, lon + 1, j)
                &&& index_ok(m.indices@, m.positions@.len() as int)
                &&& positions_bounded(m.positions@, POS_LIMIT as int)
                &&& m.wf()
                &&& m.triangle_count() == 2 * (lat * lon)
                &&& exists|ws: Seq<Fx>|
                    {
                        &&& #[trigger] ws.len() == p.vertex_count()
                        &&& forall|k: int|
                            0 <= k < ws.len() ==> iabs((#[trigger] ws[k]).raw as int) <= iabs(
                                p.noise_factor.raw as int,
                            )
                        &&& forall|k: int|
                            0 <= k < m.positions@.len() ==> #[trigger] vert_at(m.positions@, k)
                                == ell_vertex(k, lat, lon, p.elongation_factor.raw as int, ws)
                    }
            },
            Err(e) => {
                &&& e == MeshError::InvalidParameter
                &&& !p.valid()
            },
        },
{
    if p.longitude_segments < 1 || p.latitude_segments < 1 || p.noise_factor.raw < 0
        || p.elongation_factor.raw <= 0 {
        return Err(MeshError::InvalidParameter);
    }
    proof {
        assert(((p.latitude_segments + 1) as int) * ((p.longitude_segments + 1) as int)
            <= 16384 * 16384) by (nonlinear_arith)
            requires
                0 <= (p.latitude_segments + 1) as int <= 16384,
                0 <= (p.longitude_segments + 1) as int <= 16384,
        ;
    }
    let n = (p.latitude_segments + 1) * (p.longitude_segments + 1);
    let perts = draw_perturbations(p.noise_factor, n);
    match ellipsoid_grid_with(p, &perts) {
        Ok(m) => {
            proof {
                let ghost ws = perts@;
                assert(ws.len() == p.vertex_count());
            }
            Ok(m)
        },
        Err(e) => {
            proof {
                assert(false);
            }
            Err(e)
        },
    }
}

/// Generate the potato mesh, drawing a fresh uniform perturbation for
/// every grid vertex: one outcome of `ellipsoid_mesh_with`.
pub fn ellipsoid_mesh(p: &EllipsoidParams) -> (r: Result<MeshBuffer, MeshError>)
    requires
        p.in_bounds(),
    ensures
        match r {
            Ok(m) => {
                let lat = p.latitude_segments as int;
                let lon = p.longitude_segments as int;
                &&& p.valid()
                &&& m.positions@.len() == 6 * (lat * lon)
                &&& m.indices@.len() == m.positions@.len()
                &&& m.normals@.len() == m.positions@.len()
                &&& m.triangle_count() == 2 * (lat * lon)
                &&& forall|k: int|
                    0 <= k < m.indices@.len() ==> (#[trigger] m.indices@[k]) as int == k
                &&& index_ok(m.indices@, m.positions@.len() as int)
                &&& m.wf()
                &&& exists|ws: Seq<Fx>|
                    {
                        &&& #[trigger] ws.len() == p.vertex_count()
                        &&& forall|k: int|
                            0 <= k < ws.len() ==> iabs((#[trigger] ws[k]).raw as int) <= iabs(
                                p.noise_factor.raw as int,
                            )
                        &&& forall|k: int|
                            0 <= k < m.positions@.len() ==> #[trigger] vert_at(m.positions@, k)
                                == ell_flat_vertex(
                                k,
                                lat,
                                lon,
                                p.elongation_factor.raw as int,
                                ws,
                            )
                        &&& forall|k: int|
                            0 <= k < m.normals@.len() ==> #[trigger] vert_at(m.normals@, k)
                                == ell_flat_normal(
                                k,
                                lat,
                                lon,
                                p.elongation_factor.raw as int,
                                ws,
                            )
                    }
            },
            Err(e) => {
                &&& e == MeshError::InvalidParameter
                &&& !p.valid()
            },
        },
{
    if p.longitude_segments < 1 || p.latitude_segments < 1 || p.noise_factor.raw < 0
        || p.elongation_factor.raw <= 0 {
        return Err(MeshError::InvalidParameter);
    }
    proof {
        assert(((p.latitude_segments + 1) as int) * ((p.longitude_segments + 1) as int)
            <= 16384 * 16384) by (nonlinear_arith)
            requires
                0 <= (p.latitude_segments + 1) as int <= 16384,
                0 <= (p.longitude_segments + 1) as int <= 16384,
        ;
    }
    let n = (p.latitude_segments + 1) * (p.longitude_segments + 1);
    let perts = draw_perturbations(p.noise_factor, n);
    match ellipsoid_mesh_with(p, &perts) {
        Ok(m) => {
            proof {
                let ghost ws = perts@;
                assert(ws.len() == p.vertex_count());
            }
            Ok(m)
        },
        Err(e) => {
            proof {
                assert(false);
            }
            Err(e)
        },
    }
}

} // verus!
