//! Triangle-mesh buffers: positions, triangle indices, and flat normals.
//!
//! `with_flat_normals` mirrors the usual pipeline step that duplicates
//! vertices per face and attaches one normal to each corner of every
//! triangle, so no two faces share a smoothed vertex.

use vstd::prelude::*;

verus! {

use crate::fixed::{
    lemma_div65536_exact,
    lemma_fx_mul_bound,
    Fx,
    iabs,
    isqrt_u128,
    mag,
    sqrt_v,
    tdiv,
    unit_ratio,
};
use crate::vec3::{cross_in_range, v3, v3_bounded, v3_cross, v3_norm_sq, v3_sub, Vec3v, Vec3x};
use vstd::arithmetic::div_mod::lemma_fundamental_div_mod_converse_div;

/// Why a generator refused its parameters.
#[derive(Clone, Copy, Debug, PartialEq, Eq, Structural)]
pub enum MeshError {
    InvalidParameter,
}

/// An indexed triangle mesh; `normals` is either empty or one normal per
/// vertex.
#[derive(Debug)]
pub struct MeshBuffer {
    pub positions: Vec<Vec3x>,
    pub indices: Vec<u32>,
    pub normals: Vec<Vec3x>,
}

/// Component magnitude bound under which normals can be computed without
/// overflow.
pub const POS_LIMIT: i64 = 0x20_0000_0000;

/// Every index points inside a vertex buffer of length `n`.
pub open spec fn index_ok(is: Seq<u32>, n: int) -> bool {
    forall|k: int| 0 <= k < is.len() ==> (is[k] as int) < n
}

/// Every position component has magnitude at most `b`.
pub open spec fn positions_bounded(ps: Seq<Vec3x>, b: int) -> bool {
    forall|k: int| 0 <= k < ps.len() ==> v3_bounded(#[trigger] ps[k]@, b)
}

impl MeshBuffer {
    /// The buffer is consistent: whole triangles, in-range indices, and
    /// normals either absent or one per vertex.
    pub open spec fn wf(self) -> bool {
        &&& self.indices@.len() % 3 == 0
        &&& index_ok(self.indices@, self.positions@.len() as int)
        &&& (self.normals@.len() == 0 || self.normals@.len() == self.positions@.len())
    }

    /// Number of triangles described by the index buffer.
    pub open spec fn triangle_count(self) -> int {
        self.indices@.len() as int / 3
    }
}

/// Flat normal of the triangle `(a, b, c)`: the normalized cross product
/// of its two edges, or the positive y axis for a degenerate triangle.
pub open spec fn tri_normal_v(a: Vec3v, b: Vec3v, c: Vec3v) -> Vec3v {
    let cr = v3_cross(v3_sub(b, a), v3_sub(c, a));
    if cr == v3(0, 0, 0) {
        v3(0, 65536, 0)
    } else {
        let l = sqrt_v(v3_norm_sq(cr));
        v3(tdiv(cr.x * 65536, l), tdiv(cr.y * 65536, l), tdiv(cr.z * 65536, l))
    }
}

/// Flat normal of triangle `t` of an indexed mesh.
pub open spec fn face_normal_v(ps: Seq<Vec3x>, is: Seq<u32>, t: int) -> Vec3v {
    tri_normal_v(ps[is[3 * t] as int]@, ps[is[3 * t + 1] as int]@, ps[is[3 * t + 2] as int]@)
}

/// Executable flat normal of one triangle.
fn tri_normal(a: Vec3x, b: Vec3x, c: Vec3x) -> (n: Vec3x)
    requires
        v3_bounded(a@, POS_LIMIT as int),
        v3_bounded(b@, POS_LIMIT as int),
        v3_bounded(c@, POS_LIMIT as int),
    ensures
        n@ == tri_normal_v(a@, b@, c@),
        v3_bounded(n@, 65536),
{
    let e1 = b.minus(a);
    let e2 = c.minus(a);
    proof {
        lemma_fx_mul_bound(e1@.y, e2@.z, 0x40_0000_0000, 0x40_0000_0000);
        lemma_fx_mul_bound(e1@.z, e2@.y, 0x40_0000_0000, 0x40_0000_0000);
        lemma_fx_mul_bound(e1@.z, e2@.x, 0x40_0000_0000, 0x40_0000_0000);
        lemma_fx_mul_bound(e1@.x, e2@.z, 0x40_0000_0000, 0x40_0000_0000);
        lemma_fx_mul_bound(e1@.x, e2@.y, 0x40_0000_0000, 0x40_0000_0000);
        lemma_fx_mul_bound(e1@.y, e2@.x, 0x40_0000_0000, 0x40_0000_0000);
        assert(0x40_0000_0000 * 0x40_0000_0000 == 65536 * 0x1000_0000_0000_0000int);
        lemma_div65536_exact(0x1000_0000_0000_0000);
        assert(cross_in_range(e1@, e2@));
    }
    let cr = e1.crossed(e2);
    proof {
        assert(iabs(cr@.x) <= 0x2000_0000_0000_0000);
        assert(iabs(cr@.y) <= 0x2000_0000_0000_0000);
        assert(iabs(cr@.z) <= 0x2000_0000_0000_0000);
    }
    if cr.x.raw == 0 && cr.y.raw == 0 && cr.z.raw == 0 {
        Vec3x { x: Fx { raw: 0 }, y: Fx { raw: 65536 }, z: Fx { raw: 0 } }
    } else {
        let mx = mag(cr.x.raw);
        let my = mag(cr.y.raw);
        let mz = mag(cr.z.raw);
        proof {
            assert((mx as int) * (mx as int) == cr@.x * cr@.x && (mx as int) * (mx as int)
                >= 0 && (mx as int) * (mx as int)
                <= 0x400_0000_0000_0000_0000_0000_0000_0000) by (nonlinear_arith)
                requires
                    mx as int == iabs(cr@.x),
                    iabs(cr@.x) <= 0x2000_0000_0000_0000,
            ;
            assert((my as int) * (my as int) == cr@.y * cr@.y && (my as int) * (my as int)
                >= 0 && (my as int) * (my as int)
                <= 0x400_0000_0000_0000_0000_0000_0000_0000) by (nonlinear_arith)
                requires
                    my as int == iabs(cr@.y),
                    iabs(cr@.y) <= 0x2000_0000_0000_0000,
            ;
            assert((mz as int) * (mz as int) == cr@.z * cr@.z && (mz as int) * (mz as int)
                >= 0 && (mz as int) * (mz as int)
                <= 0x400_0000_0000_0000_0000_0000_0000_0000) by (nonlinear_arith)
                requires
                    mz as int == iabs(cr@.z),
                    iabs(cr@.z) <= 0x2000_0000_0000_0000,
            ;
        }
        let s2: u128 = (mx as u128) * (mx as u128) + (my as u128) * (my as u128) + (mz as u128)
            * (mz as u128);
        let l = isqrt_u128(s2);
        proof {
            assert(s2 as int == v3_norm_sq(cr@));
            if cr@.x != 0 {
                assert(cr@.x * cr@.x >= 1) by (nonlinear_arith)
                    requires
                        cr@.x != 0,
                ;
            } else if cr@.y != 0 {
                assert(cr@.y * cr@.y >= 1) by (nonlinear_arith)
                    requires
                        cr@.y != 0,
                ;
            } else {
                assert(cr@.z * cr@.z >= 1) by (nonlinear_arith)
                    requires
                        cr@.z != 0,
                ;
            }
            assert(s2 >= 1);
            if l == 0 {
                assert((l as int + 1) * (l as int + 1) == 1) by (nonlinear_arith)
                    requires
                        l as int == 0,
                ;
                assert(false);
            }
            assert(iabs(cr@.x) <= l as int) by (nonlinear_arith)
                requires
                    iabs(cr@.x) >= 0,
                    l as int >= 0,
                    iabs(cr@.x) * iabs(cr@.x) <= s2 as int,
                    (l as int + 1) * (l as int + 1) > s2 as int,
            ;
            assert(iabs(cr@.y) <= l as int) by (nonlinear_arith)
                requires
                    iabs(cr@.y) >= 0,
                    l as int >= 0,
                    iabs(cr@.y) * iabs(cr@.y) <= s2 as int,
                    (l as int + 1) * (l as int + 1) > s2 as int,
            ;
            assert(iabs(cr@.z) <= l as int) by (nonlinear_arith)
                requires
                    iabs(cr@.z) >= 0,
                    l as int >= 0,
                    iabs(cr@.z) * iabs(cr@.z) <= s2 as int,
                    (l as int + 1) * (l as int + 1) > s2 as int,
            ;
            if l as int >= 0x4000_0000_0000_0000 {
                assert((l as int) * (l as int) >= 0x4000_0000_0000_0000
                    * 0x4000_0000_0000_0000) by (nonlinear_arith)
                    requires
                        l as int >= 0x4000_0000_0000_0000,
                ;
                assert(false);
            }
        }
        let li = l as i64;
        let nx = unit_ratio(cr.x.raw, li);
        let ny = unit_ratio(cr.y.raw, li);
        let nz = unit_ratio(cr.z.raw, li);
        Vec3x { x: Fx { raw: nx }, y: Fx { raw: ny }, z: Fx { raw: nz } }
    }
}

/// Duplicate the vertices of every face and attach flat normals: vertex
/// `k` of the result is the mesh's vertex `indices[k]`, the new index
/// buffer is the identity, and all three corners of triangle `t` carry
/// that triangle's flat normal.
pub fn with_flat_normals(m: &MeshBuffer) -> (r: MeshBuffer)
    requires
        m.indices@.len() % 3 == 0,
        m.indices@.len() <= 0xffff_ffff,
        index_ok(m.indices@, m.positions@.len() as int),
        positions_bounded(m.positions@, POS_LIMIT as int),
    ensures
        r.positions@.len() == m.indices@.len(),
        r.indices@.len() == m.indices@.len(),
        r.normals@.len() == m.indices@.len(),
        forall|k: int|
            0 <= k < m.indices@.len() ==> #[trigger] r.positions@[k] == m.positions@[m.indices@[k] as int],
        forall|k: int| 0 <= k < m.indices@.len() ==> (#[trigger] r.indices@[k]) as int == k,
        forall|k: int|
            0 <= k < m.indices@.len() ==> #[trigger] r.normals@[k]@ == face_normal_v(
                m.positions@,
                m.indices@,
                k / 3,
            ),
        forall|k: int| 0 <= k < m.indices@.len() ==> v3_bounded(#[trigger] r.normals@[k]@, 65536),
        r.wf(),
        r.triangle_count() == m.triangle_count(),
{
    let len = m.indices.len();
    let ntri = len / 3;
    proof {
        lemma_fundamental_div_mod_converse_div(len as int, 3, len as int / 3, 0);
        assert(3 * (len as int / 3) == len as int);
    }
    let mut ps2: Vec<Vec3x> = Vec::new();
    let mut is2: Vec<u32> = Vec::new();
    let mut ns2: Vec<Vec3x> = Vec::new();
    for t in 0..ntri
        invariant
            len == m.indices@.len(),
            3 * ntri == len,
            m.indices@.len() <= 0xffff_ffff,
            index_ok(m.indices@, m.positions@.len() as int),
            positions_bounded(m.positions@, POS_LIMIT as int),
            ps2@.len() == 3 * t,
            is2@.len() == 3 * t,
            ns2@.len() == 3 * t,
            forall|k: int|
                0 <= k < 3 * t ==> #[trigger] ps2@[k] == m.positions@[m.indices@[k] as int],
            forall|k: int| 0 <= k < 3 * t ==> (#[trigger] is2@[k]) as int == k,
            forall|k: int|
                0 <= k < 3 * t ==> #[trigger] ns2@[k]@ == face_normal_v(
                    m.positions@,
                    m.indices@,
                    k / 3,
                ),
            forall|k: int| 0 <= k < 3 * t ==> v3_bounded(#[trigger] ns2@[k]@, 65536),
    {
        let ia = m.indices[3 * t];
        let ib = m.indices[3 * t + 1];
        let ic = m.indices[3 * t + 2];
        let pa = m.positions[ia as usize];
        let pb = m.positions[ib as usize];
        let pc = m.positions[ic as usize];
        let nrm = tri_normal(pa, pb, pc);
        ps2.push(pa);
        ps2.push(pb);
        ps2.push(pc);
        is2.push((3 * t) as u32);
        is2.push((3 * t + 1) as u32);
        is2.push((3 * t + 2) as u32);
        ns2.push(nrm);
        ns2.push(nrm);
        ns2.push(nrm);
        proof {
            lemma_fundamental_div_mod_converse_div(3 * t as int, 3, t as int, 0);
            lemma_fundamental_div_mod_converse_div(3 * t as int + 1, 3, t as int, 1);
            lemma_fundamental_div_mod_converse_div(3 * t as int + 2, 3, t as int, 2);
            assert(nrm@ == face_normal_v(m.positions@, m.indices@, t as int));
        }
    }
    MeshBuffer { positions: ps2, indices: is2, normals: ns2 }
}

} // verus!
