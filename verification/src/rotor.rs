//! Pivot rotation: advancing a rigid transform around an external pivot.
//!
//! Each step builds a rotation about the z axis from the angular rate and
//! the elapsed time, recomputes the pivot from the live transform (the
//! pivot sits a fixed local offset behind the object), and rotates the
//! transform about that world-space point: the translation revolves
//! around the pivot and the step rotation is composed onto the existing
//! orientation.  Angles are in turns, as everywhere in this crate.
//!
//! The rotation quaternion is never renormalized: every component of the
//! result is pinned exactly by the fixed-point formulas below, and the
//! rounding drift per step is what those formulas say it is.

use vstd::prelude::*;

verus! {

use crate::fixed::{
    fx_mul_v,
    iabs,
    in_sym64,
    lemma_div65536_exact,
    lemma_fx_mul_bound,
    lemma_fx_mul_one,
    lemma_fx_mul_one_left,
    lemma_fx_mul_zero,
    tdiv,
    Fx,
};
use crate::trig::{cos_turns, cos_v, lemma_quarter_points, sin_turns, sin_v};
use crate::vec3::{cross_in_range, v3, v3_add, v3_bounded, v3_cross, v3_scale, v3_sub, Vec3v, Vec3x};
use vstd::arithmetic::div_mod::{lemma_div_of0, lemma_multiply_divide_le, lemma_div_pos_is_pos};

/// Component magnitude bound for rotation quaternions: two units, twice
/// the magnitude any near-unit quaternion needs.
pub const QUAT_LIMIT: i64 = 0x2_0000;

/// Component magnitude bound on vectors handed to `rotate`.
pub const ROT_VEC_LIMIT: i64 = 0x2000_0000_0000;

/// Component magnitude bound on translations, pivots and offsets in
/// `pivot_step`.
pub const PIVOT_LIMIT: i64 = 0x4000_0000;

/// Mathematical value of a quaternion: its four raw integers.
pub ghost struct QuatV {
    pub w: int,
    pub x: int,
    pub y: int,
    pub z: int,
}

/// A quaternion of fixed-point components.
#[derive(Clone, Copy, Debug, PartialEq, Eq, Structural)]
pub struct QuatX {
    pub w: Fx,
    pub x: Fx,
    pub y: Fx,
    pub z: Fx,
}

impl View for QuatX {
    type V = QuatV;

    open spec fn view(&self) -> QuatV {
        QuatV {
            w: self.w.raw as int,
            x: self.x.raw as int,
            y: self.y.raw as int,
            z: self.z.raw as int,
        }
    }
}

/// Every component has magnitude at most `b`.
pub open spec fn quat_bounded(q: QuatV, b: int) -> bool {
    iabs(q.w) <= b && iabs(q.x) <= b && iabs(q.y) <= b && iabs(q.z) <= b
}

pub open spec fn quat_identity_v() -> QuatV {
    QuatV { w: 65536, x: 0, y: 0, z: 0 }
}

/// Quaternion for a rotation of `angle` raw turn steps about the z axis:
/// cosine and sine of half the angle.
pub open spec fn rot_z_v(angle: int) -> QuatV {
    QuatV { w: cos_v(tdiv(angle, 2)), x: 0, y: 0, z: sin_v(tdiv(angle, 2)) }
}

/// Fixed-point Hamilton product.
pub open spec fn quat_mul_v(a: QuatV, b: QuatV) -> QuatV {
    QuatV {
        w: fx_mul_v(a.w, b.w) - fx_mul_v(a.x, b.x) - fx_mul_v(a.y, b.y) - fx_mul_v(a.z, b.z),
        x: fx_mul_v(a.w, b.x) + fx_mul_v(a.x, b.w) + fx_mul_v(a.y, b.z) - fx_mul_v(a.z, b.y),
        y: fx_mul_v(a.w, b.y) - fx_mul_v(a.x, b.z) + fx_mul_v(a.y, b.w) + fx_mul_v(a.z, b.x),
        z: fx_mul_v(a.w, b.z) + fx_mul_v(a.x, b.y) - fx_mul_v(a.y, b.x) + fx_mul_v(a.z, b.w),
    }
}

/// Image of `v` under the rotation `q`, by the two-cross-products form:
/// `v + w * t + qv x t` with `t = 2 * (qv x v)`.
pub open spec fn quat_apply_v(q: QuatV, v: Vec3v) -> Vec3v {
    let qv = v3(q.x, q.y, q.z);
    let c = v3_cross(qv, v);
    let t = v3(2 * c.x, 2 * c.y, 2 * c.z);
    v3_add(v, v3_add(v3_scale(t, q.w), v3_cross(qv, t)))
}

impl QuatX {
    pub fn identity() -> (r: QuatX)
        ensures
            r@ == quat_identity_v(),
    {
        QuatX { w: Fx { raw: 65536 }, x: Fx { raw: 0 }, y: Fx { raw: 0 }, z: Fx { raw: 0 } }
    }

    /// Rotation of `angle` turns about the z axis.
    pub fn from_rotation_z(angle: Fx) -> (r: QuatX)
        requires
            in_sym64(angle.raw as int),
        ensures
            r@ == rot_z_v(angle.raw as int),
            quat_bounded(r@, 65536),
    {
        let half = angle.half();
        proof {
            lemma_multiply_divide_le(iabs(angle.raw as int), 2, 0x4000_0000_0000_0000);
        }
        let w = cos_turns(half);
        let z = sin_turns(half);
        QuatX { w, x: Fx { raw: 0 }, y: Fx { raw: 0 }, z }
    }

    /// Hamilton product of two bounded quaternions.
    pub fn times(self, o: QuatX) -> (r: QuatX)
        requires
            quat_bounded(self@, QUAT_LIMIT as int),
            quat_bounded(o@, QUAT_LIMIT as int),
        ensures
            r@ == quat_mul_v(self@, o@),
            quat_bounded(r@, 0x10_0000),
    {
        proof {
            lemma_fx_mul_bound(self@.w, o@.w, 0x2_0000, 0x2_0000);
            lemma_fx_mul_bound(self@.w, o@.x, 0x2_0000, 0x2_0000);
            lemma_fx_mul_bound(self@.w, o@.y, 0x2_0000, 0x2_0000);
            lemma_fx_mul_bound(self@.w, o@.z, 0x2_0000, 0x2_0000);
            lemma_fx_mul_bound(self@.x, o@.w, 0x2_0000, 0x2_0000);
            lemma_fx_mul_bound(self@.x, o@.x, 0x2_0000, 0x2_0000);
            lemma_fx_mul_bound(self@.x, o@.y, 0x2_0000, 0x2_0000);
            lemma_fx_mul_bound(self@.x, o@.z, 0x2_0000, 0x2_0000);
            lemma_fx_mul_bound(self@.y, o@.w, 0x2_0000, 0x2_0000);
            lemma_fx_mul_bound(self@.y, o@.x, 0x2_0000, 0x2_0000);
            lemma_fx_mul_bound(self@.y, o@.y, 0x2_0000, 0x2_0000);
            lemma_fx_mul_bound(self@.y, o@.z, 0x2_0000, 0x2_0000);
            lemma_fx_mul_bound(self@.z, o@.w, 0x2_0000, 0x2_0000);
            lemma_fx_mul_bound(self@.z, o@.x, 0x2_0000, 0x2_0000);
            lemma_fx_mul_bound(self@.z, o@.y, 0x2_0000, 0x2_0000);
            lemma_fx_mul_bound(self@.z, o@.z, 0x2_0000, 0x2_0000);
            assert(0x2_0000 * 0x2_0000 == 65536 * 0x4_0000int);
            lemma_div65536_exact(0x4_0000);
        }
        let w = self.w.times(o.w).minus(self.x.times(o.x)).minus(self.y.times(o.y)).minus(
            self.z.times(o.z),
        );
        let x = self.w.times(o.x).plus(self.x.times(o.w)).plus(self.y.times(o.z)).minus(
            self.z.times(o.y),
        );
        let y = self.w.times(o.y).minus(self.x.times(o.z)).plus(self.y.times(o.w)).plus(
            self.z.times(o.x),
        );
        let z = self.w.times(o.z).plus(self.x.times(o.y)).minus(self.y.times(o.x)).plus(
            self.z.times(o.w),
        );
        QuatX { w, x, y, z }
    }

    /// Rotate a vector.  The result is bounded linearly in the bound of
    /// the input, so callers can chain rotations at their own scale.
    pub fn rotate(self, v: Vec3x) -> (r: Vec3x)
        requires
            quat_bounded(self@, QUAT_LIMIT as int),
            v3_bounded(v@, ROT_VEC_LIMIT as int),
        ensures
            r@ == quat_apply_v(self@, v@),
            forall|b: int| #[trigger] v3_bounded(v@, b) ==> v3_bounded(r@, 49 * b),
    {
        let qv = Vec3x { x: self.x, y: self.y, z: self.z };
        proof {
            lemma_fx_mul_bound(qv@.y, v@.z, 0x2_0000, ROT_VEC_LIMIT as int);
            lemma_fx_mul_bound(qv@.z, v@.y, 0x2_0000, ROT_VEC_LIMIT as int);
            lemma_fx_mul_bound(qv@.z, v@.x, 0x2_0000, ROT_VEC_LIMIT as int);
            lemma_fx_mul_bound(qv@.x, v@.z, 0x2_0000, ROT_VEC_LIMIT as int);
            lemma_fx_mul_bound(qv@.x, v@.y, 0x2_0000, ROT_VEC_LIMIT as int);
            lemma_fx_mul_bound(qv@.y, v@.x, 0x2_0000, ROT_VEC_LIMIT as int);
            assert(0x2_0000 * (ROT_VEC_LIMIT as int) == 65536 * (2 * (ROT_VEC_LIMIT as int)));
            lemma_div65536_exact(2 * (ROT_VEC_LIMIT as int));
            assert(cross_in_range(qv@, v@));
        }
        let c = qv.crossed(v);
        let t = c.plus(c);
        proof {
            lemma_fx_mul_bound(t@.x, self@.w, 16 * (ROT_VEC_LIMIT as int), 0x2_0000);
            lemma_fx_mul_bound(t@.y, self@.w, 16 * (ROT_VEC_LIMIT as int), 0x2_0000);
            lemma_fx_mul_bound(t@.z, self@.w, 16 * (ROT_VEC_LIMIT as int), 0x2_0000);
            assert((16 * (ROT_VEC_LIMIT as int)) * 0x2_0000 == 65536 * (32 * (
            ROT_VEC_LIMIT as int)));
            lemma_div65536_exact(32 * (ROT_VEC_LIMIT as int));
            lemma_fx_mul_bound(qv@.y, t@.z, 0x2_0000, 16 * (ROT_VEC_LIMIT as int));
            lemma_fx_mul_bound(qv@.z, t@.y, 0x2_0000, 16 * (ROT_VEC_LIMIT as int));
            lemma_fx_mul_bound(qv@.z, t@.x, 0x2_0000, 16 * (ROT_VEC_LIMIT as int));
            lemma_fx_mul_bound(qv@.x, t@.z, 0x2_0000, 16 * (ROT_VEC_LIMIT as int));
            lemma_fx_mul_bound(qv@.x, t@.y, 0x2_0000, 16 * (ROT_VEC_LIMIT as int));
            lemma_fx_mul_bound(qv@.y, t@.x, 0x2_0000, 16 * (ROT_VEC_LIMIT as int));
            assert(0x2_0000 * (16 * (ROT_VEC_LIMIT as int)) == 65536 * (32 * (
            ROT_VEC_LIMIT as int)));
            assert(cross_in_range(qv@, t@));
        }
        let wt = t.scaled(self.w);
        let c2 = qv.crossed(t);
        let r = v.plus(wt.plus(c2));
        proof {
            assert forall|b: int| #[trigger] v3_bounded(v@, b) implies v3_bounded(r@, 49 * b) by {
                lemma_fx_mul_bound(qv@.y, v@.z, 0x2_0000, b);
                lemma_fx_mul_bound(qv@.z, v@.y, 0x2_0000, b);
                lemma_fx_mul_bound(qv@.z, v@.x, 0x2_0000, b);
                lemma_fx_mul_bound(qv@.x, v@.z, 0x2_0000, b);
                lemma_fx_mul_bound(qv@.x, v@.y, 0x2_0000, b);
                lemma_fx_mul_bound(qv@.y, v@.x, 0x2_0000, b);
                assert(0x2_0000 * b == 65536 * (2 * b));
                lemma_div65536_exact(2 * b);
                lemma_fx_mul_bound(t@.x, self@.w, 8 * b, 0x2_0000);
                lemma_fx_mul_bound(t@.y, self@.w, 8 * b, 0x2_0000);
                lemma_fx_mul_bound(t@.z, self@.w, 8 * b, 0x2_0000);
                assert((8 * b) * 0x2_0000 == 65536 * (16 * b)) by (nonlinear_arith);
                lemma_div65536_exact(16 * b);
                lemma_fx_mul_bound(qv@.y, t@.z, 0x2_0000, 8 * b);
                lemma_fx_mul_bound(qv@.z, t@.y, 0x2_0000, 8 * b);
                lemma_fx_mul_bound(qv@.z, t@.x, 0x2_0000, 8 * b);
                lemma_fx_mul_bound(qv@.x, t@.z, 0x2_0000, 8 * b);
                lemma_fx_mul_bound(qv@.x, t@.y, 0x2_0000, 8 * b);
                lemma_fx_mul_bound(qv@.y, t@.x, 0x2_0000, 8 * b);
                assert(0x2_0000 * (8 * b) == 65536 * (16 * b)) by (nonlinear_arith);
            }
        }
        r
    }
}

/// Mathematical value of a transform.
pub ghost struct TransformV {
    pub translation: Vec3v,
    pub rotation: QuatV,
}

/// A rigid transform: a translation and a rotation quaternion.
#[derive(Clone, Copy, Debug, PartialEq, Eq, Structural)]
pub struct Transform3 {
    pub translation: Vec3x,
    pub rotation: QuatX,
}

impl View for Transform3 {
    type V = TransformV;

    open spec fn view(&self) -> TransformV {
        TransformV { translation: self.translation@, rotation: self.rotation@ }
    }
}

/// Rotate a transform about a world-space point: the translation revolves
/// around the point, and the rotation is composed onto the orientation.
pub open spec fn rotate_around_v(tr: TransformV, pivot: Vec3v, delta: QuatV) -> TransformV {
    TransformV {
        translation: v3_add(pivot, quat_apply_v(delta, v3_sub(tr.translation, pivot))),
        rotation: quat_mul_v(delta, tr.rotation),
    }
}

/// One tick of the pivot rotator: rotate about the pivot recomputed from
/// the live transform, by the angle the rate covers in the elapsed time.
pub open spec fn pivot_step_v(tr: TransformV, speed: int, dt: int, offset: Vec3v) -> TransformV {
    let angle = fx_mul_v(speed, dt);
    let delta = rot_z_v(angle);
    let pivot = v3_sub(tr.translation, quat_apply_v(tr.rotation, offset));
    rotate_around_v(tr, pivot, delta)
}

/// The identity rotation moves no vector.
pub proof fn lemma_quat_apply_identity(v: Vec3v)
    ensures
        quat_apply_v(quat_identity_v(), v) == v,
{
    lemma_fx_mul_zero(v.x);
    lemma_fx_mul_zero(v.y);
    lemma_fx_mul_zero(v.z);
    lemma_fx_mul_zero(65536);
    lemma_fx_mul_zero(0);
    lemma_fx_mul_one(0);
}

/// The identity quaternion is a left unit of the Hamilton product.
pub proof fn lemma_quat_mul_identity(q: QuatV)
    ensures
        quat_mul_v(quat_identity_v(), q) == q,
{
    lemma_fx_mul_one_left(q.w);
    lemma_fx_mul_one_left(q.x);
    lemma_fx_mul_one_left(q.y);
    lemma_fx_mul_one_left(q.z);
    lemma_fx_mul_zero(q.w);
    lemma_fx_mul_zero(q.x);
    lemma_fx_mul_zero(q.y);
    lemma_fx_mul_zero(q.z);
}

/// A step at angular rate zero leaves the transform exactly unchanged,
/// whatever the elapsed time, the offset and the current pose.
pub proof fn lemma_pivot_step_zero_speed(tr: TransformV, dt: int, offset: Vec3v)
    ensures
        pivot_step_v(tr, 0, dt, offset) == tr,
{
    lemma_fx_mul_zero(dt);
    assert(fx_mul_v(0, dt) == 0);
    lemma_div_of0(2);
    assert(tdiv(0, 2) == 0);
    lemma_quarter_points();
    assert(rot_z_v(0) == quat_identity_v());
    let pivot = v3_sub(tr.translation, quat_apply_v(tr.rotation, offset));
    lemma_quat_apply_identity(v3_sub(tr.translation, pivot));
    lemma_quat_mul_identity(tr.rotation);
}

/// Arm-length invariant of the ideal rotation about the z axis: before
/// any fixed-point rounding, rotating the in-plane offset `(x, y)` by
/// `(c, s)` scales its squared length by exactly `c*c + s*s`, so an exact
/// rotation (unit `(c, s)`) keeps the distance between the translation
/// and the pivot unchanged, tick after tick.  The executable step rounds
/// each product to the fixed-point grid, so it preserves the arm length
/// to within that rounding.
pub proof fn lemma_rot_z_preserves_norm_sq(c: int, s: int, x: int, y: int)
    ensures
        (c * x - s * y) * (c * x - s * y) + (s * x + c * y) * (s * x + c * y) == (c * c + s * s) * (
        x * x + y * y),
{
    let u = c * x - s * y;
    let v = s * x + c * y;
    assert(u * u == (c * x) * (c * x) - 2 * ((c * x) * (s * y)) + (s * y) * (s * y))
        by (nonlinear_arith)
        requires
            u == c * x - s * y,
    ;
    assert(v * v == (s * x) * (s * x) + 2 * ((s * x) * (c * y)) + (c * y) * (c * y))
        by (nonlinear_arith)
        requires
            v == s * x + c * y,
    ;
    assert((c * x) * (s * y) == (s * x) * (c * y)) by (nonlinear_arith);
    assert((c * x) * (c * x) == (c * c) * (x * x)) by (nonlinear_arith);
    assert((s * y) * (s * y) == (s * s) * (y * y)) by (nonlinear_arith);
    assert((s * x) * (s * x) == (s * s) * (x * x)) by (nonlinear_arith);
    assert((c * y) * (c * y) == (c * c) * (y * y)) by (nonlinear_arith);
    assert((c * c + s * s) * (x * x + y * y) == (c * c) * (x * x) + (c * c) * (y * y) + (s * s) * (
    x * x) + (s * s) * (y * y)) by (nonlinear_arith);
}

/// A rotation purely about the z axis.
pub open spec fn pure_z(q: QuatV) -> bool {
    q.x == 0 && q.y == 0
}

/// A rotation about the z axis leaves the z coordinate exactly unchanged,
/// rounding included: every rounded term of the z component is a product
/// with a zero factor.
pub proof fn lemma_rot_z_keeps_z(q: QuatV, v: Vec3v)
    requires
        pure_z(q),
    ensures
        quat_apply_v(q, v).z == v.z,
{
    lemma_fx_mul_zero(v.x);
    lemma_fx_mul_zero(v.y);
    let qv = v3(q.x, q.y, q.z);
    let c = v3_cross(qv, v);
    assert(c.z == 0);
    let t = v3(2 * c.x, 2 * c.y, 2 * c.z);
    lemma_fx_mul_zero(q.w);
    lemma_fx_mul_zero(t.y);
    lemma_fx_mul_zero(t.x);
}

/// Rotations about the z axis compose to a rotation about the z axis.
pub proof fn lemma_pure_z_product(a: QuatV, b: QuatV)
    requires
        pure_z(a),
        pure_z(b),
    ensures
        pure_z(quat_mul_v(a, b)),
{
    lemma_fx_mul_zero(a.w);
    lemma_fx_mul_zero(a.z);
    lemma_fx_mul_zero(b.w);
    lemma_fx_mul_zero(b.x);
    lemma_fx_mul_zero(b.y);
    lemma_fx_mul_zero(b.z);
}

/// A blade modeled in the xy plane stays in it: when the current
/// orientation is a rotation about the z axis, a pivot step leaves the
/// translation's z coordinate exactly unchanged and the new orientation
/// is again a rotation about the z axis.
pub proof fn lemma_pivot_step_keeps_plane(tr: TransformV, speed: int, dt: int, offset: Vec3v)
    requires
        pure_z(tr.rotation),
    ensures
        pivot_step_v(tr, speed, dt, offset).translation.z == tr.translation.z,
        pure_z(pivot_step_v(tr, speed, dt, offset).rotation),
{
    let delta = rot_z_v(fx_mul_v(speed, dt));
    let pivot = v3_sub(tr.translation, quat_apply_v(tr.rotation, offset));
    lemma_rot_z_keeps_z(tr.rotation, offset);
    lemma_rot_z_keeps_z(delta, v3_sub(tr.translation, pivot));
    lemma_pure_z_product(delta, tr.rotation);
}

/// Rotate `t` in place about the world-space point `pivot` by `delta`.
pub fn rotate_around(t: &mut Transform3, pivot: Vec3x, delta: QuatX)
    requires
        quat_bounded(delta@, QUAT_LIMIT as int),
        quat_bounded(old(t)@.rotation, QUAT_LIMIT as int),
        v3_bounded(old(t)@.translation, 0x20_0000_0000),
        v3_bounded(pivot@, 0x20_0000_0000),
    ensures
        final(t)@ == rotate_around_v(old(t)@, pivot@, delta@),
{
    let rel = t.translation.minus(pivot);
    let rot = delta.rotate(rel);
    proof {
        assert(v3_bounded(rel@, 0x40_0000_0000));
        assert(v3_bounded(rot@, 49 * 0x40_0000_0000int));
    }
    let newt = pivot.plus(rot);
    let newr = delta.times(t.rotation);
    t.translation = newt;
    t.rotation = newr;
}

/// Advance the transform one tick: rotate it by `rotation_speed *
/// delta_time` turns about the z axis, around the pivot that sits
/// `pivot_local_offset` behind it along its current orientation.  At rate
/// zero the transform is unchanged.
pub fn pivot_step(t: &mut Transform3, rotation_speed: Fx, delta_time: Fx, pivot_local_offset: Vec3x)
    requires
        iabs(rotation_speed.raw as int) <= 0x8000_0000,
        iabs(delta_time.raw as int) <= 0x8000_0000,
        quat_bounded(old(t)@.rotation, QUAT_LIMIT as int),
        v3_bounded(old(t)@.translation, PIVOT_LIMIT as int),
        v3_bounded(pivot_local_offset@, PIVOT_LIMIT as int),
    ensures
        final(t)@ == pivot_step_v(
            old(t)@,
            rotation_speed.raw as int,
            delta_time.raw as int,
            pivot_local_offset@,
        ),
        rotation_speed.raw == 0 ==> final(t)@ == old(t)@,
{
    proof {
        lemma_fx_mul_bound(rotation_speed.raw as int, delta_time.raw as int, 0x8000_0000,
            0x8000_0000);
        assert(0x8000_0000 * 0x8000_0000 == 65536 * 0x4000_0000_0000int);
        lemma_div65536_exact(0x4000_0000_0000);
    }
    let angle = rotation_speed.times(delta_time);
    let delta = QuatX::from_rotation_z(angle);
    let arm = t.rotation.rotate(pivot_local_offset);
    proof {
        assert(v3_bounded(pivot_local_offset@, PIVOT_LIMIT as int));
        assert(v3_bounded(arm@, 49 * (PIVOT_LIMIT as int)));
    }
    let pivot = t.translation.minus(arm);
    rotate_around(t, pivot, delta);
    proof {
        if rotation_speed.raw == 0 {
            lemma_pivot_step_zero_speed(
                old(t)@,
                delta_time.raw as int,
                pivot_local_offset@,
            );
        }
    }
}

/// Placement of `count` blades around a hub: blade `i` is rotated
/// `i / count` turns about the z axis, and its centre sits half a blade
/// length from the hub along the blade's rotated local y axis.
pub open spec fn blade_transform_v(i: int, count: int, len: int, axis: Vec3v) -> TransformV {
    let rot = rot_z_v((i * 65536) / count);
    let offset = v3(0, tdiv(len, 2), 0);
    TransformV { translation: v3_add(axis, quat_apply_v(rot, offset)), rotation: rot }
}

/// Evenly spaced blade transforms around the hub point `axis`.
pub fn blade_transforms(count: usize, blade_length: Fx, axis: Vec3x) -> (r: Vec<Transform3>)
    requires
        1 <= count <= 65536,
        iabs(blade_length.raw as int) <= PIVOT_LIMIT as int,
        v3_bounded(axis@, PIVOT_LIMIT as int),
    ensures
        r@.len() == count,
        forall|i: int|
            0 <= i < count ==> (#[trigger] r@[i])@ == blade_transform_v(
                i,
                count as int,
                blade_length.raw as int,
                axis@,
            ),
{
    let mut out: Vec<Transform3> = Vec::new();
    let half_len = blade_length.half();
    for i in 0..count
        invariant
            1 <= count <= 65536,
            iabs(blade_length.raw as int) <= PIVOT_LIMIT as int,
            half_len.raw == tdiv(blade_length.raw as int, 2),
            v3_bounded(axis@, PIVOT_LIMIT as int),
            out@.len() == i,
            forall|m: int|
                0 <= m < i ==> (#[trigger] out@[m])@ == blade_transform_v(
                    m,
                    count as int,
                    blade_length.raw as int,
                    axis@,
                ),
    {
        proof {
            assert((i as int) * 65536 <= (count as int) * 65536) by (nonlinear_arith)
                requires
                    0 <= (i as int) <= count as int,
            ;
            lemma_multiply_divide_le((i as int) * 65536, count as int, 65536);
            lemma_div_pos_is_pos((i as int) * 65536, count as int);
        }
        let angle = Fx { raw: (((i as u64) * 65536) / (count as u64)) as i64 };
        let rot = QuatX::from_rotation_z(angle);
        let offset = Vec3x { x: Fx { raw: 0 }, y: half_len, z: Fx { raw: 0 } };
        proof {
            assert(iabs(half_len.raw as int) <= PIVOT_LIMIT as int);
        }
        let arm = rot.rotate(offset);
        proof {
            assert(v3_bounded(offset@, PIVOT_LIMIT as int));
            assert(v3_bounded(arm@, 49 * (PIVOT_LIMIT as int)));
        }
        let tr = Transform3 { translation: axis.plus(arm), rotation: rot };
        out.push(tr);
        proof {
            assert(tr@ == blade_transform_v(
                i as int,
                count as int,
                blade_length.raw as int,
                axis@,
            ));
        }
    }
    out
}

} // verus!
