//! Three-component fixed-point vectors and their integer-level model.

use vstd::prelude::*;

verus! {

use crate::fixed::{Fx, fx_mul_v, in_sym64, iabs};

/// Mathematical value of a fixed-point vector: the three raw integers.
pub ghost struct Vec3v {
    pub x: int,
    pub y: int,
    pub z: int,
}

/// A vector of three fixed-point components.
#[derive(Clone, Copy, Debug, PartialEq, Eq, Structural)]
pub struct Vec3x {
    pub x: Fx,
    pub y: Fx,
    pub z: Fx,
}

impl View for Vec3x {
    type V = Vec3v;

    open spec fn view(&self) -> Vec3v {
        Vec3v { x: self.x.raw as int, y: self.y.raw as int, z: self.z.raw as int }
    }
}

pub open spec fn v3(x: int, y: int, z: int) -> Vec3v {
    Vec3v { x, y, z }
}

pub open spec fn v3_add(a: Vec3v, b: Vec3v) -> Vec3v {
    v3(a.x + b.x, a.y + b.y, a.z + b.z)
}

pub open spec fn v3_sub(a: Vec3v, b: Vec3v) -> Vec3v {
    v3(a.x - b.x, a.y - b.y, a.z - b.z)
}

/// Componentwise fixed-point scaling by the raw factor `m`.
pub open spec fn v3_scale(a: Vec3v, m: int) -> Vec3v {
    v3(fx_mul_v(a.x, m), fx_mul_v(a.y, m), fx_mul_v(a.z, m))
}

/// Fixed-point cross product.
pub open spec fn v3_cross(a: Vec3v, b: Vec3v) -> Vec3v {
    v3(
        fx_mul_v(a.y, b.z) - fx_mul_v(a.z, b.y),
        fx_mul_v(a.z, b.x) - fx_mul_v(a.x, b.z),
        fx_mul_v(a.x, b.y) - fx_mul_v(a.y, b.x),
    )
}

/// Sum of squared raw components.
pub open spec fn v3_norm_sq(a: Vec3v) -> int {
    a.x * a.x + a.y * a.y + a.z * a.z
}

/// Every component has magnitude at most `b`.
pub open spec fn v3_bounded(a: Vec3v, b: int) -> bool {
    iabs(a.x) <= b && iabs(a.y) <= b && iabs(a.z) <= b
}

/// All six pairwise fixed-point products of the cross product of `a` and
/// `b` stay in range.
pub open spec fn cross_in_range(a: Vec3v, b: Vec3v) -> bool {
    &&& in_sym64(a.x) && in_sym64(a.y) && in_sym64(a.z)
    &&& in_sym64(b.x) && in_sym64(b.y) && in_sym64(b.z)
    &&& in_sym64(fx_mul_v(a.y, b.z)) && in_sym64(fx_mul_v(a.z, b.y))
    &&& in_sym64(fx_mul_v(a.z, b.x)) && in_sym64(fx_mul_v(a.x, b.z))
    &&& in_sym64(fx_mul_v(a.x, b.y)) && in_sym64(fx_mul_v(a.y, b.x))
    &&& in_sym64(fx_mul_v(a.y, b.z) - fx_mul_v(a.z, b.y))
    &&& in_sym64(fx_mul_v(a.z, b.x) - fx_mul_v(a.x, b.z))
    &&& in_sym64(fx_mul_v(a.x, b.y) - fx_mul_v(a.y, b.x))
}

impl Vec3x {
    pub fn new(x: Fx, y: Fx, z: Fx) -> (r: Vec3x)
        ensures
            r@ == v3(x.raw as int, y.raw as int, z.raw as int),
    {
        Vec3x { x, y, z }
    }

    pub fn zero() -> (r: Vec3x)
        ensures
            r@ == v3(0, 0, 0),
    {
        Vec3x { x: Fx { raw: 0 }, y: Fx { raw: 0 }, z: Fx { raw: 0 } }
    }

    pub fn plus(self, o: Vec3x) -> (r: Vec3x)
        requires
            in_sym64(self@.x + o@.x),
            in_sym64(self@.y + o@.y),
            in_sym64(self@.z + o@.z),
        ensures
            r@ == v3_add(self@, o@),
    {
        Vec3x { x: self.x.plus(o.x), y: self.y.plus(o.y), z: self.z.plus(o.z) }
    }

    pub fn minus(self, o: Vec3x) -> (r: Vec3x)
        requires
            in_sym64(self@.x - o@.x),
            in_sym64(self@.y - o@.y),
            in_sym64(self@.z - o@.z),
        ensures
            r@ == v3_sub(self@, o@),
    {
        Vec3x { x: self.x.minus(o.x), y: self.y.minus(o.y), z: self.z.minus(o.z) }
    }

    /// Scale every component by the fixed-point factor `m`.
    pub fn scaled(self, m: Fx) -> (r: Vec3x)
        requires
            in_sym64(self@.x),
            in_sym64(self@.y),
            in_sym64(self@.z),
            in_sym64(m.raw as int),
            in_sym64(fx_mul_v(self@.x, m.raw as int)),
            in_sym64(fx_mul_v(self@.y, m.raw as int)),
            in_sym64(fx_mul_v(self@.z, m.raw as int)),
        ensures
            r@ == v3_scale(self@, m.raw as int),
    {
        Vec3x { x: self.x.times(m), y: self.y.times(m), z: self.z.times(m) }
    }

    /// Fixed-point cross product.
    pub fn crossed(self, o: Vec3x) -> (r: Vec3x)
        requires
            cross_in_range(self@, o@),
        ensures
            r@ == v3_cross(self@, o@),
    {
        let cx = self.y.times(o.z).minus(self.z.times(o.y));
        let cy = self.z.times(o.x).minus(self.x.times(o.z));
        let cz = self.x.times(o.y).minus(self.y.times(o.x));
        Vec3x { x: cx, y: cy, z: cz }
    }
}

} // verus!
