//! 16.16 fixed-point scalars: an `i64` raw value standing for `raw / 65536`.
//!
//! Every operation has an exact integer contract: products and quotients
//! round toward zero, and each executable function states its result as a
//! spec-level function of the raw inputs.

use vstd::prelude::*;

verus! {

use vstd::arithmetic::div_mod::lemma_div_is_ordered;

/// Raw steps per unit: a value is `raw / FX_SCALE`.
pub const FX_SCALE: i64 = 65536;

/// Symmetric `i64` range, so that negation of an accepted value never
/// overflows.
pub open spec fn in_sym64(x: int) -> bool {
    -0x7fff_ffff_ffff_ffff <= x <= 0x7fff_ffff_ffff_ffff
}

/// Magnitude of an integer.
pub open spec fn iabs(x: int) -> int {
    if x < 0 {
        -x
    } else {
        x
    }
}

/// Division by the scale, rounding toward zero.
pub open spec fn scale_down(n: int) -> int {
    if n >= 0 {
        n / (FX_SCALE as int)
    } else {
        -((-n) / (FX_SCALE as int))
    }
}

/// Truncating (toward zero) division; meaningful for `d != 0`.
pub open spec fn tdiv(n: int, d: int) -> int {
    if (n >= 0) == (d >= 0) {
        iabs(n) / iabs(d)
    } else {
        -(iabs(n) / iabs(d))
    }
}

/// Raw value of the product of two fixed-point values.
pub open spec fn fx_mul_v(a: int, b: int) -> int {
    scale_down(a * b)
}

/// Raw value of the quotient of two fixed-point values.
pub open spec fn fx_div_v(a: int, b: int) -> int {
    tdiv(a * (FX_SCALE as int), b)
}

/// A 16.16 fixed-point number.
#[derive(Clone, Copy, Debug, PartialEq, Eq, Structural)]
pub struct Fx {
    pub raw: i64,
}

impl View for Fx {
    type V = int;

    open spec fn view(&self) -> int {
        self.raw as int
    }
}

/// Magnitude of an `i64`, as a `u64`.
pub(crate) fn mag(x: i64) -> (m: u64)
    requires
        in_sym64(x as int),
    ensures
        m == iabs(x as int),
{
    if x >= 0 {
        x as u64
    } else {
        (-x) as u64
    }
}

impl Fx {
    pub fn zero() -> (r: Fx)
        ensures
            r.raw == 0,
    {
        Fx { raw: 0 }
    }

    pub fn one() -> (r: Fx)
        ensures
            r.raw == FX_SCALE,
    {
        Fx { raw: 65536 }
    }

    /// The fixed-point value of a whole number of units.
    pub fn from_units(i: i64) -> (r: Fx)
        requires
            in_sym64(i * 65536),
        ensures
            r.raw == i * 65536,
    {
        Fx { raw: i * 65536 }
    }

    pub fn plus(self, o: Fx) -> (r: Fx)
        requires
            in_sym64(self.raw + o.raw),
        ensures
            r.raw == self.raw + o.raw,
    {
        Fx { raw: self.raw + o.raw }
    }

    pub fn minus(self, o: Fx) -> (r: Fx)
        requires
            in_sym64(self.raw - o.raw),
        ensures
            r.raw == self.raw - o.raw,
    {
        Fx { raw: self.raw - o.raw }
    }

    pub fn neg_val(self) -> (r: Fx)
        requires
            in_sym64(self.raw as int),
        ensures
            r.raw == -self.raw,
    {
        Fx { raw: -self.raw }
    }

    pub fn abs_val(self) -> (r: Fx)
        requires
            in_sym64(self.raw as int),
        ensures
            r.raw == iabs(self.raw as int),
    {
        let m = mag(self.raw);
        Fx { raw: m as i64 }
    }

    /// Fixed-point product, rounding toward zero.
    pub fn times(self, o: Fx) -> (r: Fx)
        requires
            in_sym64(self.raw as int),
            in_sym64(o.raw as int),
            in_sym64(fx_mul_v(self.raw as int, o.raw as int)),
        ensures
            r.raw == fx_mul_v(self.raw as int, o.raw as int),
    {
        let a = self.raw;
        let b = o.raw;
        let ma = mag(a);
        let mb = mag(b);
        proof {
            assert((ma as int) * (mb as int) <= 0x7fff_ffff_ffff_ffff as int
                * 0x7fff_ffff_ffff_ffff as int) by (nonlinear_arith)
                requires
                    0 <= ma as int <= 0x7fff_ffff_ffff_ffff,
                    0 <= mb as int <= 0x7fff_ffff_ffff_ffff,
            ;
        }
        let p: u128 = (ma as u128) * (mb as u128);
        let q: u128 = p / 65536;
        proof {
            assert(iabs(a as int) * iabs(b as int) == iabs(a as int * b as int))
                by (nonlinear_arith);
            assert(q == iabs(a as int * b as int) / 65536);
            assert(((a < 0) == (b < 0)) ==> a as int * b as int >= 0) by (nonlinear_arith);
            assert(((a < 0) != (b < 0)) ==> a as int * b as int <= 0) by (nonlinear_arith);
            assert(iabs(scale_down(a as int * b as int)) == iabs(a as int * b as int) / 65536);
            assert(q <= 0x7fff_ffff_ffff_ffff);
        }
        if (a < 0) == (b < 0) {
            Fx { raw: q as i64 }
        } else {
            let qi = q as i64;
            Fx { raw: -qi }
        }
    }

    /// Fixed-point quotient, rounding toward zero.
    pub fn div_by(self, o: Fx) -> (r: Fx)
        requires
            o.raw != 0,
            in_sym64(self.raw as int),
            in_sym64(o.raw as int),
            in_sym64(fx_div_v(self.raw as int, o.raw as int)),
        ensures
            r.raw == fx_div_v(self.raw as int, o.raw as int),
    {
        let a = self.raw;
        let b = o.raw;
        let ma = mag(a);
        let mb = mag(b);
        let n: u128 = (ma as u128) * 65536;
        let q: u128 = n / (mb as u128);
        proof {
            assert(iabs(a as int) * 65536 == iabs(a as int * 65536)) by (nonlinear_arith);
            assert(q == iabs(a as int * 65536) / iabs(b as int));
            assert((a as int * 65536 >= 0) == (a as int >= 0)) by (nonlinear_arith);
            assert(iabs(tdiv(a as int * 65536, b as int)) == iabs(a as int * 65536) / iabs(
                b as int,
            ));
            assert(q <= 0x7fff_ffff_ffff_ffff);
        }
        if (a < 0) == (b < 0) {
            Fx { raw: q as i64 }
        } else {
            let qi = q as i64;
            Fx { raw: -qi }
        }
    }

    /// Half of the value, rounding toward zero.
    pub fn half(self) -> (r: Fx)
        requires
            in_sym64(self.raw as int),
        ensures
            r.raw == tdiv(self.raw as int, 2),
    {
        let m = mag(self.raw);
        let h = m / 2;
        if self.raw >= 0 {
            Fx { raw: h as i64 }
        } else {
            Fx { raw: -(h as i64) }
        }
    }
}

/// Scale `n` to fixed point and divide by `d`, for `|n| <= d`: the result
/// is a fixed-point value of magnitude at most one.
pub fn unit_ratio(n: i64, d: i64) -> (r: i64)
    requires
        0 < d,
        iabs(n as int) <= d as int,
    ensures
        r == tdiv(n as int * 65536, d as int),
        iabs(r as int) <= 65536,
{
    let mn = mag(n);
    let nu: u128 = (mn as u128) * 65536;
    let q: u128 = nu / (d as u128);
    proof {
        assert(iabs(n as int) * 65536 == iabs(n as int * 65536)) by (nonlinear_arith);
        assert(q == iabs(n as int * 65536) / iabs(d as int));
        assert(iabs(n as int) * 65536 <= (d as int) * 65536) by (nonlinear_arith)
            requires
                iabs(n as int) <= d as int,
        ;
        vstd::arithmetic::div_mod::lemma_multiply_divide_le(
            iabs(n as int * 65536),
            d as int,
            65536,
        );
        assert(q <= 65536);
        assert((n as int * 65536 >= 0) == (n as int >= 0)) by (nonlinear_arith);
        assert(iabs(tdiv(n as int * 65536, d as int)) == iabs(n as int * 65536) / iabs(d as int));
    }
    if n >= 0 {
        q as i64
    } else {
        -(q as i64)
    }
}

/// A bound on both factors bounds a fixed-point product.
pub proof fn lemma_fx_mul_bound(a: int, b: int, ba: int, bb: int)
    requires
        iabs(a) <= ba,
        iabs(b) <= bb,
    ensures
        iabs(fx_mul_v(a, b)) <= (ba * bb) / 65536,
{
    assert(iabs(a * b) == iabs(a) * iabs(b)) by (nonlinear_arith);
    assert(iabs(a) * iabs(b) <= ba * bb) by (nonlinear_arith)
        requires
            0 <= iabs(a) <= ba,
            0 <= iabs(b) <= bb,
    ;
    assert(iabs(scale_down(a * b)) == iabs(a * b) / 65536);
    lemma_div_is_ordered(iabs(a * b), ba * bb, 65536);
}

/// Multiplying by one is exact.
pub proof fn lemma_fx_mul_one(a: int)
    ensures
        fx_mul_v(a, FX_SCALE as int) == a,
{
    assert(a * 65536 == 65536 * a) by (nonlinear_arith);
    if a >= 0 {
        assert((a * 65536) / 65536 == a) by (nonlinear_arith);
    } else {
        assert(((-(a * 65536)) / 65536) == -a) by (nonlinear_arith);
    }
}

/// Multiplying by one on the left is exact too.
pub proof fn lemma_fx_mul_one_left(a: int)
    ensures
        fx_mul_v(FX_SCALE as int, a) == a,
{
    assert(65536 * a == a * 65536) by (nonlinear_arith);
    lemma_fx_mul_one(a);
}

/// A product of multiples of the scale divides out exactly.
pub proof fn lemma_div65536_exact(q: int)
    ensures
        (65536 * q) / 65536 == q,
{
    vstd::arithmetic::div_mod::lemma_div_multiples_vanish(q, 65536);
}

/// Multiplying by zero gives zero.
pub proof fn lemma_fx_mul_zero(a: int)
    ensures
        fx_mul_v(a, 0) == 0,
        fx_mul_v(0, a) == 0,
{
    assert(a * 0 == 0) by (nonlinear_arith);
    assert(0 * a == 0) by (nonlinear_arith);
}

/// Integer square root, defined by counting up.
pub open spec fn sqrt_v(n: int) -> int
    decreases n,
{
    if n <= 0 {
        0
    } else {
        let r = sqrt_v(n - 1);
        if (r + 1) * (r + 1) <= n {
            r + 1
        } else {
            r
        }
    }
}

/// `sqrt_v(n)` is the floor of the real square root.
pub proof fn lemma_sqrt_v_bounds(n: int)
    requires
        n >= 0,
    ensures
        sqrt_v(n) >= 0,
        sqrt_v(n) * sqrt_v(n) <= n,
        n < (sqrt_v(n) + 1) * (sqrt_v(n) + 1),
    decreases n,
{
    if n == 0 {
        assert(sqrt_v(0) == 0);
    } else {
        lemma_sqrt_v_bounds(n - 1);
        let r = sqrt_v(n - 1);
        if (r + 1) * (r + 1) <= n {
            assert(n - 1 < (r + 1) * (r + 1));
            assert(n < (r + 2) * (r + 2)) by (nonlinear_arith)
                requires
                    r >= 0,
                    n <= (r + 1) * (r + 1),
            ;
        }
    }
}

/// The integer square root is monotone up to a square bound.
pub proof fn lemma_sqrt_v_le(n: int, b: int)
    requires
        0 <= n,
        0 <= b,
        n <= b * b,
    ensures
        sqrt_v(n) <= b,
{
    lemma_sqrt_v_bounds(n);
    let r = sqrt_v(n);
    if r > b {
        assert(r * r >= (b + 1) * (b + 1) && (b + 1) * (b + 1) > b * b) by (nonlinear_arith)
            requires
                0 <= b,
                b + 1 <= r,
        ;
        assert(false);
    }
}

/// Any integer with the square-root bracketing property is `sqrt_v`.
pub proof fn lemma_sqrt_v_unique(n: int, r: int)
    requires
        n >= 0,
        r >= 0,
        r * r <= n,
        n < (r + 1) * (r + 1),
    ensures
        r == sqrt_v(n),
{
    lemma_sqrt_v_bounds(n);
    let s = sqrt_v(n);
    if r < s {
        assert((r + 1) * (r + 1) <= s * s) by (nonlinear_arith)
            requires
                0 <= r + 1 <= s,
        ;
        assert(false);
    }
    if s < r {
        assert((s + 1) * (s + 1) <= r * r) by (nonlinear_arith)
            requires
                0 <= s + 1 <= r,
        ;
        assert(false);
    }
}

/// Integer square root of a `u128`, by bisection.
pub fn isqrt_u128(n: u128) -> (r: u64)
    ensures
        r == sqrt_v(n as int),
        (r as int) * (r as int) <= n as int,
        (n as int) < ((r as int) + 1) * ((r as int) + 1),
{
    let mut lo: u128 = 0;
    let mut hi: u128 = 0x1_0000_0000_0000_0000;
    proof {
        assert((0x1_0000_0000_0000_0000 as int) * (0x1_0000_0000_0000_0000 as int) > n as int)
            by (nonlinear_arith);
    }
    while lo + 1 < hi
        invariant
            lo < hi <= 0x1_0000_0000_0000_0000,
            (lo as int) * (lo as int) <= n as int,
            (n as int) < (hi as int) * (hi as int),
        decreases hi - lo,
    {
        let mid = lo + (hi - lo) / 2;
        proof {
            assert(mid as int * mid as int <= 0xffff_ffff_ffff_ffff as int
                * 0xffff_ffff_ffff_ffff as int) by (nonlinear_arith)
                requires
                    0 <= mid as int <= 0xffff_ffff_ffff_ffff,
            ;
        }
        let sq = mid * mid;
        if sq <= n {
            lo = mid;
        } else {
            hi = mid;
        }
    }
    proof {
        lemma_sqrt_v_unique(n as int, lo as int);
    }
    lo as u64
}

impl Fx {
    /// Fixed-point square root of a non-negative value, rounding down.
    pub fn sqrt_val(self) -> (r: Fx)
        requires
            0 <= self.raw,
        ensures
            r.raw == sqrt_v(self.raw as int * 65536),
            r.raw >= 0,
    {
        let n: u128 = (self.raw as u128) * 65536;
        let s = isqrt_u128(n);
        proof {
            if s as int >= 0x100_0000_0000 {
                assert(s as int * s as int >= 0x100_0000_0000 as int * 0x100_0000_0000 as int)
                    by (nonlinear_arith)
                    requires
                        s as int >= 0x100_0000_0000,
                ;
                assert(false);
            }
        }
        Fx { raw: s as i64 }
    }
}

} // verus!
