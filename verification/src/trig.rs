//! Fixed-point sine and cosine over angles measured in turns.
//!
//! An angle of one turn is `FX_SCALE` raw steps, so quarter turns land on
//! exact raw values.  Inside a half turn the sine is a fixed rational
//! approximation; its contract pins the exact integer formula, its range,
//! and the exact values at every quarter turn.

use vstd::prelude::*;

verus! {

use crate::fixed::{Fx, in_sym64};
use vstd::arithmetic::div_mod::{
    lemma_div_is_ordered,
    lemma_div_pos_is_pos,
    lemma_multiply_divide_le,
    lemma_multiply_divide_lt,
    lemma_fundamental_div_mod,
    lemma_fundamental_div_mod_converse_mod,
    lemma_fundamental_div_mod_converse_div,
};

/// Raw steps in a quarter turn.
pub const QUARTER_TURN: i64 = 16384;

/// Raw steps in a half turn.
pub const HALF_TURN: i64 = 32768;

/// Raw steps in a full turn.
pub const FULL_TURN: i64 = 65536;

/// Sine over the first half turn: `x` runs from `0` (angle 0) to `65536`
/// (a half turn), and the result is the raw sine in `[0, 65536]`.
pub open spec fn bhk(x: int) -> int {
    let p = (x * (65536 - x)) / 65536;
    (16 * p * 65536) / (5 * 65536 - 4 * p)
}

/// Raw sine of a reduced angle `u` in `[0, 65536)` raw turn steps.
pub open spec fn sin_units(u: int) -> int {
    if u < 32768 {
        bhk(2 * u)
    } else {
        -bhk(2 * (u - 32768))
    }
}

/// Raw sine of an angle of `t` raw turn steps.
pub open spec fn sin_v(t: int) -> int {
    sin_units(t % 65536)
}

/// Raw cosine of an angle of `t` raw turn steps.
pub open spec fn cos_v(t: int) -> int {
    sin_v(t + 16384)
}

/// `bhk` stays within `[0, 65536]` and peaks exactly at the quarter turn.
pub proof fn lemma_bhk_range(x: int)
    requires
        0 <= x <= 65536,
    ensures
        0 <= bhk(x) <= 65536,
        (bhk(x) == 65536) <==> (x == 32768),
        0 <= (x * (65536 - x)) / 65536 <= 16384,
{
    let pn = x * (65536 - x);
    assert(0 <= x * (65536 - x) <= 0x4000_0000) by (nonlinear_arith)
        requires
            0 <= x <= 65536,
    ;
    let p = pn / 65536;
    lemma_div_pos_is_pos(pn, 65536);
    lemma_div_is_ordered(pn, 0x4000_0000, 65536);
    assert(p <= 16384);
    let num = 16 * p * 65536;
    let den = 5 * 65536 - 4 * p;
    assert(den >= 262144);
    lemma_div_pos_is_pos(num, den);
    assert(num <= den * 65536);
    lemma_multiply_divide_le(num, den, 65536);
    if x == 32768 {
        assert(x * (65536 - x) == 0x4000_0000) by (nonlinear_arith)
            requires
                x == 32768,
        ;
        assert(p == 16384);
        assert(num == 17179869184);
        assert(den == 262144);
        lemma_fundamental_div_mod_converse_div(num, den, 65536, 0);
        assert(num / den == 65536);
        assert(bhk(x) == num / den);
    } else {
        assert(x * (65536 - x) <= 0x3fff_ffff) by (nonlinear_arith)
            requires
                0 <= x <= 65536,
                x != 32768,
        ;
        lemma_div_is_ordered(pn, 0x3fff_ffff, 65536);
        assert(p <= 16383);
        assert(num < den * 65536);
        lemma_multiply_divide_lt(num, den, 65536);
        assert(bhk(x) < 65536);
    }
}

/// Exact sine and cosine at every quarter turn.
pub proof fn lemma_quarter_points()
    ensures
        sin_v(0) == 0,
        sin_v(16384) == 65536,
        sin_v(32768) == 0,
        sin_v(49152) == -65536,
        sin_v(65536) == 0,
        cos_v(0) == 65536,
        cos_v(16384) == 0,
        cos_v(32768) == -65536,
        cos_v(49152) == 0,
        cos_v(65536) == 65536,
{
    lemma_bhk_range(0);
    lemma_bhk_range(32768);
    assert(bhk(32768) == 65536);
    assert(bhk(0) == 0) by {
        assert((0 * (65536 - 0)) / 65536 == 0);
        assert((16int * 0 * 65536) / (5 * 65536 - 4 * 0) == 0);
    }
    assert(0int % 65536 == 0);
    assert(16384int % 65536 == 16384);
    assert(32768int % 65536 == 32768);
    assert(49152int % 65536 == 49152);
    assert(65536int % 65536 == 0);
    assert(81920int % 65536 == 16384);
}

/// Executable sine over the first half turn.
fn bh(x: i64) -> (r: i64)
    requires
        0 <= x <= 65536,
    ensures
        r == bhk(x as int),
        0 <= r <= 65536,
{
    proof {
        lemma_bhk_range(x as int);
    }
    let xu = x as u64;
    proof {
        assert((xu as int) * (65536 - xu as int) <= 65536 * 65536) by (nonlinear_arith)
            requires
                0 <= xu as int <= 65536,
        ;
    }
    let p = (xu * (65536 - xu)) / 65536;
    let num = 16 * p * 65536;
    let den = 5 * 65536 - 4 * p;
    let r = num / den;
    r as i64
}

/// Reduce an angle to `[0, 65536)` raw steps; equal to the Euclidean
/// remainder of the raw angle by a full turn.
fn reduce_turn(raw: i64) -> (u: i64)
    requires
        in_sym64(raw as int),
    ensures
        u == (raw as int) % 65536,
        0 <= u < 65536,
{
    if raw >= 0 {
        let m = (raw as u64) % 65536;
        m as i64
    } else {
        let m = ((-raw) as u64) % 65536;
        proof {
            let a = raw as int;
            let k = (-a) / 65536;
            lemma_fundamental_div_mod(-a, 65536);
            if m == 0 {
                assert(a == (-k) * 65536 + 0) by (nonlinear_arith)
                    requires
                        -a == k * 65536 + 0,
                ;
                lemma_fundamental_div_mod_converse_mod(a, 65536, -k, 0);
            } else {
                assert(a == (-k - 1) * 65536 + (65536 - m)) by (nonlinear_arith)
                    requires
                        -a == k * 65536 + m as int,
                ;
                lemma_fundamental_div_mod_converse_mod(a, 65536, -k - 1, 65536 - m as int);
            }
        }
        if m == 0 {
            0
        } else {
            65536 - (m as i64)
        }
    }
}

/// Sine of an angle in turns.
pub fn sin_turns(t: Fx) -> (r: Fx)
    requires
        in_sym64(t.raw as int),
    ensures
        r.raw == sin_v(t.raw as int),
        -65536 <= r.raw <= 65536,
{
    let u = reduce_turn(t.raw);
    if u < 32768 {
        let s = bh(2 * u);
        Fx { raw: s }
    } else {
        let s = bh(2 * (u - 32768));
        Fx { raw: -s }
    }
}

/// Cosine of an angle in turns.
pub fn cos_turns(t: Fx) -> (r: Fx)
    requires
        in_sym64(t.raw as int),
        in_sym64(t.raw + 16384),
    ensures
        r.raw == cos_v(t.raw as int),
        -65536 <= r.raw <= 65536,
{
    sin_turns(Fx { raw: t.raw + 16384 })
}

} // verus!
