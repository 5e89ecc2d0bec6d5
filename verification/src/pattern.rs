//! Tiled test-pattern data: rows of a colour palette, each row rotated a
//! few bytes further than the one above it.

use vstd::prelude::*;

verus! {

use vstd::arithmetic::div_mod::{
    lemma_fundamental_div_mod,
    lemma_mod_add_multiples_vanish,
    lemma_mod_multiples_vanish,
};

/// Byte `j` of row `r`: the palette rotated right by `r * step` bytes.
pub open spec fn rotated_byte(pal: Seq<u8>, step: int, r: int, j: int) -> u8 {
    pal[(j - r * step) % (pal.len() as int)]
}

/// Byte `j` of row `r` of a row-major byte buffer with rows of length `l`.
pub open spec fn row_byte(d: Seq<u8>, l: int, r: int, j: int) -> u8 {
    d[r * l + j]
}

/// Lay out `rows` copies of the palette, rotating each row `step` bytes
/// further right than the row above it.
pub fn rotated_rows(palette: &Vec<u8>, rows: usize, step: usize) -> (data: Vec<u8>)
    requires
        1 <= palette@.len() <= 65536,
        rows <= 65536,
        step <= 65536,
    ensures
        data@.len() == (rows as int) * (palette@.len() as int),
        forall|r: int, j: int|
            0 <= r < rows && 0 <= j < palette@.len() ==> #[trigger] row_byte(
                data@,
                palette@.len() as int,
                r,
                j,
            ) == rotated_byte(palette@, step as int, r, j),
{
    let len = palette.len();
    let mut data: Vec<u8> = Vec::new();
    proof {
        assert((0 as int) * (len as int) == 0) by (nonlinear_arith);
    }
    for r in 0..rows
        invariant
            len == palette@.len(),
            1 <= len <= 65536,
            rows <= 65536,
            step <= 65536,
            data@.len() == (r as int) * (len as int),
            (r as int) * (len as int) <= 65536 * 65536,
            forall|m: int, j: int|
                0 <= m < r && 0 <= j < len ==> #[trigger] row_byte(data@, len as int, m, j)
                    == rotated_byte(palette@, step as int, m, j),
    {
        proof {
            assert((r as int) * (len as int) + len as int == ((r as int) + 1) * (len as int)
                && ((r as int) + 1) * (len as int) <= 65536 * 65536
                && (r as int) * (step as int) <= 65536 * 65536) by (nonlinear_arith)
                requires
                    0 <= (r as int) + 1 <= 65536,
                    0 <= len as int <= 65536,
                    0 <= r as int <= 65536,
                    0 <= step as int <= 65536,
            ;
        }
        let off = ((r as u64) * (step as u64) % (len as u64)) as usize;
        proof {
            assert(off as int == ((r as int) * (step as int)) % (len as int));
        }
        for j in 0..len
            invariant
                len == palette@.len(),
                1 <= len <= 65536,
                rows <= 65536,
                step <= 65536,
                r < rows,
                off < len,
                off as int == ((r as int) * (step as int)) % (len as int),
                data@.len() == (r as int) * (len as int) + j as int,
                (r as int) * (len as int) + len as int == ((r as int) + 1) * (len as int),
                ((r as int) + 1) * (len as int) <= 65536 * 65536,
                forall|m: int, jj: int|
                    0 <= m < r && 0 <= jj < len ==> #[trigger] row_byte(data@, len as int, m, jj)
                        == rotated_byte(palette@, step as int, m, jj),
                forall|jj: int|
                    0 <= jj < j ==> #[trigger] row_byte(data@, len as int, r as int, jj)
                        == rotated_byte(palette@, step as int, r as int, jj),
        {
            let idx = (j + len - off) % len;
            let ghost pre = data@;
            data.push(palette[idx]);
            proof {
                let li = len as int;
                let ji = j as int;
                let oi = off as int;
                let rs = (r as int) * (step as int);
                let q = rs / li;
                lemma_fundamental_div_mod(rs, li);
                assert(li * (-q) == -(li * q)) by (nonlinear_arith);
                assert(ji - rs == li * (-q) + (ji - oi));
                lemma_mod_multiples_vanish(-q, ji - oi, li);
                assert((ji - rs) % li == (ji - oi) % li);
                lemma_mod_add_multiples_vanish(ji - oi, li);
                assert((ji - oi + li) % li == (ji - oi) % li);
                assert(idx as int == (ji + li - oi) % li);
                assert(row_byte(data@, li, r as int, ji) == palette@[(ji - rs) % li]);
                assert forall|m: int, jj: int|
                    0 <= m < r as int && 0 <= jj < len implies #[trigger] row_byte(
                    data@,
                    li,
                    m,
                    jj,
                ) == rotated_byte(palette@, step as int, m, jj) by {
                    assert(m * li + jj < (r as int) * li) by (nonlinear_arith)
                        requires
                            0 <= m < r as int,
                            0 <= jj < li,
                            0 < li,
                    ;
                    assert(m * li + jj >= 0) by (nonlinear_arith)
                        requires
                            0 <= m,
                            0 <= jj,
                            0 < li,
                    ;
                    assert(data@[m * li + jj] == pre[m * li + jj]);
                    assert(row_byte(pre, li, m, jj) == rotated_byte(palette@, step as int, m, jj));
                }
                assert forall|jj: int|
                    0 <= jj < j as int + 1 implies #[trigger] row_byte(data@, li, r as int, jj)
                    == rotated_byte(palette@, step as int, r as int, jj) by {
                    if jj < ji {
                        assert(data@[(r as int) * li + jj] == pre[(r as int) * li + jj]);
                        assert(row_byte(pre, li, r as int, jj) == rotated_byte(
                            palette@,
                            step as int,
                            r as int,
                            jj,
                        ));
                    }
                }
            }
        }
    }
    data
}

} // verus!
