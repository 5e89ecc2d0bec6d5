//! Triangulation of a row-major vertex grid.
//!
//! A grid of `rows x cols` vertices has `(rows-1) x (cols-1)` quads; each
//! quad is split along one fixed diagonal into two triangles, so the index
//! buffer holds six entries per quad.

use vstd::prelude::*;

verus! {

use vstd::arithmetic::div_mod::{
    lemma_fundamental_div_mod_converse_div,
    lemma_fundamental_div_mod_converse_mod,
};

/// Vertex index of the top-left corner of quad `q`, with quads numbered
/// row-major over the interior cells of a `cols`-wide grid.
pub open spec fn quad_corner(q: int, cols: int) -> int {
    (q / (cols - 1)) * cols + q % (cols - 1)
}

/// Entry `j` of the six vertex indices of quad `q`: first the triangle
/// `{top-left, top-right, bottom-left}`, then `{top-right, bottom-right,
/// bottom-left}`.
pub open spec fn quad_tri_index(q: int, cols: int, j: int) -> int {
    let i = quad_corner(q, cols);
    if j == 0 {
        i
    } else if j == 1 {
        i + 1
    } else if j == 2 {
        i + cols
    } else if j == 3 {
        i + 1
    } else if j == 4 {
        i + cols + 1
    } else {
        i + cols
    }
}

/// Entry `6*q + j` of an index buffer, as an integer.
pub open spec fn tri_at(s: Seq<u32>, q: int, j: int) -> int {
    s[6 * q + j] as int
}

/// Build the triangle indices of a `rows x cols` vertex grid.
pub fn grid_indices(rows: usize, cols: usize) -> (idx: Vec<u32>)
    requires
        2 <= rows <= 16384,
        2 <= cols <= 16384,
    ensures
        idx@.len() == 6 * (((rows - 1) as int) * ((cols - 1) as int)),
        forall|q: int, j: int|
            0 <= q < ((rows - 1) as int) * ((cols - 1) as int) && 0 <= j < 6 ==> #[trigger] tri_at(
                idx@,
                q,
                j,
            ) == quad_tri_index(q, cols as int, j),
        forall|k: int|
            0 <= k < idx@.len() ==> ((#[trigger] idx@[k]) as int) < (rows as int) * (cols as int),
{
    let mut idx: Vec<u32> = Vec::new();
    let rq = rows - 1;
    let cq = cols - 1;
    for r in 0..rq
        invariant
            rq == rows - 1,
            cq == cols - 1,
            2 <= rows <= 16384,
            2 <= cols <= 16384,
            idx@.len() == 6 * ((r as int) * (cq as int)),
            forall|q: int, j: int|
                0 <= q < (r as int) * (cq as int) && 0 <= j < 6 ==> #[trigger] tri_at(idx@, q, j)
                    == quad_tri_index(q, cols as int, j),
            forall|k: int|
                0 <= k < idx@.len() ==> ((#[trigger] idx@[k]) as int) < (rows as int) * (cols as int),
    {
        proof {
            assert((r as int) * (cq as int) + cq as int == ((r as int) + 1) * (cq as int))
                by (nonlinear_arith);
            assert(((r as int) + 1) * (cq as int) <= 16384 * 16384) by (nonlinear_arith)
                requires
                    0 <= (r as int) + 1 <= 16384,
                    0 <= cq as int <= 16384,
            ;
        }
        for c in 0..cq
            invariant
                rq == rows - 1,
                cq == cols - 1,
                2 <= rows <= 16384,
                2 <= cols <= 16384,
                r < rq,
                idx@.len() == 6 * ((r as int) * (cq as int) + c as int),
                (r as int) * (cq as int) + cq as int == ((r as int) + 1) * (cq as int),
                (r as int) * (cq as int) + cq as int <= 16384 * 16384,
                forall|q: int, j: int|
                    0 <= q < (r as int) * (cq as int) + c as int && 0 <= j < 6
                        ==> #[trigger] tri_at(idx@, q, j) == quad_tri_index(q, cols as int, j),
                forall|k: int|
                    0 <= k < idx@.len() ==> ((#[trigger] idx@[k]) as int) < (rows as int) * (
                    cols as int),
        {
            proof {
                assert((r as int) * (cols as int) + c <= (rows as int) * (cols as int) - cols
                    - 2) by (nonlinear_arith)
                    requires
                        0 <= r as int <= (rows as int) - 2,
                        0 <= c < (cols as int) - 1,
                        2 <= rows,
                        2 <= cols <= 16384,
                ;
                assert((rows as int) * (cols as int) <= 16384 * 16384) by (nonlinear_arith)
                    requires
                        0 <= rows as int <= 16384,
                        0 <= cols as int <= 16384,
                ;
            }
            let i = r * cols + c;
            let ghost pre = idx@;
            let ghost q0 = (r as int) * (cq as int) + c as int;
            idx.push(i as u32);
            idx.push((i + 1) as u32);
            idx.push((i + cols) as u32);
            idx.push((i + 1) as u32);
            idx.push((i + cols + 1) as u32);
            idx.push((i + cols) as u32);
            proof {
                lemma_fundamental_div_mod_converse_div(q0, cq as int, r as int, c as int);
                lemma_fundamental_div_mod_converse_mod(q0, cq as int, r as int, c as int);
                assert(quad_corner(q0, cols as int) == i as int);
                assert forall|q: int, j: int|
                    0 <= q < q0 + 1 && 0 <= j < 6 implies #[trigger] tri_at(idx@, q, j)
                    == quad_tri_index(q, cols as int, j) by {
                    if q < q0 {
                        assert(6 * q + j < pre.len());
                        assert(idx@[6 * q + j] == pre[6 * q + j]);
                        assert(tri_at(pre, q, j) == quad_tri_index(q, cols as int, j));
                    } else {
                        assert(6 * q + j == pre.len() + j);
                    }
                }
            }
        }
    }
    idx
}

} // verus!
