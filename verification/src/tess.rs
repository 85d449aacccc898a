//! Index-buffer generation for meshes built from track samples: the
//! triangulated road surface, the center-line polyline, and the
//! double-sided duplication pass.

use vstd::prelude::*;

verus! {

use vstd::arithmetic::div_mod::lemma_fundamental_div_mod_converse;

/// Number of quads in the road surface built from `rows` sample rows of
/// `cols` vertices each: one quad per adjacent row pair and lane pair.
pub open spec fn quad_count(rows: int, cols: int) -> int {
    if rows >= 1 && cols >= 1 {
        (rows - 1) * (cols - 1)
    } else {
        0
    }
}

/// Element `k` of the road-surface index buffer over rows of `cols`
/// vertices: quad `k / 6` sits at grid cell
/// `(quad / (cols - 1), quad % (cols - 1))`, and `k % 6` picks one corner
/// of its two triangles.
pub open spec fn path_index_at(cols: int, k: int) -> int {
    let quad = k / 6;
    let row = quad / (cols - 1);
    let col = quad % (cols - 1);
    let base = row * cols + col;
    let j = k % 6;
    if j == 0 {
        base
    } else if j == 1 {
        base + 1
    } else if j == 2 {
        base + cols
    } else if j == 3 {
        base + cols + 1
    } else if j == 4 {
        base + cols
    } else {
        base + 1
    }
}

/// Triangulated index buffer connecting `rows` rows of `cols` vertices
/// each: two triangles per quad, in row-major quad order. Fewer than two
/// rows or two columns yield no quads and hence an empty buffer. Every
/// index is below the vertex count `rows * cols`.
pub fn tess_path_indices(rows: usize, cols: usize) -> (r: Vec<u16>)
    requires
        rows * cols <= 0x10000,
    ensures
        r@.len() == 6 * quad_count(rows as int, cols as int),
        r@.len() % 3 == 0,
        forall|k: int| 0 <= k < r@.len() ==> (#[trigger] r@[k]) as int == path_index_at(cols as int, k),
        forall|k: int| 0 <= k < r@.len() ==> ((#[trigger] r@[k]) as int) < rows * cols,
{
    let mut r: Vec<u16> = Vec::new();
    if rows < 2 || cols < 2 {
        proof {
            assert(rows >= 1 && cols >= 1 ==> (rows - 1) * (cols as int - 1) == 0)
                by (nonlinear_arith)
                requires
                    rows < 2 || cols < 2;
        }
        return r;
    }
    let qrows = rows - 1;
    let qcols = cols - 1;
    let mut row: usize = 0;
    while row < qrows
        invariant
            2 <= rows,
            2 <= cols,
            qrows == rows - 1,
            qcols == cols - 1,
            rows * cols <= 0x10000,
            row <= qrows,
            r@.len() == 6 * (row as int * qcols as int),
            forall|k: int| 0 <= k < r@.len() ==> (#[trigger] r@[k]) as int == path_index_at(cols as int, k),
            forall|k: int| 0 <= k < r@.len() ==> ((#[trigger] r@[k]) as int) < rows * cols,
        decreases qrows - row,
    {
        let mut col: usize = 0;
        while col < qcols
            invariant
                2 <= rows,
                2 <= cols,
                qrows == rows - 1,
                qcols == cols - 1,
                rows * cols <= 0x10000,
                row < qrows,
                col <= qcols,
                r@.len() == 6 * (row as int * qcols as int + col as int),
                forall|k: int| 0 <= k < r@.len() ==> (#[trigger] r@[k]) as int == path_index_at(cols as int, k),
                forall|k: int| 0 <= k < r@.len() ==> ((#[trigger] r@[k]) as int) < rows * cols,
            decreases qcols - col,
        {
            proof {
                assert(row * cols + col + cols + 1 < rows * cols) by (nonlinear_arith)
                    requires
                        0 <= row,
                        0 <= col,
                        row <= rows - 2,
                        col <= cols - 2,
                        2 <= cols;
            }
            let base = row * cols + col;
            let ghost len0 = r@.len() as int;
            let ghost q = row as int * qcols as int + col as int;
            r.push(base as u16);
            r.push((base + 1) as u16);
            r.push((base + cols) as u16);
            r.push((base + cols + 1) as u16);
            r.push((base + cols) as u16);
            r.push((base + 1) as u16);
            proof {
                assert forall|k: int| 0 <= k < r@.len() implies r@[k] as int == path_index_at(
                    cols as int,
                    k,
                ) by {
                    if k >= len0 {
                        let j = k - len0;
                        lemma_fundamental_div_mod_converse(k, 6, q, j);
                        lemma_fundamental_div_mod_converse(q, qcols as int, row as int, col as int);
                    }
                }
            }
            col = col + 1;
        }
        proof {
            assert((row as int + 1) * qcols as int == row as int * qcols as int + qcols as int)
                by (nonlinear_arith);
        }
        row = row + 1;
    }
    r
}

/// Index buffer connecting `count` polyline vertices point to point: the
/// sequence `0, 1, 1, 2, 2, 3, ...`, pairing each vertex with the next.
/// Every index is below `count`.
pub fn center_line_indices(count: usize) -> (r: Vec<u16>)
    requires
        count < 0x8000,
    ensures
        r@.len() == if count == 0 {
            0int
        } else {
            2 * count - 1
        },
        forall|j: int| 0 <= j < r@.len() ==> (#[trigger] r@[j]) as int == (j + 1) / 2,
        forall|j: int| 0 <= j < r@.len() ==> ((#[trigger] r@[j]) as int) < count,
{
    let mut r: Vec<u16> = Vec::new();
    if count == 0 {
        return r;
    }
    let mut i: usize = 1;
    while i < 2 * count
        invariant
            count < 0x8000,
            1 <= i <= 2 * count,
            r@.len() == i - 1,
            forall|j: int| 0 <= j < r@.len() ==> (#[trigger] r@[j]) as int == (j + 1) / 2,
            forall|j: int| 0 <= j < r@.len() ==> ((#[trigger] r@[j]) as int) < count,
        decreases 2 * count - i,
    {
        r.push((i / 2) as u16);
        i = i + 1;
    }
    r
}

/// The triangles of `s`, each with its winding reversed: element `k` is the
/// element of `s` at the mirrored position within its own triangle.
pub open spec fn reversed_tris(s: Seq<u16>) -> Seq<u16> {
    Seq::new(s.len(), |k: int| s[3 * (k / 3) + (2 - k % 3)])
}

/// Appends every triangle of `indices` again with reversed winding, so a
/// surface drawn from the buffer renders from both faces.
pub fn double_side(indices: &mut Vec<u16>)
    requires
        old(indices)@.len() % 3 == 0,
    ensures
        final(indices)@ == old(indices)@ + reversed_tris(old(indices)@),
{
    let n = indices.len();
    let mut i: usize = 0;
    while i < n
        invariant
            i <= n,
            i % 3 == 0,
            n % 3 == 0,
            n == old(indices)@.len(),
            indices@ == old(indices)@ + reversed_tris(old(indices)@).take(i as int),
        decreases n - i,
    {
        let a = indices[i + 2];
        let b = indices[i + 1];
        let c = indices[i];
        indices.push(a);
        indices.push(b);
        indices.push(c);
        proof {
            let s = old(indices)@;
            assert(reversed_tris(s)[i as int] == s[i + 2]);
            assert(reversed_tris(s)[i + 1] == s[i + 1]);
            assert(reversed_tris(s)[i + 2] == s[i as int]);
            assert(indices@ =~= s + reversed_tris(s).take(i + 3));
        }
        i = i + 3;
    }
    proof {
        assert(indices@ =~= old(indices)@ + reversed_tris(old(indices)@));
    }
}

/// Law: the double-sided pass keeps a triangle buffer valid. If every index
/// of the buffer is below some vertex count, then every index of the buffer
/// with its reversed triangles appended — what `double_side` leaves behind —
/// is below that count too.
pub proof fn lemma_double_side_keeps_bound(s: Seq<u16>, vcount: int)
    requires
        s.len() % 3 == 0,
        forall|k: int| 0 <= k < s.len() ==> ((#[trigger] s[k]) as int) < vcount,
    ensures
        forall|k: int|
            0 <= k < (s + reversed_tris(s)).len() ==> (((s + reversed_tris(s))[k]) as int) < vcount,
{
    assert forall|k: int| 0 <= k < (s + reversed_tris(s)).len() implies (((s + reversed_tris(
        s,
    ))[k]) as int) < vcount by {
        if k >= s.len() {
            let m = k - s.len();
            assert(0 <= 3 * (m / 3) + (2 - m % 3) < s.len());
        }
    }
}

} // verus!
