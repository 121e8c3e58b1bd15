//! The B3/S23 update rule on a row-major binary grid, shared by every engine
//! in the crate: mathematical definitions of neighbor counting and of one
//! generation, and verified executable counterparts for arbitrary dimensions.

use vstd::prelude::*;

verus! {

/// Every cell value is binary: 0 (dead) or 1 (alive).
pub open spec fn cells_binary(g: Seq<u8>) -> bool {
    forall|i: int| 0 <= i < g.len() ==> g[i] == 0 || g[i] == 1
}

/// What cell (r, c) contributes to a neighbor count: its value inside the
/// grid, 0 outside (boundaries clip; there is no wraparound).
pub open spec fn cell_weight(g: Seq<u8>, width: int, height: int, r: int, c: int) -> int {
    if 0 <= r && r < height && 0 <= c && c < width {
        g[r * width + c] as int
    } else {
        0
    }
}

/// Number of live neighbors of (r, c) over the 8-connected Moore
/// neighborhood, clipped at the grid boundary.
pub open spec fn neighbor_count(g: Seq<u8>, width: int, height: int, r: int, c: int) -> int {
    cell_weight(g, width, height, r - 1, c - 1) + cell_weight(g, width, height, r - 1, c)
        + cell_weight(g, width, height, r - 1, c + 1) + cell_weight(g, width, height, r, c - 1)
        + cell_weight(g, width, height, r, c + 1) + cell_weight(g, width, height, r + 1, c - 1)
        + cell_weight(g, width, height, r + 1, c) + cell_weight(g, width, height, r + 1, c + 1)
}

/// The B3/S23 rule: a live cell with 2 or 3 live neighbors survives, a dead
/// cell with exactly 3 live neighbors is born, every other cell is dead.
pub open spec fn next_cell(cur: u8, n: int) -> u8 {
    if (cur == 1 && (n == 2 || n == 3)) || (cur == 0 && n == 3) {
        1
    } else {
        0
    }
}

/// One full generation of a `width` x `height` row-major grid.
pub open spec fn next_gen(g: Seq<u8>, width: int, height: int) -> Seq<u8> {
    Seq::new(
        (width * height) as nat,
        |i: int| next_cell(g[i], neighbor_count(g, width, height, i / width, i % width)),
    )
}

/// Every nonzero input byte is read as a live cell.
pub open spec fn binarize(data: Seq<u8>) -> Seq<u8> {
    Seq::new(data.len(), |i: int| if data[i] == 0 { 0u8 } else { 1u8 })
}

/// Number of live cells of a binary grid.
pub open spec fn live_count(g: Seq<u8>) -> int
    decreases g.len(),
{
    if g.len() == 0 {
        0
    } else {
        live_count(g.drop_last()) + (if g.last() == 1 { 1int } else { 0int })
    }
}

/// A row-major index stays below the cell count.
pub proof fn lemma_row_major_bound(width: int, height: int, r: int, c: int)
    requires
        0 <= r < height,
        0 <= c < width,
    ensures
        0 <= r * width + c < width * height,
{
    assert(0 <= r * width + c < width * height) by (nonlinear_arith)
        requires
            0 <= r < height,
            0 <= c < width,
    {}
}

/// Division and remainder recover the coordinates of a row-major index.
pub proof fn lemma_row_major_coords(width: int, r: int, c: int)
    requires
        width > 0,
        0 <= r,
        0 <= c < width,
    ensures
        (r * width + c) / width == r,
        (r * width + c) % width == c,
{
    assert((r * width + c) / width == r && (r * width + c) % width == c) by (nonlinear_arith)
        requires
            width > 0,
            0 <= r,
            0 <= c < width,
    {}
}

/// A generation of a binary grid is again binary, with the same cell count.
pub proof fn lemma_next_gen_wf(g: Seq<u8>, width: int, height: int)
    requires
        width >= 0,
        height >= 0,
    ensures
        next_gen(g, width, height).len() == width * height,
        cells_binary(next_gen(g, width, height)),
{
    assert(width * height >= 0) by (nonlinear_arith)
        requires
            width >= 0,
            height >= 0,
    {}
    assert forall|i: int| 0 <= i < next_gen(g, width, height).len() implies next_gen(
        g,
        width,
        height,
    )[i] == 0 || next_gen(g, width, height)[i] == 1 by {
        assert(next_gen(g, width, height)[i] == next_cell(
            g[i],
            neighbor_count(g, width, height, i / width, i % width),
        ));
    }
}

/// Live neighbors of (row, col), counted exactly as `neighbor_count` says.
#[verifier::loop_isolation(false)]
pub fn neighbor_total(g: &[u8], width: usize, height: usize, row: usize, col: usize) -> (n: u8)
    requires
        g@.len() == width * height,
        cells_binary(g@),
        row < height,
        col < width,
    ensures
        n as int == neighbor_count(g@, width as int, height as int, row as int, col as int),
{
    let cells = g.len();
    let mut n: u8 = 0;
    if row > 0 {
        if col > 0 {
            proof {
                lemma_row_major_bound(width as int, height as int, row - 1, col - 1);
            }
            n = n + g[(row - 1) * width + (col - 1)];
        }
        proof {
            lemma_row_major_bound(width as int, height as int, row - 1, col as int);
        }
        n = n + g[(row - 1) * width + col];
        if col + 1 < width {
            proof {
                lemma_row_major_bound(width as int, height as int, row - 1, col + 1);
            }
            n = n + g[(row - 1) * width + (col + 1)];
        }
    }
    if col > 0 {
        proof {
            lemma_row_major_bound(width as int, height as int, row as int, col - 1);
        }
        n = n + g[row * width + (col - 1)];
    }
    if col + 1 < width {
        proof {
            lemma_row_major_bound(width as int, height as int, row as int, col + 1);
        }
        n = n + g[row * width + (col + 1)];
    }
    if row + 1 < height {
        if col > 0 {
            proof {
                lemma_row_major_bound(width as int, height as int, row + 1, col - 1);
            }
            n = n + g[(row + 1) * width + (col - 1)];
        }
        proof {
            lemma_row_major_bound(width as int, height as int, row + 1, col as int);
        }
        n = n + g[(row + 1) * width + col];
        if col + 1 < width {
            proof {
                lemma_row_major_bound(width as int, height as int, row + 1, col + 1);
            }
            n = n + g[(row + 1) * width + (col + 1)];
        }
    }
    n
}

/// Computes one generation into a freshly allocated buffer, disjoint from the
/// grid being read, row by row.
#[verifier::loop_isolation(false)]
pub fn next_generation(g: &[u8], width: usize, height: usize) -> (next: Vec<u8>)
    requires
        g@.len() == width * height,
        cells_binary(g@),
    ensures
        next@ == next_gen(g@, width as int, height as int),
{
    let cells = g.len();
    let mut next: Vec<u8> = Vec::new();
    let ghost target = next_gen(g@, width as int, height as int);
    let mut row: usize = 0;
    while row < height
        invariant
            next@.len() == row * width,
            row <= height,
            forall|k: int| 0 <= k < next@.len() ==> next@[k] == target[k],
        decreases height - row,
    {
        let mut col: usize = 0;
        while col < width
            invariant
                next@.len() == row * width + col,
                row < height,
                col <= width,
                forall|k: int| 0 <= k < next@.len() ==> next@[k] == target[k],
            decreases width - col,
        {
            proof {
                lemma_row_major_bound(width as int, height as int, row as int, col as int);
                lemma_row_major_coords(width as int, row as int, col as int);
            }
            let idx = row * width + col;
            let n = neighbor_total(g, width, height, row, col);
            let value: u8 = if (g[idx] == 1 && (n == 2 || n == 3)) || (g[idx] == 0 && n == 3) {
                1
            } else {
                0
            };
            next.push(value);
            col = col + 1;
        }
        proof {
            assert((row + 1) * width == row * width + width) by (nonlinear_arith);
        }
        row = row + 1;
    }
    proof {
        assert(height * width == width * height) by (nonlinear_arith);
        assert(next@ =~= target);
    }
    next
}

/// Copies the buffer, reading every nonzero byte as a live cell.
#[verifier::loop_isolation(false)]
pub fn binarize_cells(data: &[u8]) -> (out: Vec<u8>)
    ensures
        out@ == binarize(data@),
{
    let mut out: Vec<u8> = Vec::new();
    let len = data.len();
    let mut i: usize = 0;
    while i < len
        invariant
            i <= len,
            len == data@.len(),
            out@.len() == i,
            forall|k: int| 0 <= k < i ==> out@[k] == binarize(data@)[k],
        decreases len - i,
    {
        out.push(if data[i] == 0 { 0u8 } else { 1u8 });
        i = i + 1;
    }
    proof {
        assert(out@ =~= binarize(data@));
    }
    out
}

/// Counts the live cells of a binary grid.
#[verifier::loop_isolation(false)]
pub fn count_live(g: &[u8]) -> (n: usize)
    requires
        cells_binary(g@),
    ensures
        n as int == live_count(g@),
{
    let len = g.len();
    let mut n: usize = 0;
    let mut i: usize = 0;
    while i < len
        invariant
            i <= len,
            len == g@.len(),
            n as int == live_count(g@.take(i as int)),
            n <= i,
        decreases len - i,
    {
        proof {
            assert(g@.take(i + 1).drop_last() =~= g@.take(i as int));
            assert(g@.take(i + 1).last() == g@[i as int]);
        }
        if g[i] == 1 {
            n = n + 1;
        }
        i = i + 1;
    }
    proof {
        assert(g@.take(len as int) =~= g@);
    }
    n
}

/// If `w` exceeds `m / h`, then `w * h` exceeds `m`.
pub proof fn lemma_product_exceeds(w: int, h: int, m: int)
    requires
        h > 0,
        m >= 0,
        w > m / h,
    ensures
        w * h > m,
{
    vstd::arithmetic::div_mod::lemma_fundamental_div_mod(m, h);
    let q = m / h;
    let r = m % h;
    assert(w * h > q * h + r) by (nonlinear_arith)
        requires
            w > q,
            h > 0,
            0 <= r < h,
    {}
}

/// If `w` is at most `m / h`, then `w * h` is at most `m`.
pub proof fn lemma_product_fits(w: int, h: int, m: int)
    requires
        h > 0,
        m >= 0,
        0 <= w <= m / h,
    ensures
        w * h <= m,
{
    vstd::arithmetic::div_mod::lemma_fundamental_div_mod(m, h);
    let q = m / h;
    let r = m % h;
    assert(w * h <= q * h) by (nonlinear_arith)
        requires
            0 <= w <= q,
            h > 0,
    {}
}

} // verus!


