use vstd::prelude::*;
use crate::geometry::{axis_of, Axis, CardinalDirection};
use crate::grid::{slice_at, slice_content, Grid, TiledGridSlice};

verus! {

/// Cell `(i, j)` of an `n` by `n` tile stored row by row.
pub open spec fn tile_at(t: Seq<u32>, n: int, i: int, j: int) -> u32 {
    t[j * n + i]
}

/// Where the overlap starts in the first and in the second tile when the
/// second sits next to the first in direction `d`.
pub open spec fn overlap_offsets(d: CardinalDirection) -> ((int, int), (int, int)) {
    match d {
        CardinalDirection::North => ((0, 0), (0, 1)),
        CardinalDirection::South => ((0, 1), (0, 0)),
        CardinalDirection::East => ((1, 0), (0, 0)),
        CardinalDirection::West => ((0, 0), (1, 0)),
    }
}

/// `(i, j)` lies in the overlap of two `n` by `n` tiles placed side by side
/// along the axis of `d`: one shorter than the tile along that axis.
pub open spec fn in_overlap(n: int, d: CardinalDirection, i: int, j: int) -> bool {
    match axis_of(d) {
        Axis::X => 0 <= i < n - 1 && 0 <= j < n,
        Axis::Y => 0 <= i < n && 0 <= j < n - 1,
    }
}

/// Tile `b` may sit next to tile `a` in direction `d`: tiles one cell long
/// do not overlap, otherwise every overlapping sample agrees.
pub open spec fn tiles_compatible(a: Seq<u32>, b: Seq<u32>, n: int, d: CardinalDirection) -> bool {
    n == 1 || forall|i: int, j: int| in_overlap(n, d, i, j) ==> #[trigger] overlap_agrees(a, b, n, d, i, j)
}

/// Overlap cell `(i, j)` holds the same sample in both tiles.
pub open spec fn overlap_agrees(a: Seq<u32>, b: Seq<u32>, n: int, d: CardinalDirection, i: int, j: int) -> bool {
    let ao = overlap_offsets(d).0;
    let bo = overlap_offsets(d).1;
    tile_at(a, n, i + ao.0, j + ao.1) == tile_at(b, n, i + bo.0, j + bo.1)
}

pub proof fn lemma_content_at(g: Grid, v: TiledGridSlice, i: int, j: int)
    requires
        0 <= i < v.size,
        0 <= j < v.size,
    ensures
        0 <= j * v.size + i < slice_content(g, v).len(),
        tile_at(slice_content(g, v), v.size as int, i, j) == slice_at(g, v, i, j),
{
    let n = v.size as int;
    let k = j * n + i;
    assert(k % n == i && k / n == j && 0 <= k < n * n) by (nonlinear_arith)
        requires k == j * n + i, 0 <= i < n, 0 <= j < n;
}

/// Whether the pattern seen through `b` may sit next to the pattern seen
/// through `a`, in direction `b_offset_direction` from it.
pub fn are_patterns_compatible(
    grid: &Grid,
    a: &TiledGridSlice,
    b: &TiledGridSlice,
    b_offset_direction: CardinalDirection,
) -> (r: bool)
    requires
        grid.wf(),
        a.size == b.size,
    ensures
        r == tiles_compatible(
            slice_content(*grid, *a),
            slice_content(*grid, *b),
            a.size as int,
            b_offset_direction,
        ),
{
    let n = a.size;
    let ghost ca = slice_content(*grid, *a);
    let ghost cb = slice_content(*grid, *b);
    let ghost d = b_offset_direction;
    if n <= 1 {
        // tiles one cell long, or empty ones, do not overlap
        assert forall|i: int, jj: int| in_overlap(n as int, d, i, jj) implies overlap_agrees(ca, cb, n as int, d, i, jj) by {}
        return true;
    }
    let (cols, rows) = match b_offset_direction.axis() {
        Axis::X => (n - 1, n),
        Axis::Y => (n, n - 1),
    };
    let (ax, ay, bx, by) = match b_offset_direction {
        CardinalDirection::North => (0u32, 0u32, 0u32, 1u32),
        CardinalDirection::South => (0, 1, 0, 0),
        CardinalDirection::East => (1, 0, 0, 0),
        CardinalDirection::West => (0, 0, 1, 0),
    };
    let ghost ao = overlap_offsets(d).0;
    let ghost bo = overlap_offsets(d).1;
    assert(ao == (ax as int, ay as int) && bo == (bx as int, by as int));
    let mut j: u32 = 0;
    while j < rows
        invariant
            grid.wf(),
            n == a.size && n == b.size && n > 1,
            ca == slice_content(*grid, *a),
            cb == slice_content(*grid, *b),
            forall|i: int, jj: int| #[trigger] in_overlap(n as int, d, i, jj) <==> (0 <= i < cols && 0 <= jj < rows),
            ao == (ax as int, ay as int) && bo == (bx as int, by as int),
            ao == overlap_offsets(d).0 && bo == overlap_offsets(d).1 && d == b_offset_direction,
            cols + ax <= n && cols + bx <= n && rows + ay <= n && rows + by <= n,
            j <= rows,
            forall|i: int, jj: int|
                #![trigger overlap_agrees(ca, cb, n as int, d, i, jj)]
                0 <= i < cols && 0 <= jj < j ==> overlap_agrees(ca, cb, n as int, d, i, jj),
        decreases rows - j,
    {
        let mut i: u32 = 0;
        while i < cols
            invariant
                grid.wf(),
                n == a.size && n == b.size && n > 1,
                ca == slice_content(*grid, *a),
                cb == slice_content(*grid, *b),
                forall|i: int, jj: int| #[trigger] in_overlap(n as int, d, i, jj) <==> (0 <= i < cols && 0 <= jj < rows),
                ao == (ax as int, ay as int) && bo == (bx as int, by as int),
                ao == overlap_offsets(d).0 && bo == overlap_offsets(d).1 && d == b_offset_direction,
                cols + ax <= n && cols + bx <= n && rows + ay <= n && rows + by <= n,
                j < rows,
                i <= cols,
                forall|ii: int, jj: int|
                    #![trigger overlap_agrees(ca, cb, n as int, d, ii, jj)]
                    (0 <= ii < cols && 0 <= jj < j) || (0 <= ii < i && jj == j) ==> overlap_agrees(ca, cb, n as int, d, ii, jj),
            decreases cols - i,
        {
            let sa = a.get_checked(grid, i + ax, j + ay);
            let sb = b.get_checked(grid, i + bx, j + by);
            proof {
                lemma_content_at(*grid, *a, i + ax, j + ay);
                lemma_content_at(*grid, *b, i + bx, j + by);
                assert(sa == tile_at(ca, n as int, i + ao.0, j + ao.1));
                assert(sb == tile_at(cb, n as int, i + bo.0, j + bo.1));
            }
            if sa != sb {
                assert(in_overlap(n as int, d, i as int, j as int));
                assert(!overlap_agrees(ca, cb, n as int, d, i as int, j as int));
                return false;
            }
            i = i + 1;
        }
        j = j + 1;
    }
    assert forall|i: int, jj: int| in_overlap(n as int, d, i, jj) implies overlap_agrees(ca, cb, n as int, d, i, jj) by {
        assert(0 <= i < cols && 0 <= jj < rows);
    }
    true
}

/// Placing `b` east of `a` is the same question as placing `a` west of `b`,
/// and likewise for north and south.
pub proof fn lemma_compatible_opposite(a: Seq<u32>, b: Seq<u32>, n: int, d: CardinalDirection)
    ensures
        tiles_compatible(a, b, n, d) == tiles_compatible(b, a, n, crate::geometry::opposite_of(d)),
{
    let e = crate::geometry::opposite_of(d);
    assert forall|i: int, j: int| in_overlap(n, d, i, j) == in_overlap(n, e, i, j)
        && overlap_agrees(a, b, n, d, i, j) == overlap_agrees(b, a, n, e, i, j) by {}
    if tiles_compatible(a, b, n, d) && n != 1 {
        assert forall|i: int, j: int| in_overlap(n, e, i, j) implies overlap_agrees(b, a, n, e, i, j) by {
            assert(overlap_agrees(a, b, n, d, i, j));
        }
    }
    if tiles_compatible(b, a, n, e) && n != 1 {
        assert forall|i: int, j: int| in_overlap(n, d, i, j) implies overlap_agrees(a, b, n, d, i, j) by {
            assert(overlap_agrees(b, a, n, e, i, j));
        }
    }
}

/// Tiles one cell long are compatible with every tile in every direction.
pub proof fn lemma_single_cell_tiles_compatible(a: Seq<u32>, b: Seq<u32>, d: CardinalDirection)
    ensures
        tiles_compatible(a, b, 1, d),
{
}

} // verus!
