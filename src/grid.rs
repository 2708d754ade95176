use vstd::prelude::*;
use crate::geometry::{transform, Coord, Orientation, Size};

verus! {

/// A rectangular grid of samples stored row by row. Every coordinate is a
/// valid address: coordinates wrap around modulo the grid's extent.
pub struct Grid {
    pub size: Size,
    pub cells: Vec<u32>,
}

impl Grid {
    pub open spec fn wf(&self) -> bool {
        &&& self.size.width > 0
        &&& self.size.height > 0
        &&& self.cells@.len() == self.size.count()
    }

    /// The sample at `(x, y)` once both coordinates wrap around the grid.
    pub open spec fn tiled(&self, x: int, y: int) -> u32 {
        let w = self.size.width as int;
        let h = self.size.height as int;
        self.cells@[(y % h) * w + (x % w)]
    }

    /// Builds a grid from its cells in row-major order; `None` when the
    /// extent is empty or does not match the number of cells.
    pub fn from_cells(size: Size, cells: Vec<u32>) -> (r: Option<Grid>)
        ensures
            r is Some <==> (size.width > 0 && size.height > 0 && cells@.len() == size.count()),
            r matches Some(g) ==> g.size == size && g.cells@ == cells@ && g.wf(),
    {
        if size.width == 0 || size.height == 0 {
            return None;
        }
        let w = size.width as u64;
        let h = size.height as u64;
        assert(w * h <= u32::MAX as u64 * u32::MAX as u64) by (nonlinear_arith)
            requires w <= u32::MAX, h <= u32::MAX;
        if cells.len() as u64 != w * h {
            return None;
        }
        Some(Grid { size, cells })
    }

    pub fn size(&self) -> (r: Size)
        ensures
            r == self.size,
    {
        self.size
    }

    /// The sample at `(x, y)`, wrapping around the grid's edges.
    pub fn get_tiled(&self, x: u64, y: u64) -> (r: u32)
        requires
            self.wf(),
        ensures
            r == self.tiled(x as int, y as int),
    {
        let w = self.size.width as u64;
        let h = self.size.height as u64;
        let tx = (x % w) as usize;
        let ty = (y % h) as usize;
        let wu = self.size.width as usize;
        let len = self.cells.len();
        proof {
            lemma_cell_index(tx as int, ty as int, wu as int, h as int);
            assert(wu as int * h as int == len);
            assert((ty as int) * (wu as int) + (tx as int) < len);
        }
        self.cells[ty * wu + tx]
    }
}

pub proof fn lemma_cell_index(x: int, y: int, w: int, h: int)
    requires
        0 <= x < w,
        0 <= y < h,
    ensures
        0 <= y * w + x < w * h,
{
    assert(y * w + x < w * h) by (nonlinear_arith)
        requires 0 <= x < w, 0 <= y < h;
    assert(0 <= y * w) by (nonlinear_arith)
        requires 0 <= x < w, 0 <= y < h;
}

/// A square window onto a grid: its logical cell `(i, j)` is the grid's
/// sample at `offset + transform(orientation, (i, j))`, wrapping around.
#[derive(Clone, Copy, Debug, PartialEq, Eq, Structural, Hash)]
pub struct TiledGridSlice {
    pub offset: Coord,
    pub size: u32,
    pub orientation: Orientation,
}

/// Logical cell `(i, j)` of view `v` onto grid `g`.
pub open spec fn slice_at(g: Grid, v: TiledGridSlice, i: int, j: int) -> u32 {
    let t = transform(v.orientation, v.size as int, i, j);
    g.tiled(v.offset.x as int + t.0, v.offset.y as int + t.1)
}

/// Every sample of an `n` by `n` view, row by row.
pub open spec fn slice_content(g: Grid, v: TiledGridSlice) -> Seq<u32> {
    let n = v.size as int;
    Seq::new((n * n) as nat, |k: int| slice_at(g, v, k % n, k / n))
}

impl TiledGridSlice {
    pub fn new(offset: Coord, size: u32, orientation: Orientation) -> (r: TiledGridSlice)
        ensures
            r.offset == offset,
            r.size == size,
            r.orientation == orientation,
    {
        TiledGridSlice { offset, size, orientation }
    }

    pub fn offset(&self) -> (r: Coord)
        ensures
            r == self.offset,
    {
        self.offset
    }

    /// Logical cell `(i, j)` of this view onto `grid`.
    pub fn get_checked(&self, grid: &Grid, i: u32, j: u32) -> (r: u32)
        requires
            grid.wf(),
            i < self.size,
            j < self.size,
        ensures
            r == slice_at(*grid, *self, i as int, j as int),
    {
        let (tx, ty) = self.orientation.transform_coord(self.size, i, j);
        grid.get_tiled(self.offset.x as u64 + tx as u64, self.offset.y as u64 + ty as u64)
    }

    /// The samples of this view onto `grid`, row by row.
    pub fn content(&self, grid: &Grid) -> (r: Vec<u32>)
        requires
            grid.wf(),
            self.size as int * self.size as int <= usize::MAX,
        ensures
            r@ == slice_content(*grid, *self),
    {
        let n = self.size;
        let mut r: Vec<u32> = Vec::new();
        let mut j: u32 = 0;
        while j < n
            invariant
                grid.wf(),
                n == self.size,
                j <= n,
                n as int * n as int <= usize::MAX,
                r@.len() == j as int * n as int,
                forall|k: int| 0 <= k < r@.len() ==> r@[k] == slice_at(*grid, *self, k % n as int, k / n as int),
            decreases n - j,
        {
            let mut i: u32 = 0;
            while i < n
                invariant
                    grid.wf(),
                    n == self.size,
                    j < n,
                    i <= n,
                    n as int * n as int <= usize::MAX,
                    r@.len() == j as int * n as int + i as int,
                    forall|k: int| 0 <= k < r@.len() ==> r@[k] == slice_at(*grid, *self, k % n as int, k / n as int),
                decreases n - i,
            {
                let s = self.get_checked(grid, i, j);
                proof {
                    let k = j as int * n as int + i as int;
                    assert(k % n as int == i as int && k / n as int == j as int) by (nonlinear_arith)
                        requires k == j as int * n as int + i as int, 0 <= i < n, 0 <= j;
                }
                r.push(s);
                i = i + 1;
            }
            proof {
                assert((j as int + 1) * n as int == j as int * n as int + n as int) by (nonlinear_arith);
            }
            j = j + 1;
        }
        assert(r@ =~= slice_content(*grid, *self));
        r
    }
}

} // verus!
