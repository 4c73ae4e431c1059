//! The grid: a fixed rectangle of cells addressed by column and row.

use vstd::arithmetic::div_mod::lemma_fundamental_div_mod_converse;
use vstd::prelude::*;

verus! {

/// A cell of the grid: column `x` and row `y`, both counted from zero.
#[derive(Clone, Copy, Debug, PartialEq, Eq, Structural)]
pub struct Point {
    pub x: i32,
    pub y: i32,
}

/// A grid of `width` columns and `height` rows.
#[derive(Clone, Copy, Debug, PartialEq, Eq, Structural)]
pub struct Grid {
    pub width: i32,
    pub height: i32,
}

impl Grid {
    /// A grid with at least one cell.
    pub open spec fn valid(self) -> bool {
        self.width > 0 && self.height > 0
    }

    /// `p` lies on the grid.
    pub open spec fn contains(self, p: Point) -> bool {
        0 <= p.x < self.width && 0 <= p.y < self.height
    }

    /// The cell at position `i` when the grid is read column by column.
    pub open spec fn cell_at(self, i: int) -> Point {
        Point { x: (i / self.height as int) as i32, y: (i % self.height as int) as i32 }
    }

    /// Every cell of the grid, column by column, each column from the top row down.
    pub open spec fn cells(self) -> Seq<Point> {
        Seq::new((self.width * self.height) as nat, |i: int| self.cell_at(i))
    }

    /// Whether `p` lies on the grid.
    pub fn in_bounds(&self, p: Point) -> (r: bool)
        ensures
            r == self.contains(p),
    {
        0 <= p.x && p.x < self.width && 0 <= p.y && p.y < self.height
    }
}

/// The cells of a valid grid are exactly its in-bounds points, each listed once.
pub proof fn lemma_cells_are_the_grid(grid: Grid, p: Point)
    requires
        grid.valid(),
    ensures
        grid.contains(p) <==> grid.cells().contains(p),
        grid.contains(p) ==> 0 <= p.x * grid.height + p.y < grid.cells().len(),
        grid.contains(p) ==> grid.cells()[p.x * grid.height + p.y] == p,
        grid.cells().no_duplicates(),
{
    let h = grid.height as int;
    let w = grid.width as int;
    let cells = grid.cells();
    if grid.contains(p) {
        let i = p.x * h + p.y;
        lemma_fundamental_div_mod_converse(i, h, p.x as int, p.y as int);
        assert(0 <= i < w * h) by (nonlinear_arith)
            requires
                0 <= p.x < w,
                0 <= p.y < h,
                i == p.x * h + p.y,
        ;
        assert(cells[i] == p);
    }
    if cells.contains(p) {
        let i = choose|i: int| 0 <= i < cells.len() && cells[i] == p;
        lemma_cell_at_in_bounds(grid, i);
    }
    assert forall|i: int, j: int|
        0 <= i < cells.len() && 0 <= j < cells.len() && i != j implies cells[i] != cells[j] by {
        lemma_cell_at_in_bounds(grid, i);
        lemma_cell_at_in_bounds(grid, j);
        vstd::arithmetic::div_mod::lemma_fundamental_div_mod(i, h);
        vstd::arithmetic::div_mod::lemma_fundamental_div_mod(j, h);
    }
}

proof fn lemma_cell_at_in_bounds(grid: Grid, i: int)
    requires
        grid.valid(),
        0 <= i < grid.width * grid.height,
    ensures
        grid.contains(grid.cell_at(i)),
        grid.cell_at(i).x == i / grid.height as int,
        grid.cell_at(i).y == i % grid.height as int,
{
    let h = grid.height as int;
    let w = grid.width as int;
    assert(0 <= i / h < w) by (nonlinear_arith)
        requires
            0 <= i < w * h,
            h > 0,
    ;
    assert(0 <= i % h < h) by (nonlinear_arith)
        requires
            h > 0,
    ;
}

/// Appends every cell of `grid` to `points`, column by column.
pub fn initialize_points(points: &mut Vec<Point>, grid: &Grid)
    requires
        grid.valid(),
    ensures
        final(points)@ == old(points)@ + grid.cells(),
{
    let ghost start = old(points)@;
    let ghost cells = grid.cells();
    let ghost h = grid.height as int;
    let mut i: i32 = 0;
    while i < grid.width
        invariant
            0 <= i <= grid.width,
            grid.valid(),
            cells == grid.cells(),
            h == grid.height,
            points@ == start + cells.take(i * h),
        decreases grid.width - i,
    {
        let mut j: i32 = 0;
        while j < grid.height
            invariant
                0 <= i < grid.width,
                0 <= j <= grid.height,
                grid.valid(),
                cells == grid.cells(),
                h == grid.height,
                points@ == start + cells.take(i * h + j),
            decreases grid.height - j,
        {
            let ghost k = i * h + j;
            proof {
                let w = grid.width as int;
                assert(0 <= k < w * h) by (nonlinear_arith)
                    requires
                        0 <= i < w,
                        0 <= j < h,
                        k == i * h + j,
                ;
                lemma_fundamental_div_mod_converse(k, h, i as int, j as int);
                assert(cells[k] == Point { x: i, y: j });
                assert(cells.take(k + 1) =~= cells.take(k).push(cells[k]));
            }
            points.push(Point { x: i, y: j });
            j += 1;
        }
        proof {
            assert(i * h + h == (i + 1) * h) by (nonlinear_arith);
        }
        i += 1;
    }
    proof {
        assert(cells.take(grid.width * h) =~= cells);
    }
}

} // verus!
