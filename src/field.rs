use vstd::prelude::*;

use crate::grid::{
    lemma_index_of_coords, lemma_index_of_injective, lemma_single_cell, tap_dx, tap_dy, Grid,
    GridError, Stencil,
};

verus! {

/// The nine values that the discrete Laplacian at one site reads, named as
/// the taps of a `Stencil`.
#[derive(Debug)]
pub struct Neighborhood<C> {
    pub center: C,
    pub right: C,
    pub left: C,
    pub down: C,
    pub up: C,
    pub down_right: C,
    pub up_left: C,
    pub up_right: C,
    pub down_left: C,
}

impl<C> Neighborhood<C> {
    /// The values in the order of `Stencil::taps`.
    pub open spec fn values(&self) -> Seq<C> {
        seq![
            self.center,
            self.right,
            self.left,
            self.down,
            self.up,
            self.down_right,
            self.up_left,
            self.up_right,
            self.down_left,
        ]
    }
}

/// A toroidal grid of cells together with the number of completed steps.
///
/// A step reads every cell's neighbourhood from the current cells only, and
/// the results replace the cells all at once (double buffering).
pub struct Field<C> {
    grid: Grid,
    cells: Vec<C>,
    steps: u64,
}

impl<C: Copy> Field<C> {
    pub closed spec fn spec_grid(&self) -> Grid {
        self.grid
    }

    pub closed spec fn spec_cells(&self) -> Seq<C> {
        self.cells@
    }

    pub closed spec fn spec_steps(&self) -> nat {
        self.steps as nat
    }

    pub open spec fn wf(&self) -> bool {
        &&& self.spec_grid().wf()
        &&& self.spec_cells().len() == self.spec_grid().spec_size()
    }

    /// The cell that the coordinate `(x, y)` lands on.
    pub open spec fn cell_at(&self, x: int, y: int) -> C {
        self.spec_cells()[self.spec_grid().index_of(x, y)]
    }

    /// The neighbourhood of the site `(x, y)`.
    pub open spec fn neighborhood_at(&self, x: int, y: int) -> Neighborhood<C> {
        Neighborhood {
            center: self.cell_at(x, y),
            right: self.cell_at(x + 1, y),
            left: self.cell_at(x - 1, y),
            down: self.cell_at(x, y + 1),
            up: self.cell_at(x, y - 1),
            down_right: self.cell_at(x + 1, y + 1),
            up_left: self.cell_at(x - 1, y - 1),
            up_right: self.cell_at(x + 1, y - 1),
            down_left: self.cell_at(x - 1, y + 1),
        }
    }

    /// A field of `width * height` copies of `blank`, before any step.
    pub fn new(width: u32, height: u32, blank: C) -> (r: Result<Field<C>, GridError>)
        ensures
            width == 0 ==> r matches Err(GridError::ZeroWidth),
            width > 0 && height == 0 ==> r matches Err(GridError::ZeroHeight),
            width > 0 && height > 0 && width * height > usize::MAX ==> r matches Err(
                GridError::TooLarge,
            ),
            width > 0 && height > 0 && width * height <= usize::MAX ==> (r matches Ok(f) && f.wf()
                && f.spec_grid().spec_width() == width && f.spec_grid().spec_height() == height
                && f.spec_steps() == 0 && f.spec_cells() =~= Seq::new(
                f.spec_grid().spec_size(),
                |i: int| blank,
            )),
    {
        match Grid::new(width, height) {
            Err(e) => Err(e),
            Ok(grid) => {
                let size = grid.size();
                let mut cells: Vec<C> = Vec::with_capacity(size);
                let mut i: usize = 0;
                while i < size
                    invariant
                        i <= size,
                        cells@ =~= Seq::new(i as nat, |j: int| blank),
                    decreases size - i,
                {
                    cells.push(blank);
                    i += 1;
                }
                Ok(Field { grid, cells, steps: 0 })
            },
        }
    }

    pub fn grid(&self) -> (r: Grid)
        ensures
            r == self.spec_grid(),
    {
        self.grid
    }

    pub fn width(&self) -> (r: u32)
        ensures
            r == self.spec_grid().spec_width(),
    {
        self.grid.width()
    }

    pub fn height(&self) -> (r: u32)
        ensures
            r == self.spec_grid().spec_height(),
    {
        self.grid.height()
    }

    pub fn size(&self) -> (r: usize)
        ensures
            r == self.spec_grid().spec_size(),
    {
        self.grid.size()
    }

    /// Number of completed steps.
    pub fn steps(&self) -> (r: u64)
        ensures
            r == self.spec_steps(),
    {
        self.steps
    }

    /// The cells, row-major.
    pub fn cells(&self) -> (r: &Vec<C>)
        ensures
            r@ == self.spec_cells(),
    {
        &self.cells
    }

    /// Index of the cell at `(x, y)`, wrapped round periodically.
    pub fn at(&self, x: i64, y: i64) -> (r: usize)
        requires
            self.wf(),
        ensures
            r == self.spec_grid().index_of(x as int, y as int),
            r < self.spec_cells().len(),
    {
        self.grid.at(x, y)
    }

    /// The cell at `(x, y)`, wrapped round periodically.
    pub fn get(&self, x: i64, y: i64) -> (r: C)
        requires
            self.wf(),
        ensures
            r == self.cell_at(x as int, y as int),
    {
        self.cells[self.grid.at(x, y)]
    }

    /// Replaces the cell at `(x, y)`, wrapped round periodically.
    pub fn set(&mut self, x: i64, y: i64, c: C)
        requires
            old(self).wf(),
        ensures
            final(self).wf(),
            final(self).spec_grid() == old(self).spec_grid(),
            final(self).spec_steps() == old(self).spec_steps(),
            final(self).spec_cells() == old(self).spec_cells().update(
                old(self).spec_grid().index_of(x as int, y as int),
                c,
            ),
    {
        let i = self.grid.at(x, y);
        self.cells.set(i, c);
    }

    /// The neighbourhood of the site `(x, y)`.
    pub fn neighborhood(&self, x: u32, y: u32) -> (r: Neighborhood<C>)
        requires
            self.wf(),
        ensures
            r == self.neighborhood_at(x as int, y as int),
    {
        let s: Stencil = self.grid.stencil(x, y);
        assert(s.taps()[0] < self.cells.len() && s.taps()[1] < self.cells.len() && s.taps()[2]
            < self.cells.len() && s.taps()[3] < self.cells.len() && s.taps()[4] < self.cells.len()
            && s.taps()[5] < self.cells.len() && s.taps()[6] < self.cells.len() && s.taps()[7]
            < self.cells.len() && s.taps()[8] < self.cells.len());
        Neighborhood {
            center: self.cells[s.center],
            right: self.cells[s.right],
            left: self.cells[s.left],
            down: self.cells[s.down],
            up: self.cells[s.up],
            down_right: self.cells[s.down_right],
            up_left: self.cells[s.up_left],
            up_right: self.cells[s.up_right],
            down_left: self.cells[s.down_left],
        }
    }

    /// Sets every cell from its coordinates: the cell at column `x` and row
    /// `y` becomes `f(x, y)`.
    pub fn fill_with<F: Fn(u32, u32) -> C>(&mut self, f: F)
        requires
            old(self).wf(),
            forall|x: u32, y: u32| f.requires((x, y)),
        ensures
            final(self).wf(),
            final(self).spec_grid() == old(self).spec_grid(),
            final(self).spec_steps() == old(self).spec_steps(),
            forall|i: int|
                0 <= i < final(self).spec_cells().len() ==> f.ensures(
                    (
                        old(self).spec_grid().column_of(i) as u32,
                        old(self).spec_grid().row_of(i) as u32,
                    ),
                    #[trigger] final(self).spec_cells()[i],
                ),
    {
        let size = self.grid.size();
        let w = self.grid.width() as usize;
        let mut i: usize = 0;
        while i < size
            invariant
                self.wf(),
                self.grid == old(self).grid,
                self.steps == old(self).steps,
                size == self.grid.spec_size(),
                w == self.grid.spec_width(),
                i <= size,
                forall|x: u32, y: u32| f.requires((x, y)),
                forall|j: int|
                    0 <= j < i ==> f.ensures(
                        (self.grid.column_of(j) as u32, self.grid.row_of(j) as u32),
                        #[trigger] self.cells@[j],
                    ),
            decreases size - i,
        {
            proof {
                crate::grid::lemma_coords_of_index(self.grid, i as int);
            }
            let c = f((i % w) as u32, (i / w) as u32);
            self.cells.set(i, c);
            i += 1;
        }
    }

    /// First half of a step: `f` applied to the neighbourhood of every site,
    /// in row-major order. Only the current cells are read, so no result
    /// depends on another.
    pub fn map_neighborhoods<D, F: Fn(Neighborhood<C>) -> D>(&self, f: F) -> (r: Vec<D>)
        requires
            self.wf(),
            forall|n: Neighborhood<C>| f.requires((n,)),
        ensures
            r@.len() == self.spec_cells().len(),
            forall|i: int|
                0 <= i < r@.len() ==> f.ensures(
                    (
                        self.neighborhood_at(
                            self.spec_grid().column_of(i),
                            self.spec_grid().row_of(i),
                        ),
                    ),
                    #[trigger] r@[i],
                ),
    {
        let size = self.grid.size();
        let w = self.grid.width() as usize;
        let mut r: Vec<D> = Vec::with_capacity(size);
        let mut i: usize = 0;
        while i < size
            invariant
                self.wf(),
                size == self.grid.spec_size(),
                w == self.grid.spec_width(),
                i <= size,
                r@.len() == i,
                forall|n: Neighborhood<C>| f.requires((n,)),
                forall|j: int|
                    0 <= j < i ==> f.ensures(
                        (self.neighborhood_at(self.grid.column_of(j), self.grid.row_of(j)),),
                        #[trigger] r@[j],
                    ),
            decreases size - i,
        {
            proof {
                crate::grid::lemma_coords_of_index(self.grid, i as int);
            }
            let n = self.neighborhood((i % w) as u32, (i / w) as u32);
            let d = f(n);
            r.push(d);
            i += 1;
        }
        r
    }

    /// Second half of a step: every cell `c` with its result `d` from the
    /// first half becomes `f(c, d)`, and the step count goes up by one.
    pub fn commit<D: Copy, F: Fn(C, D) -> C>(&mut self, next: Vec<D>, f: F)
        requires
            old(self).wf(),
            next@.len() == old(self).spec_cells().len(),
            old(self).spec_steps() < u64::MAX,
            forall|c: C, d: D| f.requires((c, d)),
        ensures
            final(self).wf(),
            final(self).spec_grid() == old(self).spec_grid(),
            final(self).spec_steps() == old(self).spec_steps() + 1,
            forall|i: int|
                0 <= i < final(self).spec_cells().len() ==> f.ensures(
                    (old(self).spec_cells()[i], next@[i]),
                    #[trigger] final(self).spec_cells()[i],
                ),
    {
        let size = self.grid.size();
        let mut i: usize = 0;
        while i < size
            invariant
                self.wf(),
                self.grid == old(self).grid,
                self.steps == old(self).steps,
                size == self.grid.spec_size(),
                next@.len() == size,
                i <= size,
                forall|c: C, d: D| f.requires((c, d)),
                forall|j: int| i <= j < size ==> self.cells@[j] == old(self).cells@[j],
                forall|j: int|
                    0 <= j < i ==> f.ensures((old(self).cells@[j], next@[j]), #[trigger] self.cells@[j]),
            decreases size - i,
        {
            let c = f(self.cells[i], next[i]);
            self.cells.set(i, c);
            i += 1;
        }
        self.steps = self.steps + 1;
    }
}

/// Where every cell holds the same value, every tap of every neighbourhood
/// reads that value, so the orthogonal and diagonal sums of the Laplacian each
/// cancel their four-times-center terms.
pub proof fn lemma_uniform_neighborhood<C: Copy>(f: Field<C>, v: C, x: int, y: int)
    requires
        f.wf(),
        forall|i: int| 0 <= i < f.spec_cells().len() ==> f.spec_cells()[i] == v,
    ensures
        forall|k: int| 0 <= k < 9 ==> #[trigger] f.neighborhood_at(x, y).values()[k] == v,
{
    assert forall|k: int| 0 <= k < 9 implies #[trigger] f.neighborhood_at(x, y).values()[k] == v by {
        lemma_index_of_coords(f.spec_grid(), x + tap_dx()[k], y + tap_dy()[k]);
    }
}

/// A step is local: where all cells but the one at `(px, py)` hold `blank`,
/// a tap of the neighbourhood of `(x, y)` reads that cell exactly when the tap
/// lands on it, and reads `blank` otherwise. Sites whose nine taps all miss
/// `(px, py)` see nothing but `blank`.
pub proof fn lemma_isolated_cell_neighborhood<C: Copy>(
    f: Field<C>,
    blank: C,
    px: int,
    py: int,
    x: int,
    y: int,
)
    requires
        f.wf(),
        forall|i: int|
            0 <= i < f.spec_cells().len() && i != f.spec_grid().index_of(px, py)
                ==> f.spec_cells()[i] == blank,
    ensures
        forall|k: int|
            0 <= k < 9 ==> #[trigger] f.neighborhood_at(x, y).values()[k] == if f.spec_grid().same_cell(
                x + tap_dx()[k],
                y + tap_dy()[k],
                px,
                py,
            ) {
                f.cell_at(px, py)
            } else {
                blank
            },
{
    let g = f.spec_grid();
    assert forall|k: int| 0 <= k < 9 implies #[trigger] f.neighborhood_at(x, y).values()[k] == if g.same_cell(
        x + tap_dx()[k],
        y + tap_dy()[k],
        px,
        py,
    ) {
        f.cell_at(px, py)
    } else {
        blank
    } by {
        lemma_index_of_coords(g, x + tap_dx()[k], y + tap_dy()[k]);
        lemma_index_of_injective(g, x + tap_dx()[k], y + tap_dy()[k], px, py);
    }
}

/// On a one-cell grid all nine taps of the neighbourhood read that one cell,
/// so the Laplacian is exactly zero.
pub proof fn lemma_single_cell_neighborhood<C: Copy>(f: Field<C>, x: int, y: int)
    requires
        f.wf(),
        f.spec_grid().spec_width() == 1,
        f.spec_grid().spec_height() == 1,
    ensures
        forall|k: int|
            0 <= k < 9 ==> #[trigger] f.neighborhood_at(x, y).values()[k] == f.spec_cells()[0],
{
    assert forall|k: int| 0 <= k < 9 implies #[trigger] f.neighborhood_at(x, y).values()[k]
        == f.spec_cells()[0] by {
        lemma_single_cell(f.spec_grid(), x + tap_dx()[k], y + tap_dy()[k]);
    }
}

} // verus!
