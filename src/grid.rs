use vstd::prelude::*;
use vstd::arithmetic::div_mod::lemma_fundamental_div_mod_converse;

verus! {

/// Why a grid could not be built.
#[derive(Debug, Clone, Copy, PartialEq, Eq, Structural)]
pub enum GridError {
    ZeroWidth,
    ZeroHeight,
    /// `width * height` cells cannot be addressed on this machine.
    TooLarge,
}

/// A toroidal grid of `width` columns and `height` rows, stored row-major.
#[derive(Debug, Clone, Copy, PartialEq, Eq, Structural)]
pub struct Grid {
    width: u32,
    height: u32,
    size: usize,
}

/// The nine cell indices that the discrete Laplacian at one site reads:
/// the site itself, its four orthogonal and its four diagonal neighbours.
/// `up` is the row above (`y - 1`), `down` the row below (`y + 1`).
#[derive(Debug, Clone, Copy, PartialEq, Eq, Structural)]
pub struct Stencil {
    pub center: usize,
    pub right: usize,
    pub left: usize,
    pub down: usize,
    pub up: usize,
    pub down_right: usize,
    pub up_left: usize,
    pub up_right: usize,
    pub down_left: usize,
}

impl Stencil {
    /// The taps in a fixed order: center, right, left, down, up, down-right,
    /// up-left, up-right, down-left.
    pub open spec fn taps(&self) -> Seq<usize> {
        seq![
            self.center,
            self.right,
            self.left,
            self.down,
            self.up,
            self.down_right,
            self.up_left,
            self.up_right,
            self.down_left,
        ]
    }
}

/// Column offsets of the taps, in the order of `Stencil::taps`.
pub open spec fn tap_dx() -> Seq<int> {
    seq![0, 1, -1, 0, 0, 1, -1, 1, -1]
}

/// Row offsets of the taps, in the order of `Stencil::taps`.
pub open spec fn tap_dy() -> Seq<int> {
    seq![0, 0, 0, 1, -1, 1, -1, -1, 1]
}

/// Periodic reduction of `v` into `0..n` (Euclidean remainder).
pub open spec fn wrap(v: int, n: int) -> int {
    v % n
}

impl Grid {
    pub closed spec fn spec_width(&self) -> nat {
        self.width as nat
    }

    pub closed spec fn spec_height(&self) -> nat {
        self.height as nat
    }

    pub closed spec fn spec_size(&self) -> nat {
        self.size as nat
    }

    pub open spec fn wf(&self) -> bool {
        &&& self.spec_width() > 0
        &&& self.spec_height() > 0
        &&& self.spec_size() == self.spec_width() * self.spec_height()
        &&& self.spec_width() <= u32::MAX
        &&& self.spec_height() <= u32::MAX
    }

    /// Row-major index of the cell that the coordinate `(x, y)` lands on.
    pub open spec fn index_of(&self, x: int, y: int) -> int {
        wrap(y, self.spec_height() as int) * self.spec_width() + wrap(x, self.spec_width() as int)
    }

    /// Builds a grid; both dimensions must be positive.
    pub fn new(width: u32, height: u32) -> (r: Result<Grid, GridError>)
        ensures
            width == 0 ==> r == Err::<Grid, GridError>(GridError::ZeroWidth),
            width > 0 && height == 0 ==> r == Err::<Grid, GridError>(GridError::ZeroHeight),
            width > 0 && height > 0 && width * height > usize::MAX ==> r == Err::<Grid, GridError>(
                GridError::TooLarge,
            ),
            width > 0 && height > 0 && width * height <= usize::MAX ==> (r matches Ok(g) && g.wf()
                && g.spec_width() == width && g.spec_height() == height),
    {
        if width == 0 {
            Err(GridError::ZeroWidth)
        } else if height == 0 {
            Err(GridError::ZeroHeight)
        } else {
            match (width as usize).checked_mul(height as usize) {
                Some(size) => Ok(Grid { width, height, size }),
                None => Err(GridError::TooLarge),
            }
        }
    }

    pub fn width(&self) -> (r: u32)
        ensures
            r == self.spec_width(),
    {
        self.width
    }

    pub fn height(&self) -> (r: u32)
        ensures
            r == self.spec_height(),
    {
        self.height
    }

    pub fn size(&self) -> (r: usize)
        ensures
            r == self.spec_size(),
    {
        self.size
    }

    /// Index of the cell at `(x, y)`, where either coordinate may lie outside
    /// the grid, negative or not: it is wrapped round periodically.
    pub fn at(&self, x: i64, y: i64) -> (r: usize)
        requires
            self.wf(),
        ensures
            r == self.index_of(x as int, y as int),
            r < self.spec_size(),
    {
        let w = self.width as i64;
        let h = self.height as i64;
        let wx = x.checked_rem_euclid(w).unwrap();
        let wy = y.checked_rem_euclid(h).unwrap();
        assert(0 <= wx < w && 0 <= wy < h);
        let ux = wx as usize;
        let uy = wy as usize;
        proof {
            lemma_row_major_bound(ux as int, uy as int, w as int, h as int);
        }
        uy * (self.width as usize) + ux
    }

    /// Column of the cell with row-major index `i`.
    pub open spec fn column_of(&self, i: int) -> int {
        i % (self.spec_width() as int)
    }

    /// Row of the cell with row-major index `i`.
    pub open spec fn row_of(&self, i: int) -> int {
        i / (self.spec_width() as int)
    }

    /// `(x, y)` and `(x2, y2)` name the same cell.
    pub open spec fn same_cell(&self, x: int, y: int, x2: int, y2: int) -> bool {
        wrap(x, self.spec_width() as int) == wrap(x2, self.spec_width() as int) && wrap(
            y,
            self.spec_height() as int,
        ) == wrap(y2, self.spec_height() as int)
    }

    /// The stencil of the discrete Laplacian at `(x, y)`, each tap wrapped
    /// round the torus.
    pub fn stencil(&self, x: u32, y: u32) -> (r: Stencil)
        requires
            self.wf(),
        ensures
            forall|k: int|
                0 <= k < 9 ==> #[trigger] r.taps()[k] == self.index_of(
                    x + tap_dx()[k],
                    y + tap_dy()[k],
                ),
            r.center == self.index_of(x as int, y as int),
            r.right == self.index_of(x + 1, y as int),
            r.left == self.index_of(x - 1, y as int),
            r.down == self.index_of(x as int, y + 1),
            r.up == self.index_of(x as int, y - 1),
            r.down_right == self.index_of(x + 1, y + 1),
            r.up_left == self.index_of(x - 1, y - 1),
            r.up_right == self.index_of(x + 1, y - 1),
            r.down_left == self.index_of(x - 1, y + 1),
            forall|k: int| 0 <= k < 9 ==> #[trigger] r.taps()[k] < self.spec_size(),
    {
        let x = x as i64;
        let y = y as i64;
        let r = Stencil {
            center: self.at(x, y),
            right: self.at(x + 1, y),
            left: self.at(x - 1, y),
            down: self.at(x, y + 1),
            up: self.at(x, y - 1),
            down_right: self.at(x + 1, y + 1),
            up_left: self.at(x - 1, y - 1),
            up_right: self.at(x + 1, y - 1),
            down_left: self.at(x - 1, y + 1),
        };
        r
    }
}

/// Each coordinate is recovered from a cell index: the row is the quotient
/// and the column the remainder by the width.
pub proof fn lemma_index_of_coords(g: Grid, x: int, y: int)
    requires
        g.wf(),
    ensures
        g.index_of(x, y) / (g.spec_width() as int) == wrap(y, g.spec_height() as int),
        g.index_of(x, y) % (g.spec_width() as int) == wrap(x, g.spec_width() as int),
        0 <= g.index_of(x, y) < g.spec_size(),
{
    let w = g.spec_width() as int;
    let h = g.spec_height() as int;
    lemma_fundamental_div_mod_converse(g.index_of(x, y), w, wrap(y, h), wrap(x, w));
    lemma_row_major_bound(wrap(x, w), wrap(y, h), w, h);
}

/// The cell with row-major index `i` lies inside the grid at
/// `(column_of(i), row_of(i))`, whose index is `i` again.
pub proof fn lemma_coords_of_index(g: Grid, i: int)
    requires
        g.wf(),
        0 <= i < g.spec_size(),
    ensures
        0 <= g.column_of(i) < g.spec_width(),
        0 <= g.row_of(i) < g.spec_height(),
        g.index_of(g.column_of(i), g.row_of(i)) == i,
{
    let w = g.spec_width() as int;
    let h = g.spec_height() as int;
    let x = g.column_of(i);
    let y = g.row_of(i);
    vstd::arithmetic::div_mod::lemma_fundamental_div_mod(i, w);
    assert(0 <= y < h) by (nonlinear_arith)
        requires
            i == w * y + x,
            0 <= x < w,
            0 <= i < w * h,
    ;
    lemma_fundamental_div_mod_converse(x, w, 0, x);
    lemma_fundamental_div_mod_converse(y, h, 0, y);
    assert(w * y == y * w) by (nonlinear_arith);
}

/// Two coordinates give the same index exactly when they name the same cell.
pub proof fn lemma_index_of_injective(g: Grid, x: int, y: int, x2: int, y2: int)
    requires
        g.wf(),
    ensures
        g.index_of(x, y) == g.index_of(x2, y2) <==> g.same_cell(x, y, x2, y2),
{
    lemma_index_of_coords(g, x, y);
    lemma_index_of_coords(g, x2, y2);
}

/// Stepping one column past either edge re-enters at the opposite edge, and
/// likewise for rows.
pub proof fn lemma_periodic_edges(g: Grid, x: int, y: int)
    requires
        g.wf(),
    ensures
        g.index_of(-1, y) == g.index_of(g.spec_width() - 1, y),
        g.index_of(g.spec_width() as int, y) == g.index_of(0, y),
        g.index_of(x, -1) == g.index_of(x, g.spec_height() - 1),
        g.index_of(x, g.spec_height() as int) == g.index_of(x, 0),
{
    let w = g.spec_width() as int;
    let h = g.spec_height() as int;
    lemma_fundamental_div_mod_converse(-1, w, -1, w - 1);
    lemma_fundamental_div_mod_converse(w - 1, w, 0, w - 1);
    lemma_fundamental_div_mod_converse(w, w, 1, 0);
    lemma_fundamental_div_mod_converse(0, w, 0, 0);
    lemma_fundamental_div_mod_converse(-1, h, -1, h - 1);
    lemma_fundamental_div_mod_converse(h - 1, h, 0, h - 1);
    lemma_fundamental_div_mod_converse(h, h, 1, 0);
    lemma_fundamental_div_mod_converse(0, h, 0, 0);
}

/// On a one-cell grid every coordinate, and so every tap of every stencil,
/// lands on cell 0.
pub proof fn lemma_single_cell(g: Grid, x: int, y: int)
    requires
        g.wf(),
        g.spec_width() == 1,
        g.spec_height() == 1,
    ensures
        g.index_of(x, y) == 0,
{
    lemma_index_of_coords(g, x, y);
}

/// A cell of row `y < h` and column `x < w` has a row-major index below `w * h`.
pub proof fn lemma_row_major_bound(x: int, y: int, w: int, h: int)
    requires
        0 <= x < w,
        0 <= y < h,
    ensures
        0 <= y * w + x < w * h,
{
    assert(y * w + x < w * h) by (nonlinear_arith)
        requires
            0 <= x < w,
            0 <= y < h,
    ;
    assert(0 <= y * w) by (nonlinear_arith)
        requires
            0 <= x < w,
            0 <= y < h,
    ;
}

} // verus!
