use vstd::prelude::*;

verus! {

/// Mathematical model of a grid: its dimensions and its cells in row-major
/// order (cell `(x, y)` is at index `x + y * cols`).
pub struct GridView {
    pub rows: nat,
    pub cols: nat,
    pub cells: Seq<bool>,
}

impl GridView {
    /// Positive dimensions and exactly one cell per position.
    pub open spec fn wf(self) -> bool {
        &&& self.rows > 0
        &&& self.cols > 0
        &&& self.cells.len() == self.rows * self.cols
    }

    /// Same dimensions as `other`.
    pub open spec fn same_shape(self, other: GridView) -> bool {
        self.rows == other.rows && self.cols == other.cols && self.cells.len() == other.cells.len()
    }
}

/// Linear index of cell `(x, y)` on a grid `cols` cells wide.
pub open spec fn index_of(cols: int, x: int, y: int) -> int {
    x + y * cols
}

/// Coordinate `v` wrapped into `0..n`: the remainder is never negative.
#[verifier::opaque]
pub open spec fn wrap(v: int, n: int) -> int {
    v % n
}

/// Whether cell `(x, y)` is alive.
pub open spec fn alive_at(g: GridView, x: int, y: int) -> bool {
    g.cells[index_of(g.cols as int, x, y)]
}

/// The eight toroidally adjacent positions of `(x, y)`.
pub open spec fn neighbors(g: GridView, x: int, y: int) -> Seq<(int, int)> {
    let (r, c) = (g.rows as int, g.cols as int);
    seq![
        (wrap(x - 1, c), wrap(y - 1, r)),
        (wrap(x, c), wrap(y - 1, r)),
        (wrap(x + 1, c), wrap(y - 1, r)),
        (wrap(x - 1, c), wrap(y, r)),
        (wrap(x + 1, c), wrap(y, r)),
        (wrap(x - 1, c), wrap(y + 1, r)),
        (wrap(x, c), wrap(y + 1, r)),
        (wrap(x + 1, c), wrap(y + 1, r)),
    ]
}

/// 1 for an alive cell, 0 for a dead one.
pub open spec fn bit(b: bool) -> nat {
    if b { 1 } else { 0 }
}

/// Number of alive cells among the eight neighbors of `(x, y)`.
pub open spec fn live_neighbors(g: GridView, x: int, y: int) -> nat {
    let ns = neighbors(g, x, y);
    bit(alive_at(g, ns[0].0, ns[0].1)) + bit(alive_at(g, ns[1].0, ns[1].1)) + bit(
        alive_at(g, ns[2].0, ns[2].1),
    ) + bit(alive_at(g, ns[3].0, ns[3].1)) + bit(alive_at(g, ns[4].0, ns[4].1)) + bit(
        alive_at(g, ns[5].0, ns[5].1),
    ) + bit(alive_at(g, ns[6].0, ns[6].1)) + bit(alive_at(g, ns[7].0, ns[7].1))
}

/// A grid of `rows * cols` cells, each dead.
pub open spec fn dead_grid(rows: nat, cols: nat) -> GridView {
    GridView { rows, cols, cells: Seq::new(rows * cols, |i: int| false) }
}

/// Cell `(x, y)` lies on a grid of the given dimensions.
pub open spec fn in_bounds(g: GridView, x: int, y: int) -> bool {
    0 <= x < g.cols && 0 <= y < g.rows
}

/// A position in range has an index in range.
pub proof fn lemma_index_in_range(g: GridView, x: int, y: int)
    requires
        g.wf(),
        in_bounds(g, x, y),
    ensures
        0 <= index_of(g.cols as int, x, y) < g.cells.len(),
{
    let (r, c) = (g.rows as int, g.cols as int);
    assert(x + y * c < r * c) by (nonlinear_arith)
        requires
            0 <= x < c,
            0 <= y < r,
    ;
    assert(0 <= y * c) by (nonlinear_arith)
        requires
            0 <= y,
            0 <= c,
    ;
}

/// Index `i` is the cell `(i % cols, i / cols)`, which lies in range.
pub proof fn lemma_position_of_index(g: GridView, i: int)
    requires
        g.wf(),
        0 <= i < g.cells.len(),
    ensures
        in_bounds(g, i % g.cols as int, i / g.cols as int),
        index_of(g.cols as int, i % g.cols as int, i / g.cols as int) == i,
{
    let (r, c) = (g.rows as int, g.cols as int);
    vstd::arithmetic::div_mod::lemma_fundamental_div_mod(i, c);
    assert(0 <= i / c < r && 0 <= i % c < c && i / c * c == c * (i / c)) by (nonlinear_arith)
        requires
            0 <= i < r * c,
            c > 0,
            i == c * (i / c) + i % c,
    ;
}

/// Wrapping a coordinate one step to either side stays in `0..n`, and equals
/// the plain neighbor coordinate away from the edges.
pub proof fn lemma_wrap_step(v: int, n: int)
    requires
        0 <= v < n,
    ensures
        wrap(v, n) == v,
        wrap(v - 1, n) == if v == 0 { n - 1 } else { v - 1 },
        wrap(v + 1, n) == if v + 1 == n { 0 } else { v + 1 },
{
    reveal(wrap);
    vstd::arithmetic::div_mod::lemma_small_mod(v as nat, n as nat);
    if v == 0 {
        vstd::arithmetic::div_mod::lemma_mod_add_multiples_vanish(-1, n);
        vstd::arithmetic::div_mod::lemma_small_mod((n - 1) as nat, n as nat);
    } else {
        vstd::arithmetic::div_mod::lemma_small_mod((v - 1) as nat, n as nat);
    }
    if v + 1 == n {
        vstd::arithmetic::div_mod::lemma_mod_self_0(n);
    } else {
        vstd::arithmetic::div_mod::lemma_small_mod((v + 1) as nat, n as nat);
    }
}

/// Relies on rand::random::<bool>: a fair coin flip, of which nothing is
/// promised.
#[verifier::external_body]
fn coin_flip() -> (r: bool) {
    rand::random::<bool>()
}

/// Why a direct cell access was refused.
#[derive(Clone, Copy, Debug, PartialEq, Eq, Structural)]
pub enum GridError {
    /// A coordinate is not below the grid's dimension.
    OutOfRange,
}

/// A fixed-size toroidal grid of alive/dead cells.
pub struct Grid {
    rows: usize,
    cols: usize,
    cells: Vec<bool>,
}

impl View for Grid {
    type V = GridView;

    closed spec fn view(&self) -> GridView {
        GridView { rows: self.rows as nat, cols: self.cols as nat, cells: self.cells@ }
    }
}

impl Grid {
    /// The grid's model is well formed.
    pub open spec fn wf(&self) -> bool {
        self@.wf()
    }

    /// An all-dead grid of `rows` by `cols` cells.
    pub fn new(rows: usize, cols: usize) -> (r: Grid)
        requires
            rows > 0,
            cols > 0,
            rows * cols <= usize::MAX,
        ensures
            r.wf(),
            r@ == dead_grid(rows as nat, cols as nat),
    {
        let n: usize = rows * cols;
        let mut cells: Vec<bool> = Vec::with_capacity(n);
        let mut i: usize = 0;
        while i < n
            invariant
                i <= n,
                cells@ == Seq::new(i as nat, |k: int| false),
            decreases n - i,
        {
            cells.push(false);
            i = i + 1;
        }
        let r = Grid { rows, cols, cells };
        assert(r@.cells =~= dead_grid(rows as nat, cols as nat).cells);
        r
    }

    /// A grid over the given cells in row-major order; `None` where a
    /// dimension is zero or the number of cells is not `rows * cols`.
    pub fn from_cells(rows: usize, cols: usize, cells: Vec<bool>) -> (r: Option<Grid>)
        ensures
            r is Some <==> (rows > 0 && cols > 0 && cells@.len() == rows * cols),
            r matches Some(g) ==> g.wf() && g@ == (GridView {
                rows: rows as nat,
                cols: cols as nat,
                cells: cells@,
            }),
    {
        if rows == 0 || cols == 0 {
            return None;
        }
        if cells.len() / cols != rows || cells.len() % cols != 0 {
            proof {
                if cells@.len() == rows * cols {
                    vstd::arithmetic::div_mod::lemma_fundamental_div_mod(cells@.len() as int, cols as int);
                    assert(rows * cols == cols * rows) by (nonlinear_arith);
                    vstd::arithmetic::div_mod::lemma_mod_multiples_vanish(rows as int, 0, cols as int);
                    vstd::arithmetic::div_mod::lemma_small_mod(0, cols as nat);
                    vstd::arithmetic::div_mod::lemma_div_multiples_vanish(rows as int, cols as int);
                }
            }
            return None;
        }
        proof {
            vstd::arithmetic::div_mod::lemma_fundamental_div_mod(cells@.len() as int, cols as int);
            assert(rows * cols == cols * rows) by (nonlinear_arith);
        }
        Some(Grid { rows, cols, cells })
    }

    /// Number of rows.
    pub fn rows(&self) -> (r: usize)
        ensures
            r == self@.rows,
    {
        self.rows
    }

    /// Number of columns.
    pub fn cols(&self) -> (r: usize)
        ensures
            r == self@.cols,
    {
        self.cols
    }

    /// Number of cells.
    pub fn len(&self) -> (r: usize)
        ensures
            r == self@.cells.len(),
    {
        self.cells.len()
    }

    /// Whether cell `(x, y)` is alive; the caller keeps it in range.
    fn at(&self, x: usize, y: usize) -> (r: bool)
        requires
            self.wf(),
            in_bounds(self@, x as int, y as int),
        ensures
            r == alive_at(self@, x as int, y as int),
    {
        proof {
            lemma_index_in_range(self@, x as int, y as int);
        }
        let n: usize = self.cells.len();
        self.cells[x + y * self.cols]
    }

    /// Whether cell `(x, y)` is alive; `OutOfRange` where the position is
    /// off the grid.
    pub fn get(&self, x: usize, y: usize) -> (r: Result<bool, GridError>)
        requires
            self.wf(),
        ensures
            in_bounds(self@, x as int, y as int) ==> r == Ok::<bool, GridError>(
                alive_at(self@, x as int, y as int),
            ),
            !in_bounds(self@, x as int, y as int) ==> r == Err::<bool, GridError>(
                GridError::OutOfRange,
            ),
    {
        if x >= self.cols || y >= self.rows {
            return Err(GridError::OutOfRange);
        }
        Ok(self.at(x, y))
    }

    /// Whether the cell at linear index `i` is alive.
    pub fn cell(&self, i: usize) -> (r: bool)
        requires
            i < self@.cells.len(),
        ensures
            r == self@.cells[i as int],
    {
        self.cells[i]
    }

    /// Writes `value` at linear index `i`.
    pub fn set_cell(&mut self, i: usize, value: bool)
        requires
            i < old(self)@.cells.len(),
        ensures
            final(self)@ == (GridView { cells: old(self)@.cells.update(i as int, value), ..old(self)@ }),
    {
        self.cells.set(i, value);
    }

    /// Writes `value` into cell `(x, y)`; `OutOfRange`, with the grid
    /// unchanged, where the position is off the grid.
    pub fn set(&mut self, x: usize, y: usize, value: bool) -> (r: Result<(), GridError>)
        requires
            old(self).wf(),
        ensures
            final(self).wf(),
            in_bounds(old(self)@, x as int, y as int) ==> r is Ok && final(self)@ == (GridView {
                cells: old(self)@.cells.update(index_of(old(self)@.cols as int, x as int, y as int), value),
                ..old(self)@
            }),
            !in_bounds(old(self)@, x as int, y as int) ==> r == Err::<(), GridError>(
                GridError::OutOfRange,
            ) && final(self)@ == old(self)@,
    {
        if x >= self.cols || y >= self.rows {
            return Err(GridError::OutOfRange);
        }
        proof {
            lemma_index_in_range(self@, x as int, y as int);
        }
        let n: usize = self.cells.len();
        let i: usize = x + y * self.cols;
        self.set_cell(i, value);
        Ok(())
    }

    /// Flips cell `(x, y)` between alive and dead; `OutOfRange`, with the
    /// grid unchanged, where the position is off the grid.
    pub fn toggle(&mut self, x: usize, y: usize) -> (r: Result<(), GridError>)
        requires
            old(self).wf(),
        ensures
            final(self).wf(),
            in_bounds(old(self)@, x as int, y as int) ==> r is Ok && final(self)@ == (GridView {
                cells: old(self)@.cells.update(
                    index_of(old(self)@.cols as int, x as int, y as int),
                    !alive_at(old(self)@, x as int, y as int),
                ),
                ..old(self)@
            }),
            !in_bounds(old(self)@, x as int, y as int) ==> r == Err::<(), GridError>(
                GridError::OutOfRange,
            ) && final(self)@ == old(self)@,
    {
        if x >= self.cols || y >= self.rows {
            return Err(GridError::OutOfRange);
        }
        let v = self.at(x, y);
        self.set(x, y, !v)
    }

    /// Number of alive cells among the eight toroidally wrapped neighbors
    /// of `(x, y)`.
    #[verifier::rlimit(30)]
    pub fn neighbor_count(&self, x: usize, y: usize) -> (r: u8)
        requires
            self.wf(),
            in_bounds(self@, x as int, y as int),
        ensures
            r == live_neighbors(self@, x as int, y as int),
            r <= 8,
    {
        proof {
            lemma_wrap_step(x as int, self.cols as int);
            lemma_wrap_step(y as int, self.rows as int);
        }
        let xl: usize = if x == 0 { self.cols - 1 } else { x - 1 };
        let xr: usize = if x + 1 == self.cols { 0 } else { x + 1 };
        let yu: usize = if y == 0 { self.rows - 1 } else { y - 1 };
        let yd: usize = if y + 1 == self.rows { 0 } else { y + 1 };
        let ghost ns = neighbors(self@, x as int, y as int);
        assert(ns == seq![
            (xl as int, yu as int), (x as int, yu as int), (xr as int, yu as int),
            (xl as int, y as int), (xr as int, y as int),
            (xl as int, yd as int), (x as int, yd as int), (xr as int, yd as int),
        ]);
        let b0: u8 = if self.at(xl, yu) { 1 } else { 0 };
        let b1: u8 = if self.at(x, yu) { 1 } else { 0 };
        let b2: u8 = if self.at(xr, yu) { 1 } else { 0 };
        let b3: u8 = if self.at(xl, y) { 1 } else { 0 };
        let b4: u8 = if self.at(xr, y) { 1 } else { 0 };
        let b5: u8 = if self.at(xl, yd) { 1 } else { 0 };
        let b6: u8 = if self.at(x, yd) { 1 } else { 0 };
        let b7: u8 = if self.at(xr, yd) { 1 } else { 0 };
        b0 + b1 + b2 + b3 + b4 + b5 + b6 + b7
    }

    /// Sets every cell dead.
    pub fn clear(&mut self)
        requires
            old(self).wf(),
        ensures
            final(self).wf(),
            final(self)@ == dead_grid(old(self)@.rows, old(self)@.cols),
    {
        let n = self.cells.len();
        let mut i: usize = 0;
        while i < n
            invariant
                i <= n,
                n == self@.cells.len(),
                self@.rows == old(self)@.rows,
                self@.cols == old(self)@.cols,
                self@.cells.len() == old(self)@.cells.len(),
                forall|k: int| 0 <= k < i ==> !self@.cells[k],
            decreases n - i,
        {
            self.set_cell(i, false);
            i = i + 1;
        }
        assert(self@.cells =~= dead_grid(old(self)@.rows, old(self)@.cols).cells);
    }

    /// Overwrites every cell with the corresponding entry of `bits`.
    pub fn fill(&mut self, bits: &Vec<bool>)
        requires
            old(self).wf(),
            bits@.len() == old(self)@.cells.len(),
        ensures
            final(self)@ == (GridView { cells: bits@, ..old(self)@ }),
    {
        let n = self.cells.len();
        let mut i: usize = 0;
        while i < n
            invariant
                i <= n,
                n == self@.cells.len(),
                bits@.len() == n,
                self@.rows == old(self)@.rows,
                self@.cols == old(self)@.cols,
                forall|k: int| 0 <= k < i ==> self@.cells[k] == bits@[k],
            decreases n - i,
        {
            self.set_cell(i, bits[i]);
            i = i + 1;
        }
        assert(self@.cells =~= bits@);
    }

    /// Sets every cell independently to alive or dead at random, keeping the
    /// dimensions.
    pub fn randomize(&mut self)
        requires
            old(self).wf(),
        ensures
            final(self).wf(),
            final(self)@.same_shape(old(self)@),
    {
        let n = self.cells.len();
        let mut bits: Vec<bool> = Vec::with_capacity(n);
        let mut i: usize = 0;
        while i < n
            invariant
                i <= n,
                bits@.len() == i,
            decreases n - i,
        {
            bits.push(coin_flip());
            i = i + 1;
        }
        self.fill(&bits);
    }

    /// The cells in row-major order.
    pub fn cells(&self) -> (r: &Vec<bool>)
        ensures
            r@ == self@.cells,
    {
        &self.cells
    }
}

} // verus!
