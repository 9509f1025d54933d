use vstd::prelude::*;
use crate::grid::{
    alive_at, in_bounds, index_of, lemma_index_in_range, lemma_wrap_step, live_neighbors, neighbors,
    wrap, GridView,
};

verus! {

/// The birth/survival rule: an alive cell stays alive with two or three
/// alive neighbors; a dead cell comes alive with exactly three.
pub open spec fn rule(alive: bool, n: nat) -> bool {
    if alive {
        n == 2 || n == 3
    } else {
        n == 3
    }
}

/// The next state of the cell at linear index `i`.
pub open spec fn next_cell(g: GridView, i: int) -> bool {
    rule(g.cells[i], live_neighbors(g, i % g.cols as int, i / g.cols as int))
}

/// The grid one generation after `g`: every cell follows the rule, reading
/// only `g`.
pub open spec fn generation(g: GridView) -> GridView {
    GridView { cells: Seq::new(g.cells.len(), |i: int| next_cell(g, i)), ..g }
}

/// The rule on a cell's state and its neighbor count. It is defined for every
/// state and every count.
pub fn next_state(alive: bool, n: u8) -> (r: bool)
    ensures
        r == rule(alive, n as nat),
{
    if alive {
        n == 2 || n == 3
    } else {
        n == 3
    }
}

/// The linear index of an in-range position maps back to that position.
pub proof fn lemma_index_position(g: GridView, x: int, y: int)
    requires
        g.wf(),
        in_bounds(g, x, y),
    ensures
        0 <= index_of(g.cols as int, x, y) < g.cells.len(),
        index_of(g.cols as int, x, y) % g.cols as int == x,
        index_of(g.cols as int, x, y) / g.cols as int == y,
{
    let c = g.cols as int;
    let i = index_of(c, x, y);
    lemma_index_in_range(g, x, y);
    assert(c * y == y * c) by (nonlinear_arith);
    vstd::arithmetic::div_mod::lemma_mod_multiples_vanish(y, x, c);
    vstd::arithmetic::div_mod::lemma_small_mod(x as nat, c as nat);
    vstd::arithmetic::div_mod::lemma_fundamental_div_mod(i, c);
    assert(i / c == y) by (nonlinear_arith)
        requires
            c > 0,
            i == c * (i / c) + x,
            i == x + c * y,
    ;
}

/// A cell of the next generation, by position: the rule applied to the
/// cell's state and its neighbor count in `g`.
pub proof fn lemma_generation_at(g: GridView, x: int, y: int)
    requires
        g.wf(),
        in_bounds(g, x, y),
    ensures
        generation(g).wf(),
        alive_at(generation(g), x, y) == rule(alive_at(g, x, y), live_neighbors(g, x, y)),
{
    lemma_index_position(g, x, y);
}

/// An alive cell with fewer than two alive neighbors is dead in the next
/// generation.
pub proof fn lemma_underpopulation(g: GridView, x: int, y: int)
    requires
        g.wf(),
        in_bounds(g, x, y),
        alive_at(g, x, y),
        live_neighbors(g, x, y) < 2,
    ensures
        !alive_at(generation(g), x, y),
{
    lemma_generation_at(g, x, y);
}

/// An alive cell with two or three alive neighbors is alive in the next
/// generation.
pub proof fn lemma_survival(g: GridView, x: int, y: int)
    requires
        g.wf(),
        in_bounds(g, x, y),
        alive_at(g, x, y),
        live_neighbors(g, x, y) == 2 || live_neighbors(g, x, y) == 3,
    ensures
        alive_at(generation(g), x, y),
{
    lemma_generation_at(g, x, y);
}

/// An alive cell with more than three alive neighbors is dead in the next
/// generation.
pub proof fn lemma_overpopulation(g: GridView, x: int, y: int)
    requires
        g.wf(),
        in_bounds(g, x, y),
        alive_at(g, x, y),
        live_neighbors(g, x, y) > 3,
    ensures
        !alive_at(generation(g), x, y),
{
    lemma_generation_at(g, x, y);
}

/// A dead cell is alive in the next generation exactly when it has three
/// alive neighbors.
pub proof fn lemma_birth(g: GridView, x: int, y: int)
    requires
        g.wf(),
        in_bounds(g, x, y),
        !alive_at(g, x, y),
    ensures
        alive_at(generation(g), x, y) <==> live_neighbors(g, x, y) == 3,
{
    lemma_generation_at(g, x, y);
}

/// Every neighbor of an in-range cell is itself in range, so a count never
/// reads outside the grid.
pub proof fn lemma_neighbors_in_range(g: GridView, x: int, y: int)
    requires
        g.wf(),
        in_bounds(g, x, y),
    ensures
        forall|k: int| 0 <= k < 8 ==> #[trigger] in_bounds(g, neighbors(g, x, y)[k].0, neighbors(g, x, y)[k].1),
{
    lemma_wrap_step(x, g.cols as int);
    lemma_wrap_step(y, g.rows as int);
}

/// The grid has no edge: the neighbors of the corner `(0, 0)` include the
/// cells of the last column and of the last row.
pub proof fn lemma_wraparound(g: GridView)
    requires
        g.wf(),
    ensures
        neighbors(g, 0, 0).contains((g.cols - 1, g.rows - 1)),
        neighbors(g, 0, 0).contains((g.cols - 1, 0int)),
        neighbors(g, 0, 0).contains((0int, g.rows - 1)),
        neighbors(g, 0, 0).contains((1int % g.cols as int, 0int)),
        neighbors(g, 0, 0).contains((0int, 1int % g.rows as int)),
{
    let ns = neighbors(g, 0, 0);
    lemma_wrap_step(0, g.cols as int);
    lemma_wrap_step(0, g.rows as int);
    reveal(wrap);
    assert(ns[0] == (g.cols - 1, g.rows - 1));
    assert(ns[3] == (g.cols - 1, 0int));
    assert(ns[1] == (0int, g.rows - 1));
    assert(ns[4] == (1int % g.cols as int, 0int));
    assert(ns[6] == (0int, 1int % g.rows as int));
}

} // verus!
