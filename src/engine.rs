use vstd::prelude::*;
use rayon::iter::{IntoParallelIterator, ParallelIterator};
use crate::grid::{lemma_position_of_index, Grid, GridView};
use crate::rules::{generation, next_cell, next_state};

verus! {

/// The next state of the cell at linear index `i` of `prev`.
pub fn cell_next(prev: &Grid, i: usize) -> (r: bool)
    requires
        prev.wf(),
        i < prev@.cells.len(),
    ensures
        r == next_cell(prev@, i as int),
{
    proof {
        lemma_position_of_index(prev@, i as int);
    }
    let cols = prev.cols();
    let n = prev.neighbor_count(i % cols, i / cols);
    next_state(prev.cell(i), n)
}

/// Writes the next state of every cell with index in `lo..hi` into `next`,
/// reading only `prev`; every other cell of `next` keeps its value.
pub fn step_range(prev: &Grid, next: &mut Grid, lo: usize, hi: usize)
    requires
        prev.wf(),
        old(next)@.same_shape(prev@),
        lo <= hi <= prev@.cells.len(),
    ensures
        final(next)@.same_shape(prev@),
        forall|i: int| lo <= i < hi ==> final(next)@.cells[i] == next_cell(prev@, i),
        forall|i: int|
            0 <= i < prev@.cells.len() && !(lo <= i < hi) ==> final(next)@.cells[i] == old(
                next,
            )@.cells[i],
{
    let mut i: usize = lo;
    while i < hi
        invariant
            lo <= i <= hi,
            hi <= prev@.cells.len(),
            prev.wf(),
            next@.same_shape(prev@),
            forall|j: int| lo <= j < i ==> next@.cells[j] == next_cell(prev@, j),
            forall|j: int|
                0 <= j < prev@.cells.len() && !(lo <= j < i) ==> next@.cells[j] == old(
                    next,
                )@.cells[j],
        decreases hi - i,
    {
        let v = cell_next(prev, i);
        next.set_cell(i, v);
        i = i + 1;
    }
}

/// `b` splits `0..len` into `workers` contiguous ranges: worker `k` owns
/// `b[k]..b[k + 1]`.
pub open spec fn is_partition(b: Seq<usize>, len: nat, workers: nat) -> bool {
    &&& b.len() == workers + 1
    &&& b[0] == 0
    &&& b[workers as int] == len
    &&& forall|j: int, k: int| 0 <= j <= k < b.len() ==> b[j] <= b[k]
}

/// Worker `k` of the partition `b` owns index `i`.
pub open spec fn owns(b: Seq<usize>, k: int, i: int) -> bool {
    0 <= k < b.len() - 1 && b[k] <= i < b[k + 1]
}

/// Bounds that split `len` cells among `workers` workers in contiguous
/// ranges whose sizes differ by at most one.
pub fn partition(len: usize, workers: usize) -> (b: Vec<usize>)
    requires
        workers > 0,
    ensures
        is_partition(b@, len as nat, workers as nat),
        forall|k: int|
            0 <= k < workers ==> #[trigger] b@[k + 1] - b@[k] == len / workers || b@[k + 1] - b@[k]
                == len / workers + 1,
{
    let base: usize = len / workers;
    let rem: usize = len % workers;
    proof {
        vstd::arithmetic::div_mod::lemma_fundamental_div_mod(len as int, workers as int);
    }
    let mut b: Vec<usize> = Vec::new();
    b.push(0);
    let mut k: usize = 0;
    let mut at: usize = 0;
    while k < workers
        invariant
            k <= workers,
            base == len / workers,
            rem == len % workers,
            rem < workers,
            len == workers * base + rem,
            b@.len() == k + 1,
            b@[0] == 0,
            b@[k as int] == at,
            at == k * base + (if k < rem { k } else { rem }),
            forall|j: int, m: int| 0 <= j <= m < b@.len() ==> b@[j] <= b@[m],
            forall|m: int|
                0 <= m < k ==> #[trigger] b@[m + 1] - b@[m] == base || b@[m + 1] - b@[m] == base
                    + 1,
        decreases workers - k,
    {
        proof {
            assert((k + 1) * base <= workers * base && (k + 1) * base == k * base + base)
                by (nonlinear_arith)
                requires
                    k + 1 <= workers,
            ;
        }
        let size: usize = if k < rem { base + 1 } else { base };
        at = at + size;
        b.push(at);
        k = k + 1;
    }
    b
}

/// Every index below `b[m]` is owned by some worker before `m`.
proof fn lemma_owner_below(b: Seq<usize>, len: nat, workers: nat, i: int, m: int)
    requires
        is_partition(b, len, workers),
        0 <= m <= workers,
        0 <= i < b[m],
    ensures
        exists|k: int| 0 <= k < m && owns(b, k, i),
    decreases m,
{
    if m > 0 {
        if b[m - 1] <= i {
            assert(owns(b, m - 1, i));
        } else {
            lemma_owner_below(b, len, workers, i, m - 1);
        }
    }
}

/// Each index of `0..len` is owned by exactly one worker: the ranges leave
/// no gap and do not overlap.
pub proof fn lemma_partition_exact(b: Seq<usize>, len: nat, workers: nat, i: int)
    requires
        is_partition(b, len, workers),
        0 <= i < len,
    ensures
        exists|k: int| owns(b, k, i),
        forall|k1: int, k2: int| owns(b, k1, i) && owns(b, k2, i) ==> k1 == k2,
{
    lemma_owner_below(b, len, workers, i, workers as int);
    assert forall|k1: int, k2: int| owns(b, k1, i) && owns(b, k2, i) implies k1 == k2 by {
        if k1 < k2 {
            assert(b[k1 + 1] <= b[k2]);
        } else if k2 < k1 {
            assert(b[k2 + 1] <= b[k1]);
        }
    }
}

/// Computes the next generation of `prev` into `next` range by range, one
/// range per worker of a partition into `workers` ranges. `prev` is only
/// read.
pub fn step_partitioned(prev: &Grid, next: &mut Grid, workers: usize)
    requires
        prev.wf(),
        old(next)@.same_shape(prev@),
        workers > 0,
    ensures
        final(next)@ == generation(prev@),
{
    let len = prev.len();
    let b = partition(len, workers);
    let mut k: usize = 0;
    while k < workers
        invariant
            k <= workers,
            prev.wf(),
            len == prev@.cells.len(),
            is_partition(b@, len as nat, workers as nat),
            next@.same_shape(prev@),
            forall|i: int| 0 <= i < b@[k as int] ==> next@.cells[i] == next_cell(prev@, i),
        decreases workers - k,
    {
        assert(b@[k as int] <= b@[k + 1]);
        step_range(prev, next, b[k], b[k + 1]);
        k = k + 1;
    }
    assert(next@.cells =~= generation(prev@).cells);
}

/// Relies on rayon's `into_par_iter` over the range `0..n`, `map` and
/// `collect` into a `Vec`: an indexed parallel iterator collects one result
/// per index, in index order. Each result comes from `cell_next`.
#[verifier::external_body]
fn par_next_cells(prev: &Grid) -> (r: Vec<bool>)
    requires
        prev.wf(),
    ensures
        r@.len() == prev@.cells.len(),
        forall|i: int| 0 <= i < r@.len() ==> r@[i] == next_cell(prev@, i),
{
    (0..prev.len()).into_par_iter().map(|i| cell_next(prev, i)).collect()
}

/// The next generation of `prev`, computed by the worker pool; `prev` is
/// only read.
pub fn next_generation(prev: &Grid) -> (r: Grid)
    requires
        prev.wf(),
    ensures
        r.wf(),
        r@ == generation(prev@),
{
    let cells = par_next_cells(prev);
    assert(cells@ =~= generation(prev@).cells);
    // The cells have the shape of `prev`, so the `None` arm is never taken.
    match Grid::from_cells(prev.rows(), prev.cols(), cells) {
        Some(g) => g,
        None => Grid::new(prev.rows(), prev.cols()),
    }
}

} // verus!
