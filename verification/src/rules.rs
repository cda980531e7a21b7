//! Rule evaluation: the eight-neighbor Moore neighborhood and Conway's
//! survival/birth rule, together with the mathematical statement of what one
//! committed generation step produces.

use crate::grid::{border_dead, view_wf, Grid};
use vstd::prelude::*;

verus! {

/// 1 for a live cell, 0 for a dead one.
pub open spec fn cell_to_int(b: bool) -> int {
    if b {
        1
    } else {
        0
    }
}

/// The number of live cells among the eight Moore neighbors of active cell
/// `(r, c)`.  The sentinel border guarantees all eight reads are in bounds.
pub open spec fn neighbor_count(v: Seq<Seq<bool>>, r: int, c: int) -> int {
    cell_to_int(v[r - 1][c - 1]) + cell_to_int(v[r - 1][c]) + cell_to_int(v[r - 1][c + 1])
        + cell_to_int(v[r][c - 1]) + cell_to_int(v[r][c + 1]) + cell_to_int(v[r + 1][c - 1])
        + cell_to_int(v[r + 1][c]) + cell_to_int(v[r + 1][c + 1])
}

/// Conway's rule: a live cell survives with exactly 2 or 3 live neighbors; a
/// dead cell is born with exactly 3; every other combination is dead.
pub open spec fn next_cell(alive: bool, count: int) -> bool {
    count == 3 || (alive && count == 2)
}

/// The next state of active cell `(r, c)` given the snapshot `v`.
pub open spec fn step_cell(v: Seq<Seq<bool>>, r: int, c: int) -> bool {
    next_cell(v[r][c], neighbor_count(v, r, c))
}

/// One full generation step of a bordered grid: every active cell follows
/// Conway's rule against the snapshot `v`, and the border stays dead.
pub open spec fn step_grid(v: Seq<Seq<bool>>) -> Seq<Seq<bool>> {
    Seq::new(
        v.len(),
        |r: int|
            Seq::new(
                v.len(),
                |c: int|
                    if 1 <= r && r <= v.len() - 2 && 1 <= c && c <= v.len() - 2 {
                        step_cell(v, r, c)
                    } else {
                        false
                    },
            ),
    )
}

/// A generation step preserves the grid's shape and keeps the border dead.
pub proof fn lemma_step_grid_wf(v: Seq<Seq<bool>>, n: int)
    requires
        view_wf(v, n),
    ensures
        view_wf(step_grid(v), n),
        border_dead(step_grid(v)),
{
}

/// A grid of the right shape whose border is dead and whose every active
/// cell follows Conway's rule against the snapshot `v` is exactly `v`'s
/// generation step.
pub proof fn lemma_step_grid_pointwise(v: Seq<Seq<bool>>, g: Seq<Seq<bool>>, n: int)
    requires
        view_wf(v, n),
        view_wf(g, n),
        border_dead(g),
        forall|r: int, c: int|
            1 <= r <= n && 1 <= c <= n ==> #[trigger] g[r][c] == step_cell(v, r, c),
    ensures
        g == step_grid(v),
{
    assert(g =~~= step_grid(v));
}

/// Count the live Moore neighbors of active cell `(row, col)`.
pub fn count_live_neighbors(g: &Grid, row: usize, col: usize) -> (count: usize)
    requires
        g.wf(),
        1 <= row <= g.size_spec(),
        1 <= col <= g.size_spec(),
    ensures
        count == neighbor_count(g@, row as int, col as int),
        count <= 8,
{
    proof {
        g.lemma_wf();
    }
    let mut count: usize = 0;
    if g.get(row - 1, col - 1) {
        count += 1;
    }
    if g.get(row - 1, col) {
        count += 1;
    }
    if g.get(row - 1, col + 1) {
        count += 1;
    }
    if g.get(row, col - 1) {
        count += 1;
    }
    if g.get(row, col + 1) {
        count += 1;
    }
    if g.get(row + 1, col - 1) {
        count += 1;
    }
    if g.get(row + 1, col) {
        count += 1;
    }
    if g.get(row + 1, col + 1) {
        count += 1;
    }
    count
}

/// Conway's rule on one cell: survival on 2 or 3 neighbors, birth on 3.
pub fn next_cell_state(alive: bool, count: usize) -> (r: bool)
    ensures
        r == next_cell(alive, count as int),
{
    match (alive, count) {
        (true, 2) | (true, 3) => true,  // Survival
        (false, 3) => true,  // Birth
        _ => false,  // Death or stays dead
    }
}

} // verus!
