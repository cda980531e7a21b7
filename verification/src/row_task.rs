//! Row tasks: the transient, per-generation unit of computation.
//!
//! Each task evaluates the next state of one grid row against a read-only
//! snapshot of the committed grid, and owns the output buffer for that row —
//! no two tasks ever share a writable buffer, which is what keeps concurrent
//! or interleaved execution race-free without locking.  A task is resumable:
//! it records the next unprocessed column, makes progress under a bounded
//! work budget, and continues where it left off when resumed with the same
//! snapshot.

use crate::grid::{view_wf, Grid};
use crate::rules::{count_live_neighbors, next_cell_state, step_cell};
use vstd::prelude::*;

verus! {

/// A unit of computation for one grid row.  `result` is the task's private
/// output buffer; entries at columns `[1, next_col)` hold computed next
/// states, all other entries (the border included) are dead.
pub struct RowTask {
    row: usize,
    next_col: usize,
    result: Vec<bool>,
}

impl RowTask {
    /// The grid row whose next state the task computes.
    pub closed spec fn row_spec(&self) -> int {
        self.row as int
    }

    /// The leftmost column that still awaits computation.
    pub closed spec fn next_col_spec(&self) -> int {
        self.next_col as int
    }

    /// The task's output buffer.
    pub closed spec fn result_spec(&self) -> Seq<bool> {
        self.result@
    }

    /// Well-formedness with respect to the snapshot `v` the task reads: the
    /// row and cursor are in range, and the buffer holds exactly the computed
    /// next states below the cursor and dead cells everywhere else.
    pub open spec fn wf(&self, v: Seq<Seq<bool>>) -> bool {
        &&& view_wf(v, v.len() - 2)
        &&& 1 <= self.row_spec() <= v.len() - 2
        &&& 1 <= self.next_col_spec() <= v.len() - 1
        &&& self.result_spec().len() == v.len()
        &&& forall|c: int|
            0 <= c < v.len() ==> self.result_spec()[c] == (1 <= c < self.next_col_spec()
                && step_cell(v, self.row_spec(), c))
    }

    /// Whether the task has processed its whole row.
    pub open spec fn is_done_spec(&self, v: Seq<Seq<bool>>) -> bool {
        self.next_col_spec() == v.len() - 1
    }

    /// A fresh task for `row`, with nothing processed yet.
    pub fn new(row: usize, snapshot: &Grid) -> (t: RowTask)
        requires
            snapshot.wf(),
            1 <= row <= snapshot.size_spec(),
        ensures
            t.wf(snapshot@),
            t.row_spec() == row,
            t.next_col_spec() == 1,
    {
        proof {
            snapshot.lemma_wf();
        }
        let total = snapshot.size() + 2;
        let result = crate::grid::dead_row(total);
        RowTask { row, next_col: 1, result }
    }

    /// Whether the task has processed its whole row.
    pub fn is_complete(&self, snapshot: &Grid) -> (r: bool)
        requires
            snapshot.wf(),
            self.wf(snapshot@),
        ensures
            r == self.is_done_spec(snapshot@),
    {
        proof {
            snapshot.lemma_wf();
        }
        self.next_col == snapshot.size() + 1
    }

    /// Resume the task against the same snapshot with a bounded work budget:
    /// process columns, one unit of budget each, until the row completes or
    /// the budget runs out.  Returns whether the row is now complete.  The
    /// cursor always lands exactly `budget` columns further (or at the end of
    /// the row), so progress is a pure function of the starting state and the
    /// budget — which is what makes every schedule commit the same grid.
    pub fn resume(&mut self, snapshot: &Grid, budget: usize) -> (done: bool)
        requires
            snapshot.wf(),
            old(self).wf(snapshot@),
            budget >= 1,
        ensures
            final(self).wf(snapshot@),
            final(self).row_spec() == old(self).row_spec(),
            final(self).next_col_spec() == if old(self).next_col_spec() + budget <= snapshot@.len()
                - 1 {
                old(self).next_col_spec() + budget
            } else {
                snapshot@.len() - 1
            },
            done == final(self).is_done_spec(snapshot@),
    {
        proof {
            snapshot.lemma_wf();
        }
        let n = snapshot.size();
        let mut work: usize = 0;
        while self.next_col <= n && work < budget
            invariant
                snapshot.wf(),
                self.wf(snapshot@),
                n == snapshot.size_spec(),
                self.row_spec() == old(self).row_spec(),
                work <= budget,
                self.next_col_spec() == old(self).next_col_spec() + work,
                work < budget || self.next_col_spec() == old(self).next_col_spec() + budget,
            decreases budget - work,
        {
            proof {
                snapshot.lemma_wf();
            }
            let c = self.next_col;
            let count = count_live_neighbors(snapshot, self.row, c);
            let alive = snapshot.get(self.row, c);
            let v = next_cell_state(alive, count);
            let ghost pre = self.result@;
            self.result[c] = v;
            assert(self.result@ == pre.update(c as int, v));
            self.next_col = c + 1;
            work += 1;
        }
        self.next_col == n + 1
    }

    /// A copy of the task's output buffer.
    pub fn row_result(&self) -> (r: Vec<bool>)
        ensures
            r@ == self.result_spec(),
    {
        let mut r: Vec<bool> = Vec::new();
        let mut i: usize = 0;
        let len = self.result.len();
        while i < len
            invariant
                i <= len,
                len == self.result@.len(),
                r@.len() == i,
                forall|j: int| 0 <= j < i ==> r@[j] == self.result@[j],
            decreases len - i,
        {
            r.push(self.result[i]);
            i += 1;
        }
        assert(r@ =~= self.result@);
        r
    }
}

} // verus!
