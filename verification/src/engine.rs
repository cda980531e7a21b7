//! The generation engine: orchestrates one row task per active row under a
//! chosen scheduling mode, assembles the completed rows into the next grid,
//! commits it by swap, and feeds the cycle detector.
//!
//! Both scheduling modes produce bit-identical grids from the same snapshot:
//! every task's progress is a pure function of the snapshot and the work it
//! has been granted, so scheduling is purely a latency knob, never a
//! correctness knob.

use crate::cycle::{
    checksum, checksum_grid, observe_cursor, observe_entries, observe_hit, CycleDetector,
};
use crate::grid::{all_dead, border_dead, toggled, valid_dim, view_wf, Grid};
use crate::patterns::{
    apply_pattern, apply_random_pattern, catalog_cells, pattern_catalog, random_grid, stamped,
};
use crate::row_task::RowTask;
use crate::rules::{lemma_step_grid_pointwise, step_cell, step_grid};
use vstd::prelude::*;

verus! {

/// How row tasks are driven through one generation.
///
/// Parallel mode runs each task to completion independently; cooperative
/// mode interleaves all still-incomplete tasks round-robin, each resumption
/// bounded by `time_slice` units of work (one unit is one column).
#[derive(Clone, Copy, PartialEq, Eq, Structural, Debug)]
pub enum SchedulingMode {
    Parallel,
    Cooperative { time_slice: usize },
}

/// The total work the tasks of one generation still have to do: the number
/// of unprocessed columns, summed over all tasks.
pub open spec fn tasks_remaining(tasks: Seq<RowTask>, total: int) -> int
    decreases tasks.len(),
{
    if tasks.len() == 0 {
        0
    } else {
        tasks_remaining(tasks.drop_last(), total) + (total - tasks.last().next_col_spec())
    }
}

/// Remaining work is never negative while every cursor is in range.
proof fn lemma_remaining_nonneg(tasks: Seq<RowTask>, total: int)
    requires
        forall|i: int| 0 <= i < tasks.len() ==> (#[trigger] tasks[i]).next_col_spec() <= total,
    ensures
        tasks_remaining(tasks, total) >= 0,
    decreases tasks.len(),
{
    if tasks.len() > 0 {
        lemma_remaining_nonneg(tasks.drop_last(), total);
    }
}

/// Replacing one task changes the remaining work by exactly the difference
/// of that task's unprocessed columns.
proof fn lemma_remaining_update(tasks: Seq<RowTask>, i: int, t: RowTask, total: int)
    requires
        0 <= i < tasks.len(),
    ensures
        tasks_remaining(tasks.update(i, t), total) == tasks_remaining(tasks, total) - (total
            - tasks[i].next_col_spec()) + (total - t.next_col_spec()),
    decreases tasks.len(),
{
    let updated = tasks.update(i, t);
    if i == tasks.len() - 1 {
        assert(updated.drop_last() =~= tasks.drop_last());
    } else {
        assert(updated.drop_last() =~= tasks.drop_last().update(i, t));
        assert(updated.last() == tasks.last());
        lemma_remaining_update(tasks.drop_last(), i, t, total);
    }
}

/// The per-generation scheduler: creates one resumable task per active row,
/// drives them against one immutable snapshot, and assembles the completed
/// rows into the next grid.
pub struct GenerationProcessor {
    n: usize,
    time_budget_per_slice: usize,
}

impl GenerationProcessor {
    /// The playing-field size this processor schedules for.
    pub closed spec fn size_spec(&self) -> usize {
        self.n
    }

    /// The cooperative work budget granted per resumption.
    pub closed spec fn budget_spec(&self) -> usize {
        self.time_budget_per_slice
    }

    /// Well-formedness: a representable field size and a positive budget.
    pub open spec fn wf(&self) -> bool {
        valid_dim(self.size_spec()) && self.budget_spec() >= 1
    }

    /// A processor for an `n`-by-`n` field with the given work budget per
    /// cooperative time slice.
    pub fn new(n: usize, time_budget_per_slice: usize) -> (p: GenerationProcessor)
        requires
            valid_dim(n),
            time_budget_per_slice >= 1,
        ensures
            p.wf(),
            p.size_spec() == n,
            p.budget_spec() == time_budget_per_slice,
    {
        GenerationProcessor { n, time_budget_per_slice }
    }

    /// Change the cooperative work budget.
    pub fn set_time_budget(&mut self, new_budget: usize)
        requires
            old(self).wf(),
            new_budget >= 1,
        ensures
            final(self).wf(),
            final(self).size_spec() == old(self).size_spec(),
            final(self).budget_spec() == new_budget,
    {
        self.time_budget_per_slice = new_budget;
    }

    /// Assemble completed row buffers into the next grid.  Each buffer is
    /// moved into its row slot; the border rows are dead by construction and
    /// are never touched by task output.
    pub fn collect_results(&self, results: Vec<Vec<bool>>) -> (g: Grid)
        requires
            self.wf(),
            results@.len() == self.size_spec(),
            forall|i: int|
                0 <= i < results@.len() ==> (#[trigger] results@[i])@.len() == self.size_spec()
                    + 2,
            forall|i: int|
                0 <= i < results@.len() ==> !(#[trigger] results@[i])@[0] && !results@[i]@[
                    self.size_spec() + 1
                ],
        ensures
            g.wf(),
            g.size_spec() == self.size_spec(),
            forall|r: int| 1 <= r <= self.size_spec() ==> #[trigger] g@[r] == results@[r - 1]@,
            forall|c: int| 0 <= c < g@.len() ==> !(#[trigger] g@[0][c]) && !g@[g@.len() - 1][c],
    {
        let n = self.n;
        let total = n + 2;
        let mut rows: Vec<Vec<bool>> = Vec::new();
        rows.push(crate::grid::dead_row(total));
        let mut results = results;
        // Move buffers out back to front, so each row keeps its own
        // allocation.
        let mut taken: Vec<Vec<bool>> = Vec::new();
        let ghost results0 = results@;
        while results.len() > 0
            invariant
                taken@.len() + results@.len() == results0.len(),
                results@ == results0.take(results@.len() as int),
                forall|i: int|
                    0 <= i < taken@.len() ==> #[trigger] taken@[i] == results0[results0.len() - 1
                        - i],
            decreases results.len(),
        {
            let ghost pre = results@;
            let last = results.pop().unwrap();
            proof {
                assert(pre.take(pre.len() - 1) =~= results@);
            }
            taken.push(last);
        }
        let mut r: usize = 1;
        while r <= n
            invariant
                n == self.size_spec(),
                total == n + 2,
                n + 2 <= usize::MAX,
                1 <= r <= n + 1,
                taken@.len() == n + 1 - r,
                forall|i: int|
                    0 <= i < taken@.len() ==> #[trigger] taken@[i] == results0[n - 1 - i],
                results0.len() == n,
                rows@.len() == r,
                rows@[0]@ == Seq::new(total as nat, |i: int| false),
                forall|i: int| 1 <= i < r ==> #[trigger] rows@[i] == results0[i - 1],
            decreases n + 1 - r,
        {
            let ghost taken0 = taken@;
            let row = taken.pop().unwrap();
            proof {
                assert(row == taken0[taken0.len() - 1]);
                assert(row == results0[r - 1]);
            }
            rows.push(row);
            r += 1;
        }
        rows.push(crate::grid::dead_row(total));
        proof {
            assert(rows@.len() == n + 2);
            assert(rows@[(n + 1) as int]@ == Seq::new(total as nat, |i: int| false));
        }
        let g = Grid::from_rows(n, rows);
        proof {
            assert forall|r2: int| 1 <= r2 <= n implies #[trigger] g@[r2] == results0[r2 - 1]@ by {
                assert(g@[r2] == rows@[r2]@);
            }
            assert forall|c: int|
                0 <= c < g@.len() implies !(#[trigger] g@[0][c]) && !g@[g@.len() - 1][c] by {
                assert(g@[0] == rows@[0]@);
                assert(g@[g@.len() - 1] == rows@[(n + 1) as int]@);
            }
        }
        g
    }

    /// Run one generation in parallel style: every task is independent, reads
    /// only the shared snapshot, and writes only its own buffer, so all of
    /// them could run concurrently without locks; each is driven to
    /// completion here.
    pub fn process_generation_parallel(&self, snapshot: &Grid) -> (g: Grid)
        requires
            self.wf(),
            snapshot.wf(),
            snapshot.size_spec() == self.size_spec(),
        ensures
            g.wf(),
            g.size_spec() == self.size_spec(),
            g@ == step_grid(snapshot@),
    {
        proof {
            snapshot.lemma_wf();
        }
        let n = self.n;
        let mut results: Vec<Vec<bool>> = Vec::new();
        let mut row: usize = 1;
        while row <= n
            invariant
                self.wf(),
                snapshot.wf(),
                n == self.size_spec(),
                n == snapshot.size_spec(),
                n + 2 <= usize::MAX,
                1 <= row <= n + 1,
                results@.len() == row - 1,
                forall|i: int|
                    0 <= i < results@.len() ==> (#[trigger] results@[i])@.len() == n + 2,
                forall|i: int, c: int|
                    0 <= i < results@.len() && 0 <= c < n + 2 ==> (#[trigger] results@[i]@[c]) == (
                    1 <= c <= n && step_cell(snapshot@, i + 1, c)),
            decreases n + 1 - row,
        {
            proof {
                snapshot.lemma_wf();
            }
            let mut task = RowTask::new(row, snapshot);
            let done = task.resume(snapshot, n);
            assert(done);
            results.push(task.row_result());
            row += 1;
        }
        self.assemble_step_rows(snapshot, results)
    }

    /// Run one generation cooperatively: every still-incomplete task is
    /// granted the configured work budget, round-robin, until all rows
    /// report completion.  The interleaving never changes any task's output,
    /// only when it is produced.
    pub fn process_generation(&self, snapshot: &Grid) -> (g: Grid)
        requires
            self.wf(),
            snapshot.wf(),
            snapshot.size_spec() == self.size_spec(),
        ensures
            g.wf(),
            g.size_spec() == self.size_spec(),
            g@ == step_grid(snapshot@),
    {
        proof {
            snapshot.lemma_wf();
        }
        let n = self.n;
        let budget = self.time_budget_per_slice;
        let mut tasks: Vec<RowTask> = Vec::new();
        let mut row: usize = 1;
        while row <= n
            invariant
                snapshot.wf(),
                n == snapshot.size_spec(),
                n + 2 <= usize::MAX,
                1 <= row <= n + 1,
                tasks@.len() == row - 1,
                forall|i: int|
                    0 <= i < tasks@.len() ==> (#[trigger] tasks@[i]).wf(snapshot@)
                        && tasks@[i].row_spec() == i + 1,
            decreases n + 1 - row,
        {
            tasks.push(RowTask::new(row, snapshot));
            row += 1;
        }
        // Round-robin: each pass grants every incomplete task one budget's
        // worth of columns.
        while !Self::all_tasks_done(&tasks, snapshot)
            invariant
                snapshot.wf(),
                budget >= 1,
                n == snapshot.size_spec(),
                n + 2 <= usize::MAX,
                tasks@.len() == n,
                forall|i: int|
                    0 <= i < tasks@.len() ==> (#[trigger] tasks@[i]).wf(snapshot@)
                        && tasks@[i].row_spec() == i + 1,
            decreases tasks_remaining(tasks@, n + 1),
        {
            let ghost round0 = tasks@;
            proof {
                snapshot.lemma_wf();
                assert forall|i: int|
                    0 <= i < round0.len() implies (#[trigger] round0[i]).next_col_spec() <= n
                    + 1 by {
                    assert(round0[i].wf(snapshot@));
                }
                lemma_remaining_nonneg(round0, n + 1);
            }
            let mut i: usize = 0;
            while i < n
                invariant
                    snapshot.wf(),
                    budget >= 1,
                    n == snapshot.size_spec(),
                    n + 2 <= usize::MAX,
                    0 <= i <= n,
                    tasks@.len() == n,
                    round0.len() == n,
                    forall|i2: int|
                        0 <= i2 < tasks@.len() ==> (#[trigger] tasks@[i2]).wf(snapshot@)
                            && tasks@[i2].row_spec() == i2 + 1,
                    forall|j: int| i <= j < n ==> #[trigger] tasks@[j] == round0[j],
                    tasks_remaining(tasks@, n + 1) <= tasks_remaining(round0, n + 1),
                    (exists|j: int|
                        0 <= j < i && (#[trigger] round0[j]).next_col_spec() < n + 1)
                        ==> tasks_remaining(tasks@, n + 1) < tasks_remaining(round0, n + 1),
                decreases n - i,
            {
                let incomplete = !tasks[i].is_complete(snapshot);
                if incomplete {
                    let ghost pre = tasks@;
                    let task = &mut tasks[i];
                    task.resume(snapshot, budget);
                    proof {
                        lemma_remaining_update(pre, i as int, tasks@[i as int], n + 1);
                    }
                }
                i += 1;
            }
            proof {
                snapshot.lemma_wf();
                let j = choose|j: int|
                    0 <= j < round0.len() && !(#[trigger] round0[j]).is_done_spec(snapshot@);
                assert(round0[j].wf(snapshot@));
                assert(round0[j].next_col_spec() < n + 1);
                assert forall|i2: int|
                    0 <= i2 < tasks@.len() implies (#[trigger] tasks@[i2]).next_col_spec() <= n
                    + 1 by {
                    assert(tasks@[i2].wf(snapshot@));
                }
                lemma_remaining_nonneg(tasks@, n + 1);
            }
        }
        // All rows complete: gather the buffers.
        let mut results: Vec<Vec<bool>> = Vec::new();
        let mut i: usize = 0;
        while i < n
            invariant
                snapshot.wf(),
                n == snapshot.size_spec(),
                n + 2 <= usize::MAX,
                0 <= i <= n,
                tasks@.len() == n,
                forall|i2: int|
                    0 <= i2 < tasks@.len() ==> (#[trigger] tasks@[i2]).wf(snapshot@)
                        && tasks@[i2].row_spec() == i2 + 1 && tasks@[i2].is_done_spec(snapshot@),
                results@.len() == i,
                forall|i2: int|
                    0 <= i2 < results@.len() ==> (#[trigger] results@[i2])@.len() == n + 2,
                forall|i2: int, c: int|
                    0 <= i2 < results@.len() && 0 <= c < n + 2 ==> (#[trigger] results@[i2]@[c])
                        == (1 <= c <= n && step_cell(snapshot@, i2 + 1, c)),
            decreases n - i,
        {
            proof {
                snapshot.lemma_wf();
            }
            results.push(tasks[i].row_result());
            i += 1;
        }
        self.assemble_step_rows(snapshot, results)
    }

    /// Whether every task has processed its whole row.
    fn all_tasks_done(tasks: &Vec<RowTask>, snapshot: &Grid) -> (r: bool)
        requires
            snapshot.wf(),
            forall|i: int| 0 <= i < tasks@.len() ==> (#[trigger] tasks@[i]).wf(snapshot@),
        ensures
            r == forall|i: int|
                0 <= i < tasks@.len() ==> (#[trigger] tasks@[i]).is_done_spec(snapshot@),
    {
        let mut i: usize = 0;
        let len = tasks.len();
        while i < len
            invariant
                snapshot.wf(),
                i <= len,
                len == tasks@.len(),
                forall|j: int| 0 <= j < tasks@.len() ==> (#[trigger] tasks@[j]).wf(snapshot@),
                forall|j: int| 0 <= j < i ==> (#[trigger] tasks@[j]).is_done_spec(snapshot@),
            decreases len - i,
        {
            if !tasks[i].is_complete(snapshot) {
                return false;
            }
            i += 1;
        }
        true
    }

    /// Assemble row buffers that each hold one row's computed next states
    /// into the stepped grid.
    fn assemble_step_rows(&self, snapshot: &Grid, results: Vec<Vec<bool>>) -> (g: Grid)
        requires
            self.wf(),
            snapshot.wf(),
            snapshot.size_spec() == self.size_spec(),
            results@.len() == self.size_spec(),
            forall|i: int|
                0 <= i < results@.len() ==> (#[trigger] results@[i])@.len() == self.size_spec()
                    + 2,
            forall|i: int, c: int|
                0 <= i < results@.len() && 0 <= c < self.size_spec() + 2 ==> (
                #[trigger] results@[i]@[c]) == (1 <= c <= self.size_spec() && step_cell(
                    snapshot@,
                    i + 1,
                    c,
                )),
        ensures
            g.wf(),
            g.size_spec() == self.size_spec(),
            g@ == step_grid(snapshot@),
    {
        proof {
            snapshot.lemma_wf();
            assert forall|i: int|
                0 <= i < results@.len() implies !(#[trigger] results@[i])@[0] && !results@[i]@[
                self.size_spec() + 1
            ] by {
                assert(results@[i]@[0] == (1 <= 0 <= self.size_spec() && step_cell(
                    snapshot@,
                    i + 1,
                    0,
                )));
                assert(results@[i]@[self.size_spec() + 1] == (1 <= self.size_spec() + 1
                    <= self.size_spec() && step_cell(snapshot@, i + 1, self.size_spec() + 1)));
            }
        }
        let g = self.collect_results(results);
        proof {
            let n = self.size_spec() as int;
            g.lemma_wf();
            snapshot.lemma_wf();
            assert forall|r: int, c: int|
                1 <= r <= n && 1 <= c <= n implies #[trigger] g@[r][c] == step_cell(
                snapshot@,
                r,
                c,
            ) by {
                assert(g@[r] == results@[r - 1]@);
            }
            lemma_step_grid_pointwise(snapshot@, g@, n);
        }
        g
    }
}

/// The configuration error: a pattern index outside the catalog.  The caller
/// recovers by choosing another index; the engine state is left untouched.
#[derive(Clone, Copy, PartialEq, Eq, Structural, Debug)]
pub struct PatternNotFound;

/// What one committed generation reports back to the host: a read-only copy
/// of the committed grid, the generation count, and whether the cycle
/// detector flagged a repeat.
pub struct GenerationResult {
    pub grid_snapshot: Grid,
    pub generation_count: u32,
    pub cycle_detected: bool,
}

/// Whether `(r, c)` lies in the active area of an `n`-by-`n` field.
pub open spec fn in_active(n: int, r: int, c: int) -> bool {
    1 <= r <= n && 1 <= c <= n
}

/// The generation engine: exclusively owns the committed grid, advances it
/// one generation per `advance` call under the configured scheduling mode,
/// and auto-pauses when the cycle detector flags a repeat.
pub struct GameOfLife {
    grid: Grid,
    generation: u32,
    is_running: bool,
    mode: SchedulingMode,
    processor: GenerationProcessor,
    detector: CycleDetector,
    selected_pattern: usize,
}

impl GameOfLife {
    /// The playing-field size.
    pub closed spec fn size_spec(&self) -> usize {
        self.grid.size_spec()
    }

    /// The committed grid.
    pub closed spec fn grid_view(&self) -> Seq<Seq<bool>> {
        self.grid@
    }

    /// Committed generations since the last reset.
    pub closed spec fn generation_spec(&self) -> u32 {
        self.generation
    }

    /// Whether the host should keep calling `advance`.
    pub closed spec fn running_spec(&self) -> bool {
        self.is_running
    }

    /// The cycle detector's recorded checksums.
    pub closed spec fn history_spec(&self) -> Seq<u64> {
        self.detector.history_spec()
    }

    /// The cycle detector's insertion cursor.
    pub closed spec fn cursor_spec(&self) -> int {
        self.detector.cursor_spec()
    }

    /// The selected catalog index.
    pub closed spec fn selected_spec(&self) -> int {
        self.selected_pattern as int
    }

    /// The configured scheduling mode.
    pub closed spec fn mode_spec(&self) -> SchedulingMode {
        self.mode
    }

    /// The engine invariant: a well-formed grid (dead border included), a
    /// well-formed detector, a processor sized to the grid, and a positive
    /// cooperative budget.
    pub closed spec fn inv(&self) -> bool {
        &&& self.grid.wf()
        &&& self.detector.wf()
        &&& self.processor.wf()
        &&& self.processor.size_spec() == self.grid.size_spec()
        &&& match self.mode {
            SchedulingMode::Parallel => true,
            SchedulingMode::Cooperative { time_slice } => time_slice >= 1,
        }
    }

    /// A well-formed engine has a well-shaped grid view with a dead border.
    pub proof fn lemma_inv(&self)
        requires
            self.inv(),
        ensures
            valid_dim(self.size_spec()),
            view_wf(self.grid_view(), self.size_spec() as int),
            border_dead(self.grid_view()),
    {
        self.grid.lemma_wf();
    }

    /// A fresh engine: all-dead grid, generation 0, paused, empty history.
    pub fn new(n: usize, mode: SchedulingMode) -> (e: GameOfLife)
        requires
            valid_dim(n),
            (mode matches SchedulingMode::Cooperative { time_slice } ==> time_slice >= 1),
        ensures
            e.inv(),
            e.size_spec() == n,
            e.grid_view() == all_dead(n as int),
            e.generation_spec() == 0,
            !e.running_spec(),
            e.history_spec() == Seq::<u64>::empty(),
            e.cursor_spec() == 0,
            e.selected_spec() == 0,
            e.mode_spec() == mode,
    {
        let budget: usize = match mode {
            SchedulingMode::Parallel => 1,
            SchedulingMode::Cooperative { time_slice } => time_slice,
        };
        GameOfLife {
            grid: Grid::new(n),
            generation: 0,
            is_running: false,
            mode,
            processor: GenerationProcessor::new(n, budget),
            detector: CycleDetector::new(),
            selected_pattern: 0,
        }
    }

    /// Compute, commit and report one generation: take a snapshot, evaluate
    /// every row against it under the configured scheduling mode, swap the
    /// assembled grid in, bump the generation counter, and feed the new
    /// grid's checksum to the cycle detector — auto-pausing on a repeat, with
    /// the final state left inspectable.
    pub fn advance(&mut self) -> (r: GenerationResult)
        requires
            old(self).inv(),
            old(self).generation_spec() < u32::MAX,
        ensures
            final(self).inv(),
            final(self).size_spec() == old(self).size_spec(),
            final(self).grid_view() == step_grid(old(self).grid_view()),
            final(self).generation_spec() == old(self).generation_spec() + 1,
            r.cycle_detected == observe_hit(
                old(self).history_spec(),
                checksum_grid(step_grid(old(self).grid_view())),
            ),
            final(self).history_spec() == observe_entries(
                old(self).history_spec(),
                old(self).cursor_spec(),
                checksum_grid(step_grid(old(self).grid_view())),
            ),
            final(self).cursor_spec() == observe_cursor(
                old(self).history_spec(),
                old(self).cursor_spec(),
                checksum_grid(step_grid(old(self).grid_view())),
            ),
            final(self).running_spec() == (old(self).running_spec() && !r.cycle_detected),
            r.generation_count == final(self).generation_spec(),
            r.grid_snapshot.wf(),
            r.grid_snapshot.size_spec() == final(self).size_spec(),
            r.grid_snapshot@ == final(self).grid_view(),
            final(self).mode_spec() == old(self).mode_spec(),
            final(self).selected_spec() == old(self).selected_spec(),
    {
        // The committed grid is this tick's immutable snapshot; the next
        // grid is assembled aside and then swapped in whole, so no reader
        // ever sees a partially updated generation.
        let next = match self.mode {
            SchedulingMode::Parallel => self.processor.process_generation_parallel(&self.grid),
            SchedulingMode::Cooperative { time_slice } => {
                self.processor.set_time_budget(time_slice);
                self.processor.process_generation(&self.grid)
            },
        };
        self.grid = next;
        self.generation = self.generation + 1;
        let h = checksum(&self.grid);
        let cycle = self.detector.observe(h);
        if cycle {
            self.is_running = false;
        }
        GenerationResult {
            grid_snapshot: self.grid.clone(),
            generation_count: self.generation,
            cycle_detected: cycle,
        }
    }

    /// Reset the grid to all-dead, the generation counter to 0 and the cycle
    /// history to empty.  The running flag is left untouched: the caller
    /// decides whether to also stop.
    pub fn clear(&mut self)
        requires
            old(self).inv(),
        ensures
            final(self).inv(),
            final(self).size_spec() == old(self).size_spec(),
            final(self).grid_view() == all_dead(old(self).size_spec() as int),
            final(self).generation_spec() == 0,
            final(self).history_spec() == Seq::<u64>::empty(),
            final(self).cursor_spec() == 0,
            final(self).running_spec() == old(self).running_spec(),
            final(self).mode_spec() == old(self).mode_spec(),
            final(self).selected_spec() == old(self).selected_spec(),
    {
        self.grid.clear();
        self.generation = 0;
        self.detector.reset();
    }

    /// Replace the grid with catalog pattern `index` and reset the
    /// generation counter and cycle history.  An out-of-range index is the
    /// configuration error: it is returned to the caller and the engine
    /// state is left entirely unchanged.
    pub fn load_pattern(&mut self, index: usize) -> (r: Result<(), PatternNotFound>)
        requires
            old(self).inv(),
        ensures
            final(self).inv(),
            final(self).size_spec() == old(self).size_spec(),
            r is Ok <==> index < catalog_cells().len(),
            index < catalog_cells().len() ==> {
                &&& final(self).grid_view() == stamped(
                    catalog_cells()[index as int],
                    old(self).size_spec() as int,
                )
                &&& final(self).generation_spec() == 0
                &&& final(self).history_spec() == Seq::<u64>::empty()
                &&& final(self).cursor_spec() == 0
            },
            index >= catalog_cells().len() ==> *final(self) == *old(self),
            final(self).running_spec() == old(self).running_spec(),
            final(self).mode_spec() == old(self).mode_spec(),
            final(self).selected_spec() == old(self).selected_spec(),
    {
        let catalog = pattern_catalog();
        if index >= catalog.len() {
            return Err(PatternNotFound);
        }
        apply_pattern(&mut self.grid, &catalog[index]);
        self.generation = 0;
        self.detector.reset();
        Ok(())
    }

    /// Replace the grid with the deterministic pseudo-random pattern for
    /// `seed` and reset the generation counter and cycle history.  The same
    /// seed always yields the same grid.
    pub fn seed_random(&mut self, seed: u32)
        requires
            old(self).inv(),
        ensures
            final(self).inv(),
            final(self).size_spec() == old(self).size_spec(),
            final(self).grid_view() == random_grid(seed, old(self).size_spec() as int),
            final(self).generation_spec() == 0,
            final(self).history_spec() == Seq::<u64>::empty(),
            final(self).cursor_spec() == 0,
            final(self).running_spec() == old(self).running_spec(),
            final(self).mode_spec() == old(self).mode_spec(),
            final(self).selected_spec() == old(self).selected_spec(),
    {
        apply_random_pattern(&mut self.grid, seed);
        self.generation = 0;
        self.detector.reset();
    }

    /// Flip one active-area cell; a coordinate outside the active area
    /// (the border included) is a no-op, not an error.
    pub fn toggle_cell(&mut self, row: usize, col: usize)
        requires
            old(self).inv(),
        ensures
            final(self).inv(),
            final(self).size_spec() == old(self).size_spec(),
            in_active(old(self).size_spec() as int, row as int, col as int)
                ==> final(self).grid_view() == toggled(
                old(self).grid_view(),
                row as int,
                col as int,
            ),
            !in_active(old(self).size_spec() as int, row as int, col as int) ==> *final(self)
                == *old(self),
            final(self).generation_spec() == old(self).generation_spec(),
            final(self).history_spec() == old(self).history_spec(),
            final(self).cursor_spec() == old(self).cursor_spec(),
            final(self).running_spec() == old(self).running_spec(),
            final(self).mode_spec() == old(self).mode_spec(),
            final(self).selected_spec() == old(self).selected_spec(),
    {
        let n = self.grid.size();
        if 1 <= row && row <= n && 1 <= col && col <= n {
            proof {
                self.grid.lemma_wf();
            }
            let cur = self.grid.get(row, col);
            self.grid.set_active(row, col, !cur);
        }
    }

    /// Replace the grid with the pseudo-random pattern seeded by the current
    /// generation count, and reset the counter and cycle history.
    pub fn apply_random_pattern_async(&mut self)
        requires
            old(self).inv(),
        ensures
            final(self).inv(),
            final(self).size_spec() == old(self).size_spec(),
            final(self).grid_view() == random_grid(
                old(self).generation_spec(),
                old(self).size_spec() as int,
            ),
            final(self).generation_spec() == 0,
            final(self).history_spec() == Seq::<u64>::empty(),
            final(self).cursor_spec() == 0,
            final(self).running_spec() == old(self).running_spec(),
            final(self).mode_spec() == old(self).mode_spec(),
            final(self).selected_spec() == old(self).selected_spec(),
    {
        let seed = self.generation;
        self.seed_random(seed);
    }

    /// Flip one active-area cell; out-of-range coordinates are a no-op.
    pub fn toggle_cell_async(&mut self, row: usize, col: usize)
        requires
            old(self).inv(),
        ensures
            final(self).inv(),
            final(self).size_spec() == old(self).size_spec(),
            in_active(old(self).size_spec() as int, row as int, col as int)
                ==> final(self).grid_view() == toggled(
                old(self).grid_view(),
                row as int,
                col as int,
            ),
            !in_active(old(self).size_spec() as int, row as int, col as int) ==> *final(self)
                == *old(self),
            final(self).generation_spec() == old(self).generation_spec(),
            final(self).history_spec() == old(self).history_spec(),
            final(self).cursor_spec() == old(self).cursor_spec(),
            final(self).running_spec() == old(self).running_spec(),
            final(self).mode_spec() == old(self).mode_spec(),
            final(self).selected_spec() == old(self).selected_spec(),
    {
        self.toggle_cell(row, col);
    }

    /// A read-only copy of the committed grid, for rendering: never a live
    /// reference into the engine's own buffers.
    pub fn snapshot(&self) -> (g: Grid)
        requires
            self.inv(),
        ensures
            g.wf(),
            g.size_spec() == self.size_spec(),
            g@ == self.grid_view(),
    {
        self.grid.clone()
    }

    /// Read one cell of the committed grid.
    pub fn cell(&self, row: usize, col: usize) -> (b: bool)
        requires
            self.inv(),
            row < self.size_spec() + 2,
            col < self.size_spec() + 2,
        ensures
            b == self.grid_view()[row as int][col as int],
    {
        proof {
            self.grid.lemma_wf();
        }
        self.grid.get(row, col)
    }

    /// The playing-field size.
    pub fn size(&self) -> (r: usize)
        ensures
            r == self.size_spec(),
    {
        self.grid.size()
    }

    /// Committed generations since the last reset.
    pub fn generation(&self) -> (r: u32)
        ensures
            r == self.generation_spec(),
    {
        self.generation
    }

    /// Whether the host should keep calling `advance`.
    pub fn running(&self) -> (r: bool)
        ensures
            r == self.running_spec(),
    {
        self.is_running
    }

    /// Start or pause automatic progression: the host owns tick timing.
    pub fn set_running(&mut self, running: bool)
        requires
            old(self).inv(),
        ensures
            final(self).inv(),
            final(self).running_spec() == running,
            final(self).size_spec() == old(self).size_spec(),
            final(self).grid_view() == old(self).grid_view(),
            final(self).generation_spec() == old(self).generation_spec(),
            final(self).history_spec() == old(self).history_spec(),
            final(self).cursor_spec() == old(self).cursor_spec(),
            final(self).mode_spec() == old(self).mode_spec(),
            final(self).selected_spec() == old(self).selected_spec(),
    {
        self.is_running = running;
    }

    /// The configured scheduling mode.
    pub fn mode(&self) -> (m: SchedulingMode)
        ensures
            m == self.mode_spec(),
    {
        self.mode
    }

    /// Reconfigure the scheduling mode; a cooperative time slice must grant
    /// at least one unit of work.
    pub fn set_mode(&mut self, mode: SchedulingMode)
        requires
            old(self).inv(),
            (mode matches SchedulingMode::Cooperative { time_slice } ==> time_slice >= 1),
        ensures
            final(self).inv(),
            final(self).mode_spec() == mode,
            final(self).size_spec() == old(self).size_spec(),
            final(self).grid_view() == old(self).grid_view(),
            final(self).generation_spec() == old(self).generation_spec(),
            final(self).history_spec() == old(self).history_spec(),
            final(self).cursor_spec() == old(self).cursor_spec(),
            final(self).running_spec() == old(self).running_spec(),
            final(self).selected_spec() == old(self).selected_spec(),
    {
        self.mode = mode;
    }

    /// The selected catalog index.
    pub fn selected_pattern(&self) -> (r: usize)
        ensures
            r == self.selected_spec(),
    {
        self.selected_pattern
    }

    /// Select a catalog index; any value is accepted, and an out-of-range
    /// one simply makes `apply_selected_pattern` a no-op.
    pub fn set_selected_pattern(&mut self, index: usize)
        requires
            old(self).inv(),
        ensures
            final(self).inv(),
            final(self).selected_spec() == index,
            final(self).size_spec() == old(self).size_spec(),
            final(self).grid_view() == old(self).grid_view(),
            final(self).generation_spec() == old(self).generation_spec(),
            final(self).history_spec() == old(self).history_spec(),
            final(self).cursor_spec() == old(self).cursor_spec(),
            final(self).running_spec() == old(self).running_spec(),
            final(self).mode_spec() == old(self).mode_spec(),
    {
        self.selected_pattern = index;
    }
}

impl Default for GameOfLife {
    /// The reference configuration: a 50-by-50 field stepped cooperatively
    /// with a small work budget per time slice.
    fn default() -> (e: Self)
        ensures
            e.inv(),
            e.size_spec() == 50,
            e.grid_view() == all_dead(50),
            e.generation_spec() == 0,
            !e.running_spec(),
            e.history_spec() == Seq::<u64>::empty(),
            e.cursor_spec() == 0,
            e.selected_spec() == 0,
            e.mode_spec() == (SchedulingMode::Cooperative { time_slice: 2 }),
    {
        GameOfLife::new(50, SchedulingMode::Cooperative { time_slice: 2 })
    }
}

/// The engine operations a host shell drives the simulation through.  The
/// spec members expose the implementor's state abstractly, so every method's
/// contract can say exactly what it computes and changes.
pub trait GameOfLifeInterface {
    /// The implementor's invariant.
    spec fn gol_inv(&self) -> bool;

    /// The playing-field size.
    spec fn gol_size(&self) -> int;

    /// The committed grid.
    spec fn gol_grid(&self) -> Seq<Seq<bool>>;

    /// Committed generations since the last reset.
    spec fn gol_generation(&self) -> u32;

    /// Whether the host should keep advancing.
    spec fn gol_running(&self) -> bool;

    /// The cycle detector's recorded checksums.
    spec fn gol_history(&self) -> Seq<u64>;

    /// The cycle detector's insertion cursor.
    spec fn gol_cursor(&self) -> int;

    /// The selected catalog index.
    spec fn gol_selected(&self) -> int;

    /// Compute and commit one generation, then feed the new grid's checksum
    /// to the cycle detector, pausing on a repeat.
    fn update_generation(&mut self)
        requires
            old(self).gol_inv(),
            old(self).gol_generation() < u32::MAX,
        ensures
            final(self).gol_inv(),
            final(self).gol_size() == old(self).gol_size(),
            final(self).gol_grid() == step_grid(old(self).gol_grid()),
            final(self).gol_generation() == old(self).gol_generation() + 1,
            final(self).gol_history() == observe_entries(
                old(self).gol_history(),
                old(self).gol_cursor(),
                checksum_grid(step_grid(old(self).gol_grid())),
            ),
            final(self).gol_cursor() == observe_cursor(
                old(self).gol_history(),
                old(self).gol_cursor(),
                checksum_grid(step_grid(old(self).gol_grid())),
            ),
            final(self).gol_running() == (old(self).gol_running() && !observe_hit(
                old(self).gol_history(),
                checksum_grid(step_grid(old(self).gol_grid())),
            )),
            final(self).gol_selected() == old(self).gol_selected(),
    ;

    /// The stable checksum of the committed grid's active area.
    fn hash_grid(&self) -> (h: u64)
        requires
            self.gol_inv(),
        ensures
            h == checksum_grid(self.gol_grid()),
    ;

    /// Observe the committed grid's checksum: true iff it is already in the
    /// history; otherwise it is recorded.
    fn check_for_cycle(&mut self) -> (cycle: bool)
        requires
            old(self).gol_inv(),
        ensures
            final(self).gol_inv(),
            final(self).gol_size() == old(self).gol_size(),
            final(self).gol_grid() == old(self).gol_grid(),
            final(self).gol_generation() == old(self).gol_generation(),
            final(self).gol_running() == old(self).gol_running(),
            final(self).gol_selected() == old(self).gol_selected(),
            cycle == observe_hit(old(self).gol_history(), checksum_grid(old(self).gol_grid())),
            final(self).gol_history() == observe_entries(
                old(self).gol_history(),
                old(self).gol_cursor(),
                checksum_grid(old(self).gol_grid()),
            ),
            final(self).gol_cursor() == observe_cursor(
                old(self).gol_history(),
                old(self).gol_cursor(),
                checksum_grid(old(self).gol_grid()),
            ),
    ;

    /// Reset the grid, the generation counter and the cycle history.
    fn clear_grid(&mut self)
        requires
            old(self).gol_inv(),
        ensures
            final(self).gol_inv(),
            final(self).gol_size() == old(self).gol_size(),
            final(self).gol_grid() == all_dead(old(self).gol_size()),
            final(self).gol_generation() == 0,
            final(self).gol_history() == Seq::<u64>::empty(),
            final(self).gol_cursor() == 0,
            final(self).gol_running() == old(self).gol_running(),
            final(self).gol_selected() == old(self).gol_selected(),
    ;

    /// Stamp the selected catalog pattern onto a cleared grid; an
    /// out-of-range selection changes nothing.
    fn apply_selected_pattern(&mut self)
        requires
            old(self).gol_inv(),
        ensures
            final(self).gol_inv(),
            final(self).gol_size() == old(self).gol_size(),
            final(self).gol_running() == old(self).gol_running(),
            final(self).gol_selected() == old(self).gol_selected(),
            old(self).gol_selected() < catalog_cells().len() ==> {
                &&& final(self).gol_grid() == stamped(
                    catalog_cells()[old(self).gol_selected()],
                    old(self).gol_size(),
                )
                &&& final(self).gol_generation() == 0
                &&& final(self).gol_history() == Seq::<u64>::empty()
                &&& final(self).gol_cursor() == 0
            },
            old(self).gol_selected() >= catalog_cells().len() ==> {
                &&& final(self).gol_grid() == old(self).gol_grid()
                &&& final(self).gol_generation() == old(self).gol_generation()
                &&& final(self).gol_history() == old(self).gol_history()
                &&& final(self).gol_cursor() == old(self).gol_cursor()
            },
    ;

    /// Check the border-dead invariant at run time; on a well-formed engine
    /// the check always passes, and that it does is proved.
    fn check_border_cells_dead(&self) -> (ok: bool)
        requires
            self.gol_inv(),
        ensures
            ok,
            border_dead(self.gol_grid()),
    ;
}

impl GameOfLifeInterface for GameOfLife {
    open spec fn gol_inv(&self) -> bool {
        self.inv()
    }

    open spec fn gol_size(&self) -> int {
        self.size_spec() as int
    }

    open spec fn gol_grid(&self) -> Seq<Seq<bool>> {
        self.grid_view()
    }

    open spec fn gol_generation(&self) -> u32 {
        self.generation_spec()
    }

    open spec fn gol_running(&self) -> bool {
        self.running_spec()
    }

    open spec fn gol_history(&self) -> Seq<u64> {
        self.history_spec()
    }

    open spec fn gol_cursor(&self) -> int {
        self.cursor_spec()
    }

    open spec fn gol_selected(&self) -> int {
        self.selected_spec()
    }

    fn update_generation(&mut self) {
        let _ = self.advance();
    }

    fn hash_grid(&self) -> (h: u64) {
        checksum(&self.grid)
    }

    fn check_for_cycle(&mut self) -> (cycle: bool) {
        let h = checksum(&self.grid);
        self.detector.observe(h)
    }

    fn clear_grid(&mut self) {
        self.clear();
    }

    fn apply_selected_pattern(&mut self) {
        let index = self.selected_pattern;
        let _ = self.load_pattern(index);
    }

    fn check_border_cells_dead(&self) -> (ok: bool) {
        proof {
            self.lemma_inv();
        }
        let n = self.grid.size();
        let total = n + 2;
        let mut i: usize = 0;
        while i < total
            invariant
                self.inv(),
                n == self.size_spec(),
                total == n + 2,
                n + 2 <= usize::MAX,
                i <= total,
            decreases total - i,
        {
            proof {
                self.lemma_inv();
            }
            if self.grid.get(0, i) {
                return false;
            }
            if self.grid.get(total - 1, i) {
                return false;
            }
            if self.grid.get(i, 0) {
                return false;
            }
            if self.grid.get(i, total - 1) {
                return false;
            }
            i += 1;
        }
        true
    }
}

} // verus!
