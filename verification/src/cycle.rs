//! Cycle detection: a stable checksum of the grid's active area, and a
//! fixed-capacity rolling history of checksums.
//!
//! The detector is a heuristic, period-limited matcher: it can only flag
//! repeats whose period fits the history capacity, and a (rare) checksum
//! collision can flag a repeat that never happened.  It is explicitly not a
//! perfect cycle detector.

use crate::grid::Grid;
use vstd::prelude::*;

verus! {

/// How many checksums the rolling history keeps.
pub const CYCLE_HISTORY_CAPACITY: usize = 10;

/// Starting value of the checksum chain.
pub const CHECKSUM_OFFSET: u64 = 14695981039346656037;

/// Multiplier folded in for every cell of the checksum chain.
pub const CHECKSUM_PRIME: u64 = 1099511628211;

/// Fold one cell state into the checksum chain.
#[verifier::opaque]
pub open spec fn checksum_step(h: u64, b: bool) -> u64 {
    (h ^ (if b {
        1u64
    } else {
        0u64
    })).wrapping_mul(CHECKSUM_PRIME)
}

/// The checksum chain over columns `[1, col)` of one row, threaded onto `h0`.
pub open spec fn checksum_row_upto(h0: u64, row: Seq<bool>, col: int) -> u64
    decreases col,
{
    if col <= 1 {
        h0
    } else {
        checksum_step(checksum_row_upto(h0, row, col - 1), row[col - 1])
    }
}

/// The checksum chain over the active cells of rows `[1, row)` of the grid.
pub open spec fn checksum_rows_upto(v: Seq<Seq<bool>>, row: int) -> u64
    decreases row,
{
    if row <= 1 {
        CHECKSUM_OFFSET
    } else {
        checksum_row_upto(checksum_rows_upto(v, row - 1), v[row - 1], v.len() - 1)
    }
}

/// A stable hash of the active area's row-major boolean sequence, border
/// excluded: a pure function of the cell states, so equal grids always hash
/// alike.
pub open spec fn checksum_grid(v: Seq<Seq<bool>>) -> u64 {
    checksum_rows_upto(v, v.len() - 1)
}

/// One more column extends the row chain by one step.
proof fn lemma_checksum_row_step(h0: u64, row: Seq<bool>, col: int)
    requires
        1 <= col,
    ensures
        checksum_row_upto(h0, row, col + 1) == checksum_step(
            checksum_row_upto(h0, row, col),
            row[col],
        ),
{
}

/// One more row extends the grid chain by that row's full chain.
proof fn lemma_checksum_rows_step(v: Seq<Seq<bool>>, row: int)
    requires
        1 <= row,
    ensures
        checksum_rows_upto(v, row + 1) == checksum_row_upto(
            checksum_rows_upto(v, row),
            v[row],
            v.len() - 1,
        ),
{
}

/// Fold one cell state into the checksum chain.
fn checksum_cell(h: u64, b: bool) -> (r: u64)
    ensures
        r == checksum_step(h, b),
{
    proof {
        reveal(checksum_step);
    }
    (h ^ (if b {
        1u64
    } else {
        0u64
    })).wrapping_mul(CHECKSUM_PRIME)
}

/// The stable checksum of the grid's active area.
pub fn checksum(grid: &Grid) -> (h: u64)
    requires
        grid.wf(),
    ensures
        h == checksum_grid(grid@),
{
    proof {
        grid.lemma_wf();
    }
    let n = grid.size();
    let mut h: u64 = CHECKSUM_OFFSET;
    let mut row: usize = 1;
    while row <= n
        invariant
            grid.wf(),
            n == grid.size_spec(),
            n + 2 <= usize::MAX,
            1 <= row <= n + 1,
            h == checksum_rows_upto(grid@, row as int),
        decreases n + 1 - row,
    {
        let mut col: usize = 1;
        while col <= n
            invariant
                grid.wf(),
                n == grid.size_spec(),
                n + 2 <= usize::MAX,
                1 <= row <= n,
                1 <= col <= n + 1,
                h == checksum_row_upto(
                    checksum_rows_upto(grid@, row as int),
                    grid@[row as int],
                    col as int,
                ),
            decreases n + 1 - col,
        {
            proof {
                grid.lemma_wf();
                lemma_checksum_row_step(
                    checksum_rows_upto(grid@, row as int),
                    grid@[row as int],
                    col as int,
                );
            }
            h = checksum_cell(h, grid.get(row, col));
            col += 1;
        }
        proof {
            grid.lemma_wf();
            lemma_checksum_rows_step(grid@, row as int);
        }
        row += 1;
    }
    h
}

/// Whether observing `h` flags a cycle: it is already somewhere in the
/// history.
pub open spec fn observe_hit(entries: Seq<u64>, h: u64) -> bool {
    entries.contains(h)
}

/// The history after observing `h`: unchanged on a hit; otherwise `h` is
/// appended while the history still grows, and overwrites the entry at the
/// cursor once the history is full.
pub open spec fn observe_entries(entries: Seq<u64>, cursor: int, h: u64) -> Seq<u64> {
    if entries.contains(h) {
        entries
    } else if entries.len() < CYCLE_HISTORY_CAPACITY {
        entries.push(h)
    } else {
        entries.update(cursor, h)
    }
}

/// The cursor after observing `h`: unchanged on a hit, otherwise advanced
/// one slot, wrapping at the capacity.
pub open spec fn observe_cursor(entries: Seq<u64>, cursor: int, h: u64) -> int {
    if entries.contains(h) {
        cursor
    } else if cursor + 1 == CYCLE_HISTORY_CAPACITY {
        0
    } else {
        cursor + 1
    }
}

/// A rolling fixed-capacity history of grid checksums with an insertion
/// cursor.  It grows until full, then overwrites the oldest entry.
pub struct CycleDetector {
    history: Vec<u64>,
    cursor: usize,
}

impl CycleDetector {
    /// The recorded checksums, oldest slots first.
    pub closed spec fn history_spec(&self) -> Seq<u64> {
        self.history@
    }

    /// The slot the next unseen checksum will take once the history is full.
    pub closed spec fn cursor_spec(&self) -> int {
        self.cursor as int
    }

    /// Well-formedness: the history never exceeds its capacity, the cursor
    /// stays in range, and while the history still grows the cursor sits at
    /// its end.
    pub closed spec fn wf(&self) -> bool {
        &&& self.history@.len() <= CYCLE_HISTORY_CAPACITY
        &&& 0 <= self.cursor < CYCLE_HISTORY_CAPACITY
        &&& self.history@.len() < CYCLE_HISTORY_CAPACITY ==> self.cursor == self.history@.len()
    }

    /// An empty history.
    pub fn new() -> (d: CycleDetector)
        ensures
            d.wf(),
            d.history_spec() == Seq::<u64>::empty(),
            d.cursor_spec() == 0,
    {
        CycleDetector { history: Vec::new(), cursor: 0 }
    }

    /// Whether `h` is already in the history.
    fn contains(&self, h: u64) -> (r: bool)
        ensures
            r == self.history_spec().contains(h),
    {
        let mut i: usize = 0;
        let len = self.history.len();
        while i < len
            invariant
                i <= len,
                len == self.history@.len(),
                forall|j: int| 0 <= j < i ==> self.history@[j] != h,
            decreases len - i,
        {
            if self.history[i] == h {
                assert(self.history@[i as int] == h);
                return true;
            }
            i += 1;
        }
        false
    }

    /// Observe one committed generation's checksum.  Returns true iff the
    /// checksum already exists anywhere in the history (a cycle, up to hash
    /// collisions); otherwise records it, overwriting the oldest entry once
    /// the history is full.
    pub fn observe(&mut self, h: u64) -> (cycle: bool)
        requires
            old(self).wf(),
        ensures
            final(self).wf(),
            cycle == observe_hit(old(self).history_spec(), h),
            final(self).history_spec() == observe_entries(
                old(self).history_spec(),
                old(self).cursor_spec(),
                h,
            ),
            final(self).cursor_spec() == observe_cursor(
                old(self).history_spec(),
                old(self).cursor_spec(),
                h,
            ),
    {
        if self.contains(h) {
            return true;
        }
        if self.history.len() < CYCLE_HISTORY_CAPACITY {
            self.history.push(h);
        } else {
            self.history[self.cursor] = h;
        }
        self.cursor = if self.cursor + 1 == CYCLE_HISTORY_CAPACITY {
            0
        } else {
            self.cursor + 1
        };
        false
    }

    /// Forget the whole history and rewind the cursor: invoked on every grid
    /// reset, pattern load, or random reseed.
    pub fn reset(&mut self)
        ensures
            final(self).wf(),
            final(self).history_spec() == Seq::<u64>::empty(),
            final(self).cursor_spec() == 0,
    {
        self.history = Vec::new();
        self.cursor = 0;
    }
}

} // verus!
