//! The engine's global guarantees, stated and proved as theorems over the
//! contracts of the public operations.

use crate::engine::GameOfLife;
use crate::grid::{all_dead, border_dead, toggled, view_wf};
use crate::patterns::random_grid;
use crate::rules::step_grid;
use vstd::prelude::*;

verus! {

/// Seeding is deterministic: for every grid size and every seed, two grids
/// produced by `seed_random` with the same seed are identical, cell for
/// cell.  (`seed_random` ensures its grid equals `random_grid(seed, n)`, a
/// pure function of the seed and the size alone.)
pub proof fn lemma_seed_random_deterministic(
    seed: u32,
    n: int,
    g1: Seq<Seq<bool>>,
    g2: Seq<Seq<bool>>,
)
    requires
        g1 == random_grid(seed, n),
        g2 == random_grid(seed, n),
    ensures
        g1 == g2,
{
}

/// Every committed grid has a dead border: the engine invariant, which every
/// public operation establishes and preserves, contains it — so it holds
/// after every tick of every run.
pub proof fn lemma_committed_border_dead(e: &GameOfLife)
    requires
        e.inv(),
    ensures
        border_dead(e.grid_view()),
{
    e.lemma_inv();
}

/// Scheduler equivalence: whatever their scheduling modes and time slices,
/// two engines holding the same committed grid commit the same grid on their
/// next `advance` — `advance` ensures the committed grid is exactly
/// `step_grid` of the snapshot, a statement in which the mode does not
/// occur.
pub proof fn lemma_scheduler_equivalence(a: &GameOfLife, b: &GameOfLife)
    requires
        a.inv(),
        b.inv(),
        a.grid_view() == b.grid_view(),
    ensures
        step_grid(a.grid_view()) == step_grid(b.grid_view()),
{
}

/// What `clear` leaves behind, as its contract states it: an all-dead grid
/// of the same size, generation 0, an empty cycle history, and the running
/// flag untouched.
pub open spec fn cleared_from(pre: GameOfLife, post: GameOfLife) -> bool {
    &&& post.inv()
    &&& post.size_spec() == pre.size_spec()
    &&& post.grid_view() == all_dead(pre.size_spec() as int)
    &&& post.generation_spec() == 0
    &&& post.history_spec() == Seq::<u64>::empty()
    &&& post.cursor_spec() == 0
    &&& post.running_spec() == pre.running_spec()
}

/// Clearing is idempotent: after two `clear` calls in a row the grid is the
/// same all-dead grid and the generation counter is 0, both times.
pub proof fn lemma_clear_idempotent(e0: GameOfLife, e1: GameOfLife, e2: GameOfLife)
    requires
        cleared_from(e0, e1),
        cleared_from(e1, e2),
    ensures
        e2.grid_view() == e1.grid_view(),
        e1.generation_spec() == 0,
        e2.generation_spec() == 0,
        e2.history_spec() == e1.history_spec(),
{
}

/// Toggling the same active cell twice returns the grid to its original
/// state.  (Toggling a border or out-of-range coordinate is a no-op by
/// `toggle_cell`'s contract, so it needs no theorem of its own.)
pub proof fn lemma_toggle_twice(v: Seq<Seq<bool>>, n: int, row: int, col: int)
    requires
        view_wf(v, n),
        1 <= row <= n,
        1 <= col <= n,
    ensures
        toggled(toggled(v, row, col), row, col) == v,
{
    assert(toggled(toggled(v, row, col), row, col) =~~= v);
}

} // verus!
