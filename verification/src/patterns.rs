//! The pattern catalog and grid seeding.
//!
//! A `Pattern` is an immutable named list of active-area coordinates to stamp
//! alive.  Applying one clears the grid first; coordinates outside the active
//! area are silently skipped, so patterns may be authored generously.
//! `apply_random_pattern` fills the active area from a deterministic
//! linear-congruential generator, so the same seed always reproduces the same
//! grid, bit for bit.

use crate::grid::{all_dead, Grid};
use vstd::prelude::*;

verus! {

/// Multiplier of the linear-congruential step.
pub const LCG_MULTIPLIER: u64 = 1103515245;

/// Increment of the linear-congruential step.
pub const LCG_INCREMENT: u64 = 12345;

/// Multiplier of the fixed hash that derives the generator state from a seed.
pub const SEED_HASH_MULTIPLIER: u64 = 6364136223846793005;

/// Increment of the fixed hash that derives the generator state from a seed.
pub const SEED_HASH_INCREMENT: u64 = 1442695040888963407;

/// An immutable named list of cells to seed as alive.
pub struct Pattern {
    pub name: &'static str,
    pub cells: Vec<(usize, usize)>,
}

/// The grid obtained by clearing an `n`-by-`n` field and stamping every
/// listed coordinate that lies in the active area.
pub open spec fn stamped(cells: Seq<(usize, usize)>, n: int) -> Seq<Seq<bool>> {
    Seq::new(
        (n + 2) as nat,
        |r: int|
            Seq::new(
                (n + 2) as nat,
                |c: int|
                    1 <= r && r <= n && 1 <= c && c <= n && cells.contains(
                        (r as usize, c as usize),
                    ),
            ),
    )
}

/// One step of the linear-congruential generator, modulo `2^64` by
/// wraparound.
#[verifier::opaque]
pub open spec fn lcg_next(s: u64) -> u64 {
    s.wrapping_mul(LCG_MULTIPLIER).wrapping_add(LCG_INCREMENT)
}

/// The generator state after `k` steps from `s0`.
pub open spec fn lcg_iter(s0: u64, k: nat) -> u64
    decreases k,
{
    if k == 0 {
        s0
    } else {
        lcg_next(lcg_iter(s0, (k - 1) as nat))
    }
}

/// The fixed hash that derives the 64-bit generator state from a 32-bit
/// seed.
#[verifier::opaque]
pub open spec fn seed_hash(seed: u32) -> u64 {
    (seed as u64).wrapping_mul(SEED_HASH_MULTIPLIER).wrapping_add(SEED_HASH_INCREMENT)
}

/// How many draws the generator has made once the sweep of an `n`-by-`n`
/// field stands before column `col` of row `row` (one draw per active cell,
/// in row-major order).
#[verifier::opaque]
pub open spec fn draws_before(n: int, row: int, col: int) -> int {
    (row - 1) * n + (col - 1)
}

/// Whether active cell `(r, c)` of an `n`-by-`n` field seeded with `seed` is
/// alive: the generator is advanced once per active cell in row-major order,
/// and a cell lives iff its state is divisible by 3 (about a third of cells).
#[verifier::opaque]
pub open spec fn random_cell(seed: u32, n: int, r: int, c: int) -> bool {
    lcg_iter(seed_hash(seed), (draws_before(n, r, c) + 1) as nat) % 3 == 0
}

/// The deterministic pseudo-random grid for `seed` on an `n`-by-`n` field.
pub open spec fn random_grid(seed: u32, n: int) -> Seq<Seq<bool>> {
    Seq::new(
        (n + 2) as nat,
        |r: int|
            Seq::new(
                (n + 2) as nat,
                |c: int| 1 <= r && r <= n && 1 <= c && c <= n && random_cell(seed, n, r, c),
            ),
    )
}

/// Clear the grid, then stamp every listed coordinate that lies in the
/// active area; out-of-range coordinates are skipped, not an error.
pub fn apply_pattern(grid: &mut Grid, pattern: &Pattern)
    requires
        old(grid).wf(),
    ensures
        final(grid).wf(),
        final(grid).size_spec() == old(grid).size_spec(),
        final(grid)@ == stamped(pattern.cells@, old(grid).size_spec() as int),
{
    grid.clear();
    let n = grid.size();
    proof {
        grid.lemma_wf();
        assert(grid@ =~~= stamped(pattern.cells@.take(0), n as int));
    }
    let len = pattern.cells.len();
    let mut k: usize = 0;
    while k < len
        invariant
            grid.wf(),
            n == grid.size_spec(),
            len == pattern.cells@.len(),
            k <= len,
            grid@ == stamped(pattern.cells@.take(k as int), n as int),
        decreases len - k,
    {
        let (row, col) = pattern.cells[k];
        let ghost pre = grid@;
        if 1 <= row && row <= n && 1 <= col && col <= n {
            grid.set_active(row, col, true);
        }
        proof {
            let ghost cells = pattern.cells@;
            assert forall|x: (usize, usize)| #[trigger]
                cells.take(k + 1).contains(x) == (cells.take(k as int).contains(x) || x
                    == cells[k as int]) by {
                if cells.take(k + 1).contains(x) {
                    let i = choose|i: int| 0 <= i < k + 1 && #[trigger] cells.take(k + 1)[i] == x;
                    if i < k {
                        assert(cells.take(k as int)[i] == x);
                    }
                }
                if cells.take(k as int).contains(x) {
                    let i = choose|i: int| 0 <= i < k && #[trigger] cells.take(k as int)[i] == x;
                    assert(cells.take(k + 1)[i] == x);
                }
                if x == cells[k as int] {
                    assert(cells.take(k + 1)[k as int] == x);
                }
            }
            assert(grid@ =~~= stamped(pattern.cells@.take(k + 1), n as int));
        }
        k += 1;
    }
    proof {
        assert(pattern.cells@.take(len as int) =~= pattern.cells@);
    }
}

/// Derive the generator's starting state from the seed.
fn derive_state(seed: u32) -> (s: u64)
    ensures
        s == seed_hash(seed),
{
    proof {
        reveal(seed_hash);
    }
    (seed as u64).wrapping_mul(SEED_HASH_MULTIPLIER).wrapping_add(SEED_HASH_INCREMENT)
}

/// Advance the generator one step.
fn lcg_step(s: u64) -> (r: u64)
    ensures
        r == lcg_next(s),
{
    proof {
        reveal(lcg_next);
    }
    s.wrapping_mul(LCG_MULTIPLIER).wrapping_add(LCG_INCREMENT)
}

/// Unfolding one step of the generator's iteration.
proof fn lemma_lcg_iter_step(s0: u64, k: nat)
    ensures
        lcg_iter(s0, k + 1) == lcg_next(lcg_iter(s0, k)),
{
}

/// The sweep of an `n`-by-`n` field seeded with `seed` stands before column
/// `col` of row `row` with generator state `s`: exactly one draw was made
/// per cell already swept.
#[verifier::opaque]
pub open spec fn lcg_at(seed: u32, n: int, row: int, col: int, s: u64) -> bool {
    s == lcg_iter(seed_hash(seed), draws_before(n, row, col) as nat)
}

/// The sweep starts at row 1, column 1, with the state derived from the
/// seed, before any draw.
proof fn lemma_lcg_at_start(seed: u32, n: int)
    ensures
        lcg_at(seed, n, 1, 1, seed_hash(seed)),
{
    reveal(lcg_at);
    reveal(draws_before);
}

/// Advancing the generator one step moves the sweep one column further, and
/// the drawn state's divisibility by 3 is exactly the cell's fate.
proof fn lemma_lcg_at_advance(seed: u32, n: int, row: int, col: int, s: u64)
    requires
        1 <= n,
        1 <= row,
        1 <= col,
        lcg_at(seed, n, row, col, s),
    ensures
        lcg_at(seed, n, row, col + 1, lcg_next(s)),
        (lcg_next(s) % 3 == 0) == random_cell(seed, n, row, col),
{
    reveal(lcg_at);
    reveal(draws_before);
    assert((row - 1) * n >= 0) by (nonlinear_arith)
        requires
            1 <= row,
            1 <= n,
    ;
    lemma_lcg_iter_step(seed_hash(seed), draws_before(n, row, col) as nat);
    reveal(random_cell);
}

/// Finishing a row leaves the generator exactly where the next row's sweep
/// starts.
proof fn lemma_lcg_at_row_end(seed: u32, n: int, row: int, s: u64)
    requires
        lcg_at(seed, n, row, n + 1, s),
    ensures
        lcg_at(seed, n, row + 1, 1, s),
{
    reveal(lcg_at);
    reveal(draws_before);
    assert((row - 1) * n + n == row * n) by (nonlinear_arith);
}

/// The grid of partially seeded cells: active cells strictly before
/// row-major position `(row, col)` are filled, later cells still dead.
#[verifier::opaque]
pub open spec fn random_prefix(seed: u32, n: int, row: int, col: int) -> Seq<Seq<bool>> {
    Seq::new(
        (n + 2) as nat,
        |r: int|
            Seq::new(
                (n + 2) as nat,
                |c: int|
                    1 <= r && r <= n && 1 <= c && c <= n && (r < row || (r == row && c < col))
                        && random_cell(seed, n, r, c),
            ),
    )
}

/// Before anything is seeded, the partial grid is the all-dead grid.
proof fn lemma_prefix_empty(seed: u32, n: int)
    requires
        1 <= n,
    ensures
        all_dead(n) == random_prefix(seed, n, 1, 1),
{
    reveal(random_prefix);
    assert(all_dead(n) =~~= random_prefix(seed, n, 1, 1));
}

/// Seeding one more cell advances the partial grid by one column.
proof fn lemma_prefix_advance_cell(seed: u32, n: int, row: int, col: int)
    requires
        1 <= n,
        1 <= row <= n,
        1 <= col <= n,
    ensures
        random_cell(seed, n, row, col) ==> random_prefix(seed, n, row, col + 1) == random_prefix(
            seed,
            n,
            row,
            col,
        ).update(
            row,
            random_prefix(seed, n, row, col)[row].update(col, true),
        ),
        !random_cell(seed, n, row, col) ==> random_prefix(seed, n, row, col + 1) == random_prefix(
            seed,
            n,
            row,
            col,
        ),
{
    reveal(random_prefix);
    let pre = random_prefix(seed, n, row, col);
    if random_cell(seed, n, row, col) {
        assert(random_prefix(seed, n, row, col + 1) =~~= pre.update(
            row,
            pre[row].update(col, true),
        ));
    } else {
        assert(random_prefix(seed, n, row, col + 1) =~~= pre);
    }
}

/// Finishing a row is the same partial grid as starting the next one.
proof fn lemma_prefix_next_row(seed: u32, n: int, row: int)
    requires
        1 <= n,
        1 <= row <= n,
    ensures
        random_prefix(seed, n, row, n + 1) == random_prefix(seed, n, row + 1, 1),
{
    reveal(random_prefix);
    assert(random_prefix(seed, n, row, n + 1) =~~= random_prefix(seed, n, row + 1, 1));
}

/// Once every row is seeded, the partial grid is the full random grid.
proof fn lemma_prefix_full(seed: u32, n: int)
    requires
        1 <= n,
    ensures
        random_prefix(seed, n, n + 1, 1) == random_grid(seed, n),
{
    reveal(random_prefix);
    assert(random_prefix(seed, n, n + 1, 1) =~~= random_grid(seed, n));
}

/// Draw the fate of one cell and stamp it: the generator advances one step,
/// and the cell lives iff the drawn state is divisible by 3.
fn seed_cell(grid: &mut Grid, seed: Ghost<u32>, row: usize, col: usize, state: u64) -> (s2: u64)
    requires
        old(grid).wf(),
        1 <= row <= old(grid).size_spec(),
        1 <= col <= old(grid).size_spec(),
        old(grid)@ == random_prefix(seed@, old(grid).size_spec() as int, row as int, col as int),
        lcg_at(seed@, old(grid).size_spec() as int, row as int, col as int, state),
    ensures
        final(grid).wf(),
        final(grid).size_spec() == old(grid).size_spec(),
        final(grid)@ == random_prefix(
            seed@,
            old(grid).size_spec() as int,
            row as int,
            col as int + 1,
        ),
        lcg_at(seed@, old(grid).size_spec() as int, row as int, col as int + 1, s2),
{
    let ghost n = grid.size_spec() as int;
    proof {
        grid.lemma_wf();
        lemma_lcg_at_advance(seed@, n, row as int, col as int, state);
    }
    let state2 = lcg_step(state);
    let alive = state2 % 3 == 0;
    if alive {
        grid.set_active(row, col, true);
    }
    proof {
        lemma_prefix_advance_cell(seed@, n, row as int, col as int);
    }
    state2
}

/// Clear the grid, then fill the active area with the deterministic
/// pseudo-random pattern for `seed_value`: the same seed always yields the
/// same grid.
pub fn apply_random_pattern(grid: &mut Grid, seed_value: u32)
    requires
        old(grid).wf(),
    ensures
        final(grid).wf(),
        final(grid).size_spec() == old(grid).size_spec(),
        final(grid)@ == random_grid(seed_value, old(grid).size_spec() as int),
{
    grid.clear();
    let n = grid.size();
    proof {
        grid.lemma_wf();
        lemma_prefix_empty(seed_value, n as int);
        lemma_lcg_at_start(seed_value, n as int);
    }
    let mut state: u64 = derive_state(seed_value);
    let mut row: usize = 1;
    while row <= n
        invariant
            grid.wf(),
            n == grid.size_spec(),
            n + 2 <= usize::MAX,
            1 <= row <= n + 1,
            grid@ == random_prefix(seed_value, n as int, row as int, 1),
            lcg_at(seed_value, n as int, row as int, 1, state),
        decreases n + 1 - row,
    {
        let mut col: usize = 1;
        while col <= n
            invariant
                grid.wf(),
                n == grid.size_spec(),
                n + 2 <= usize::MAX,
                1 <= row <= n,
                1 <= col <= n + 1,
                grid@ == random_prefix(seed_value, n as int, row as int, col as int),
                lcg_at(seed_value, n as int, row as int, col as int, state),
            decreases n + 1 - col,
        {
            state = seed_cell(grid, Ghost(seed_value), row, col, state);
            col += 1;
        }
        proof {
            lemma_prefix_next_row(seed_value, n as int, row as int);
            lemma_lcg_at_row_end(seed_value, n as int, row as int, state);
        }
        row += 1;
    }
    proof {
        lemma_prefix_full(seed_value, n as int);
    }
}

/// Coordinates of the glider pattern.
pub open spec fn glider_cells() -> Seq<(usize, usize)> {
    seq![(6usize, 7usize), (7, 8), (8, 6), (8, 7), (8, 8)]
}

/// Coordinates of the blinker pattern: three cells in a row.
pub open spec fn blinker_cells() -> Seq<(usize, usize)> {
    seq![(25usize, 24usize), (25, 25), (25, 26)]
}

/// Coordinates of the toad pattern.
pub open spec fn toad_cells() -> Seq<(usize, usize)> {
    seq![(24usize, 25usize), (24, 26), (24, 27), (25, 24), (25, 25), (25, 26)]
}

/// Coordinates of the beacon pattern.
pub open spec fn beacon_cells() -> Seq<(usize, usize)> {
    seq![
        (10usize, 10usize),
        (10, 11),
        (11, 10),
        (11, 11),
        (12, 12),
        (12, 13),
        (13, 12),
        (13, 13),
    ]
}

/// Coordinates of the pulsar pattern.
pub open spec fn pulsar_cells() -> Seq<(usize, usize)> {
    seq![
        (20usize, 24usize),
        (20, 25),
        (20, 26),
        (20, 30),
        (20, 31),
        (20, 32),
        (22, 22),
        (22, 27),
        (22, 29),
        (22, 34),
        (23, 22),
        (23, 27),
        (23, 29),
        (23, 34),
        (24, 22),
        (24, 27),
        (24, 29),
        (24, 34),
        (25, 24),
        (25, 25),
        (25, 26),
        (25, 30),
        (25, 31),
        (25, 32),
        (27, 24),
        (27, 25),
        (27, 26),
        (27, 30),
        (27, 31),
        (27, 32),
        (28, 22),
        (28, 27),
        (28, 29),
        (28, 34),
        (29, 22),
        (29, 27),
        (29, 29),
        (29, 34),
        (30, 22),
        (30, 27),
        (30, 29),
        (30, 34),
        (32, 24),
        (32, 25),
        (32, 26),
        (32, 30),
        (32, 31),
        (32, 32),
    ]
}

/// Coordinates of the R-pentomino pattern.
pub open spec fn r_pentomino_cells() -> Seq<(usize, usize)> {
    seq![(25usize, 25usize), (25, 26), (24, 26), (26, 25), (26, 24)]
}

/// Coordinates of the Gosper glider gun pattern.
pub open spec fn gosper_glider_gun_cells() -> Seq<(usize, usize)> {
    seq![
        (5usize, 1usize),
        (5, 2),
        (6, 1),
        (6, 2),
        (5, 11),
        (6, 11),
        (7, 11),
        (4, 12),
        (8, 12),
        (3, 13),
        (9, 13),
        (3, 14),
        (9, 14),
        (6, 15),
        (4, 16),
        (8, 16),
        (5, 17),
        (6, 17),
        (7, 17),
        (6, 18),
        (3, 21),
        (4, 21),
        (5, 21),
        (3, 22),
        (4, 22),
        (5, 22),
        (2, 23),
        (6, 23),
        (1, 25),
        (2, 25),
        (6, 25),
        (7, 25),
        (3, 35),
        (4, 35),
        (3, 36),
        (4, 36),
    ]
}

/// The coordinate lists of the built-in catalog, in catalog order.
pub open spec fn catalog_cells() -> Seq<Seq<(usize, usize)>> {
    seq![
        glider_cells(),
        blinker_cells(),
        toad_cells(),
        beacon_cells(),
        pulsar_cells(),
        r_pentomino_cells(),
        gosper_glider_gun_cells(),
    ]
}

/// The built-in catalog of named patterns, in a fixed order.
pub fn pattern_catalog() -> (r: Vec<Pattern>)
    ensures
        r@.len() == catalog_cells().len(),
        forall|i: int| 0 <= i < r@.len() ==> (#[trigger] r@[i]).cells@ == catalog_cells()[i],
        r@[0].name@ == "Glider"@,
        r@[1].name@ == "Blinker"@,
        r@[2].name@ == "Toad"@,
        r@[3].name@ == "Beacon"@,
        r@[4].name@ == "Pulsar"@,
        r@[5].name@ == "R-pentomino"@,
        r@[6].name@ == "Gosper Glider Gun"@,
{
    let mut r: Vec<Pattern> = Vec::new();
    let glider = Pattern { name: "Glider", cells: vec![(6, 7), (7, 8), (8, 6), (8, 7), (8, 8)] };
    assert(glider.cells@ =~= glider_cells());
    r.push(glider);
    let blinker = Pattern { name: "Blinker", cells: vec![(25, 24), (25, 25), (25, 26)] };
    assert(blinker.cells@ =~= blinker_cells());
    r.push(blinker);
    let toad = Pattern {
        name: "Toad",
        cells: vec![(24, 25), (24, 26), (24, 27), (25, 24), (25, 25), (25, 26)],
    };
    assert(toad.cells@ =~= toad_cells());
    r.push(toad);
    let beacon = Pattern {
        name: "Beacon",
        cells: vec![
            (10, 10),
            (10, 11),
            (11, 10),
            (11, 11),
            (12, 12),
            (12, 13),
            (13, 12),
            (13, 13),
        ],
    };
    assert(beacon.cells@ =~= beacon_cells());
    r.push(beacon);
    let pulsar = Pattern {
        name: "Pulsar",
        cells: vec![
            (20, 24),
            (20, 25),
            (20, 26),
            (20, 30),
            (20, 31),
            (20, 32),
            (22, 22),
            (22, 27),
            (22, 29),
            (22, 34),
            (23, 22),
            (23, 27),
            (23, 29),
            (23, 34),
            (24, 22),
            (24, 27),
            (24, 29),
            (24, 34),
            (25, 24),
            (25, 25),
            (25, 26),
            (25, 30),
            (25, 31),
            (25, 32),
            (27, 24),
            (27, 25),
            (27, 26),
            (27, 30),
            (27, 31),
            (27, 32),
            (28, 22),
            (28, 27),
            (28, 29),
            (28, 34),
            (29, 22),
            (29, 27),
            (29, 29),
            (29, 34),
            (30, 22),
            (30, 27),
            (30, 29),
            (30, 34),
            (32, 24),
            (32, 25),
            (32, 26),
            (32, 30),
            (32, 31),
            (32, 32),
        ],
    };
    assert(pulsar.cells@ =~= pulsar_cells());
    r.push(pulsar);
    let r_pentomino = Pattern {
        name: "R-pentomino",
        cells: vec![(25, 25), (25, 26), (24, 26), (26, 25), (26, 24)],
    };
    assert(r_pentomino.cells@ =~= r_pentomino_cells());
    r.push(r_pentomino);
    let gosper = Pattern {
        name: "Gosper Glider Gun",
        cells: vec![
            (5, 1),
            (5, 2),
            (6, 1),
            (6, 2),
            (5, 11),
            (6, 11),
            (7, 11),
            (4, 12),
            (8, 12),
            (3, 13),
            (9, 13),
            (3, 14),
            (9, 14),
            (6, 15),
            (4, 16),
            (8, 16),
            (5, 17),
            (6, 17),
            (7, 17),
            (6, 18),
            (3, 21),
            (4, 21),
            (5, 21),
            (3, 22),
            (4, 22),
            (5, 22),
            (2, 23),
            (6, 23),
            (1, 25),
            (2, 25),
            (6, 25),
            (7, 25),
            (3, 35),
            (4, 35),
            (3, 36),
            (4, 36),
        ],
    };
    assert(gosper.cells@ =~= gosper_glider_gun_cells());
    r.push(gosper);
    r
}

} // verus!
