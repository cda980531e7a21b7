//! The bordered boolean grid.
//!
//! A `Grid` for an `n`-by-`n` playing field stores `(n + 2) * (n + 2)` cells:
//! active coordinates range over `[1, n]` in both axes, and the outermost
//! ring (row or column `0` and `n + 1`) is a sentinel border that is always
//! dead.  The border exists so that neighbor counting for active cells never
//! needs a bounds check, and keeping it dead at every commit is the central
//! invariant of the whole engine.

use vstd::prelude::*;

verus! {

/// A playing-field size the machine can represent: at least one active cell
/// per axis, and small enough that the bordered width `n + 2` fits in
/// `usize`.
pub open spec fn valid_dim(n: usize) -> bool {
    1 <= n && n + 2 <= usize::MAX
}

/// The grid as mathematics: a sequence of rows, each a sequence of cell
/// states, `true` meaning alive.
pub open spec fn view_wf(v: Seq<Seq<bool>>, n: int) -> bool {
    &&& 1 <= n
    &&& v.len() == n + 2
    &&& forall|r: int| 0 <= r < v.len() ==> (#[trigger] v[r]).len() == n + 2
}

/// Every cell of the sentinel ring is dead.
pub open spec fn border_dead(v: Seq<Seq<bool>>) -> bool {
    forall|r: int, c: int|
        0 <= r < v.len() && 0 <= c < v.len() && (r == 0 || c == 0 || r == v.len() - 1 || c
            == v.len() - 1) ==> !(#[trigger] v[r][c])
}

/// The all-dead grid for an `n`-by-`n` playing field.
pub open spec fn all_dead(n: int) -> Seq<Seq<bool>> {
    Seq::new((n + 2) as nat, |r: int| Seq::new((n + 2) as nat, |c: int| false))
}

/// `v` with the single active cell `(row, col)` flipped.
pub open spec fn toggled(v: Seq<Seq<bool>>, row: int, col: int) -> Seq<Seq<bool>> {
    v.update(row, v[row].update(col, !v[row][col]))
}

/// A square boolean matrix with a one-cell sentinel border.  Only the engine
/// writes it; rule evaluation never touches the border.
pub struct Grid {
    n: usize,
    cells: Vec<Vec<bool>>,
}

impl View for Grid {
    type V = Seq<Seq<bool>>;

    closed spec fn view(&self) -> Seq<Seq<bool>> {
        Seq::new(self.cells@.len(), |r: int| self.cells@[r]@)
    }
}

/// A dead (all-`false`) row of the given length.
pub(crate) fn dead_row(len: usize) -> (r: Vec<bool>)
    ensures
        r@ == Seq::new(len as nat, |i: int| false),
{
    let mut r: Vec<bool> = Vec::new();
    let mut i: usize = 0;
    while i < len
        invariant
            i <= len,
            r@.len() == i,
            forall|j: int| 0 <= j < i ==> !r@[j],
        decreases len - i,
    {
        r.push(false);
        i += 1;
    }
    assert(r@ =~= Seq::new(len as nat, |i: int| false));
    r
}

impl Grid {
    /// The playing-field size `n` (the grid is `(n + 2) * (n + 2)` overall).
    pub closed spec fn size_spec(&self) -> usize {
        self.n
    }

    /// Well-formedness: valid dimensions, square shape, and a dead border.
    pub closed spec fn wf(&self) -> bool {
        &&& valid_dim(self.n)
        &&& view_wf(self@, self.n as int)
        &&& border_dead(self@)
    }

    /// A well-formed grid has a well-formed view of its stated size, with the
    /// border dead.
    pub proof fn lemma_wf(&self)
        requires
            self.wf(),
        ensures
            valid_dim(self.size_spec()),
            view_wf(self@, self.size_spec() as int),
            border_dead(self@),
    {
    }

    /// A fresh, all-dead grid for an `n`-by-`n` playing field.
    pub fn new(n: usize) -> (g: Grid)
        requires
            valid_dim(n),
        ensures
            g.wf(),
            g.size_spec() == n,
            g@ == all_dead(n as int),
    {
        let total = n + 2;
        let mut cells: Vec<Vec<bool>> = Vec::new();
        let mut r: usize = 0;
        while r < total
            invariant
                r <= total,
                cells@.len() == r,
                forall|i: int| 0 <= i < r ==> (#[trigger] cells@[i])@ == Seq::new(
                    total as nat,
                    |c: int| false,
                ),
            decreases total - r,
        {
            cells.push(dead_row(total));
            r += 1;
        }
        let g = Grid { n, cells };
        assert(g@ =~~= all_dead(n as int));
        g
    }

    /// Assemble a grid from complete rows.  The caller supplies one buffer
    /// per row, each with dead border entries, and dead first and last rows:
    /// assembly moves the buffers in, it never writes cells itself.
    pub fn from_rows(n: usize, rows: Vec<Vec<bool>>) -> (g: Grid)
        requires
            valid_dim(n),
            rows@.len() == n + 2,
            forall|i: int| 0 <= i < rows@.len() ==> (#[trigger] rows@[i])@.len() == n + 2,
            forall|i: int| 0 <= i < rows@.len() ==> !(#[trigger] rows@[i])@[0] && !rows@[i]@[n + 1],
            forall|c: int| 0 <= c < n + 2 ==> !(#[trigger] rows@[0]@[c]) && !rows@[(n + 1) as int]@[c],
        ensures
            g.wf(),
            g.size_spec() == n,
            g@.len() == n + 2,
            forall|i: int| 0 <= i < g@.len() ==> #[trigger] g@[i] == rows@[i]@,
    {
        let g = Grid { n, cells: rows };
        proof {
            assert(forall|i: int| 0 <= i < g@.len() ==> #[trigger] g@[i] == g.cells@[i]@);
            assert forall|r: int, c: int|
                0 <= r < g@.len() && 0 <= c < g@.len() && (r == 0 || c == 0 || r == g@.len() - 1
                    || c == g@.len() - 1) implies !(#[trigger] g@[r][c]) by {
                assert(g@[r] == g.cells@[r]@);
                assert(g.cells@[r]@.len() == n + 2);
                if r == 0 || r == g@.len() - 1 {
                    assert(!g.cells@[0]@[c] && !g.cells@[(n + 1) as int]@[c]);
                } else {
                    assert(!g.cells@[r]@[0] && !g.cells@[r]@[n + 1]);
                }
            }
            assert(g.wf());
        }
        g
    }

    /// The playing-field size `n`.
    pub fn size(&self) -> (r: usize)
        ensures
            r == self.size_spec(),
    {
        self.n
    }

    /// Read one cell; any coordinate of the bordered grid may be read.
    pub fn get(&self, row: usize, col: usize) -> (b: bool)
        requires
            self.wf(),
            row < self@.len(),
            col < self@.len(),
        ensures
            b == self@[row as int][col as int],
    {
        assert(self@.len() == self.cells@.len());
        assert(self@[row as int] == self.cells@[row as int]@);
        assert(self@[row as int].len() == self@.len());
        self.cells[row][col]
    }

    /// Write one active-area cell.  The border is never written here, which
    /// is how every commit path keeps it dead.
    pub fn set_active(&mut self, row: usize, col: usize, v: bool)
        requires
            old(self).wf(),
            1 <= row <= old(self).size_spec(),
            1 <= col <= old(self).size_spec(),
        ensures
            final(self).wf(),
            final(self).size_spec() == old(self).size_spec(),
            final(self)@ == old(self)@.update(
                row as int,
                old(self)@[row as int].update(col as int, v),
            ),
    {
        let ghost pre = self@;
        assert(pre.len() == self.cells@.len());
        assert(pre[row as int] == self.cells@[row as int]@);
        assert(pre[row as int].len() == pre.len());
        self.cells[row][col] = v;
        assert(self@ =~~= pre.update(row as int, pre[row as int].update(col as int, v)));
    }

    /// Reset every cell to dead.
    pub fn clear(&mut self)
        requires
            old(self).wf(),
        ensures
            final(self).wf(),
            final(self).size_spec() == old(self).size_spec(),
            final(self)@ == all_dead(old(self).size_spec() as int),
    {
        *self = Grid::new(self.n);
    }
}

impl Clone for Grid {
    /// An exact copy, cell for cell.
    fn clone(&self) -> (r: Self)
        ensures
            r@ == self@,
            r.size_spec() == self.size_spec(),
            self.wf() ==> r.wf(),
    {
        let mut cells: Vec<Vec<bool>> = Vec::new();
        let mut r: usize = 0;
        let total = self.cells.len();
        while r < total
            invariant
                r <= total,
                total == self.cells@.len(),
                cells@.len() == r,
                forall|i: int| 0 <= i < r ==> (#[trigger] cells@[i])@ == self.cells@[i]@,
            decreases total - r,
        {
            let src = &self.cells[r];
            let mut row: Vec<bool> = Vec::new();
            let mut c: usize = 0;
            let len = src.len();
            while c < len
                invariant
                    c <= len,
                    len == src@.len(),
                    row@.len() == c,
                    forall|j: int| 0 <= j < c ==> row@[j] == src@[j],
                decreases len - c,
            {
                row.push(src[c]);
                c += 1;
            }
            assert(row@ =~= src@);
            cells.push(row);
            r += 1;
        }
        let g = Grid { n: self.n, cells };
        assert(g@ =~~= self@);
        g
    }
}

} // verus!
