use vstd::prelude::*;

use crate::cell::Cell;

verus! {

/// A row of `w` default cells.
pub open spec fn blank_row(w: nat) -> Seq<Cell> {
    Seq::new(w, |_j: int| Cell::blank())
}

/// `w` columns by `h` rows of default cells.
pub open spec fn blank_rows(h: nat, w: nat) -> Seq<Seq<Cell>> {
    Seq::new(h, |_i: int| blank_row(w))
}

/// `rows` after the top `n` rows are dropped and as many blank rows of width
/// `w` are added at the bottom.
pub open spec fn scrolled(rows: Seq<Seq<Cell>>, n: nat, w: nat) -> Seq<Seq<Cell>> {
    Seq::new(rows.len(), |i: int| if i + n < rows.len() { rows[i + n] } else { blank_row(w) })
}

/// `row` with the cells of columns `from` up to `to` (exclusive) reset.
pub open spec fn clear_cols(row: Seq<Cell>, from: int, to: int) -> Seq<Cell> {
    Seq::new(row.len(), |j: int| if from <= j < to { Cell::blank() } else { row[j] })
}

/// `rows` with the rows `from` up to `to` (exclusive) reset.
pub open spec fn clear_rows(rows: Seq<Seq<Cell>>, from: int, to: int, w: nat) -> Seq<Seq<Cell>> {
    Seq::new(rows.len(), |i: int| if from <= i < to { blank_row(w) } else { rows[i] })
}

/// A fixed-size matrix of cells. Rows are kept in a ring: scrolling moves the
/// index of the top row instead of moving cells.
pub struct Grid {
    cells: Vec<Vec<Cell>>,
    rows: usize,
    cols: usize,
    top: usize,
}

impl Grid {
    pub closed spec fn spec_height(&self) -> nat {
        self.rows as nat
    }

    pub closed spec fn spec_width(&self) -> nat {
        self.cols as nat
    }

    /// Where logical row `r` is stored.
    spec fn slot(&self, r: int) -> int {
        if self.top + r < self.rows {
            self.top + r
        } else {
            self.top + r - self.rows
        }
    }

    pub closed spec fn inv(&self) -> bool {
        &&& self.cells@.len() == self.rows
        &&& self.rows > 0
        &&& self.top < self.rows
        &&& forall|i: int| 0 <= i < self.cells@.len() ==> (#[trigger] self.cells@[i])@.len() == self.cols
    }

    /// The grid is well formed: its rows, top to bottom, all of its width.
    pub open spec fn wf(&self) -> bool {
        &&& self.inv()
        &&& self@.len() == self.spec_height()
        &&& self.spec_height() > 0
        &&& self.spec_height() <= usize::MAX
        &&& self.spec_width() <= usize::MAX
        &&& forall|r: int| 0 <= r < self@.len() ==> (#[trigger] self@[r]).len() == self.spec_width()
    }

    proof fn lemma_wf(&self)
        requires
            self.inv(),
        ensures
            self.wf(),
            forall|r: int| 0 <= r < self.rows ==> 0 <= #[trigger] self.slot(r) < self.rows,
    {
    }

    /// A grid of `rows` by `cols` default cells.
    pub fn new(rows: usize, cols: usize) -> (g: Grid)
        requires
            rows > 0,
        ensures
            g.wf(),
            g.spec_height() == rows,
            g.spec_width() == cols,
            g@ == blank_rows(rows as nat, cols as nat),
    {
        let mut cells: Vec<Vec<Cell>> = Vec::new();
        let mut i: usize = 0;
        while i < rows
            invariant
                i <= rows,
                cells@.len() == i,
                forall|k: int| 0 <= k < i ==> (#[trigger] cells@[k])@ == blank_row(cols as nat),
            decreases rows - i,
        {
            cells.push(blank_line(cols));
            i += 1;
        }
        let g = Grid { cells, rows, cols, top: 0 };
        proof {
            assert(g.inv());
            g.lemma_wf();
            assert(g@ =~= blank_rows(rows as nat, cols as nat));
        }
        g
    }

    pub fn height(&self) -> (r: usize)
        ensures
            r == self.spec_height(),
    {
        self.rows
    }

    pub fn width(&self) -> (r: usize)
        ensures
            r == self.spec_width(),
    {
        self.cols
    }

    fn slot_of(&self, row: usize) -> (r: usize)
        requires
            self.inv(),
            row < self.rows,
        ensures
            r == self.slot(row as int),
            r < self.rows,
    {
        if row < self.rows - self.top {
            self.top + row
        } else {
            row - (self.rows - self.top)
        }
    }

    /// Row `row`, if the grid has one there.
    pub fn row(&self, row: usize) -> (r: Option<&[Cell]>)
        requires
            self.wf(),
        ensures
            row < self.spec_height() ==> (r matches Some(s) && s@ == self@[row as int]),
            row >= self.spec_height() ==> r is None,
    {
        if row < self.rows {
            let p = self.slot_of(row);
            Some(self.cells[p].as_slice())
        } else {
            None
        }
    }

    /// Writes `cell` at (`row`, `col`); does nothing where the grid has no
    /// such position.
    pub fn set_cell(&mut self, row: usize, col: usize, cell: Cell)
        requires
            old(self).wf(),
        ensures
            final(self).wf(),
            final(self).spec_height() == old(self).spec_height(),
            final(self).spec_width() == old(self).spec_width(),
            final(self)@ == if row < old(self).spec_height() && col < old(self).spec_width() {
                old(self)@.update(row as int, old(self)@[row as int].update(col as int, cell))
            } else {
                old(self)@
            },
    {
        if row < self.rows && col < self.cols {
            let p = self.slot_of(row);
            self.cells[p][col] = cell;
            proof {
                assert(self.inv());
                self.lemma_wf();
                assert(self@ =~= old(self)@.update(row as int, old(self)@[row as int].update(col as int, cell)));
            }
        }
    }

    /// Resets every cell of row `row` to the default; does nothing where the
    /// grid has no such row.
    pub fn clear_line(&mut self, row: usize)
        requires
            old(self).wf(),
        ensures
            final(self).wf(),
            final(self).spec_height() == old(self).spec_height(),
            final(self).spec_width() == old(self).spec_width(),
            final(self)@ == if row < old(self).spec_height() {
                old(self)@.update(row as int, blank_row(old(self).spec_width()))
            } else {
                old(self)@
            },
    {
        if row < self.rows {
            let p = self.slot_of(row);
            self.cells.set(p, blank_line(self.cols));
            proof {
                assert(self.inv());
                self.lemma_wf();
                assert(self@ =~= old(self)@.update(row as int, blank_row(old(self).spec_width())));
            }
        }
    }

    /// Resets the cells of row `row` from column `from` up to `to`
    /// (exclusive); columns past the width are left out.
    pub(crate) fn clear_cells(&mut self, row: usize, from: usize, to: usize)
        requires
            old(self).wf(),
            row < old(self).spec_height(),
        ensures
            final(self).wf(),
            final(self).spec_height() == old(self).spec_height(),
            final(self).spec_width() == old(self).spec_width(),
            final(self)@ == old(self)@.update(row as int, clear_cols(old(self)@[row as int], from as int, to as int)),
    {
        let end = if to < self.cols { to } else { self.cols };
        let ghost line = old(self)@[row as int];
        proof {
            assert(clear_cols(line, from as int, from as int) =~= line);
            assert(old(self)@.update(row as int, line) =~= old(self)@);
        }
        let mut j: usize = from;
        while j < end
            invariant
                self.wf(),
                row < self.spec_height(),
                self.spec_height() == old(self).spec_height(),
                self.spec_width() == old(self).spec_width(),
                line == old(self)@[row as int],
                end <= self.spec_width(),
                from <= j,
                from <= end ==> j <= end,
                from > end ==> j == from,
                line.len() == self.spec_width(),
                self@ == old(self)@.update(row as int, clear_cols(line, from as int, j as int)),
            decreases end - j,
        {
            self.set_cell(row, j, Cell::default());
            proof {
                assert(clear_cols(line, from as int, j as int).update(j as int, Cell::blank()) =~= clear_cols(line, from as int, (j + 1) as int));
                assert(self@ =~= old(self)@.update(row as int, clear_cols(line, from as int, (j + 1) as int)));
            }
            j += 1;
        }
        proof {
            assert(clear_cols(line, from as int, j as int) =~= clear_cols(line, from as int, to as int));
        }
    }

    /// Resets the rows from `from` up to `to` (exclusive); rows past the
    /// height are left out.
    pub(crate) fn clear_lines(&mut self, from: usize, to: usize)
        requires
            old(self).wf(),
        ensures
            final(self).wf(),
            final(self).spec_height() == old(self).spec_height(),
            final(self).spec_width() == old(self).spec_width(),
            final(self)@ == clear_rows(old(self)@, from as int, to as int, old(self).spec_width()),
    {
        let end = if to < self.rows { to } else { self.rows };
        proof {
            assert(clear_rows(old(self)@, from as int, from as int, old(self).spec_width()) =~= old(self)@);
        }
        let mut i: usize = from;
        while i < end
            invariant
                self.wf(),
                self.spec_height() == old(self).spec_height(),
                self.spec_width() == old(self).spec_width(),
                end <= self.spec_height(),
                from <= i,
                from <= end ==> i <= end,
                from > end ==> i == from,
                old(self)@.len() == self.spec_height(),
                self@ == clear_rows(old(self)@, from as int, i as int, old(self).spec_width()),
            decreases end - i,
        {
            self.clear_line(i);
            proof {
                assert(self@ =~= clear_rows(old(self)@, from as int, (i + 1) as int, old(self).spec_width()));
            }
            i += 1;
        }
        proof {
            assert(clear_rows(old(self)@, from as int, i as int, old(self).spec_width()) =~= clear_rows(old(self)@, from as int, to as int, old(self).spec_width()));
        }
    }

    /// Resets every cell to the default.
    pub fn clear_all(&mut self)
        requires
            old(self).wf(),
        ensures
            final(self).wf(),
            final(self).spec_height() == old(self).spec_height(),
            final(self).spec_width() == old(self).spec_width(),
            final(self)@ == blank_rows(old(self).spec_height(), old(self).spec_width()),
    {
        let mut i: usize = 0;
        while i < self.rows
            invariant
                self.inv(),
                self.rows == old(self).rows,
                self.cols == old(self).cols,
                self.top == old(self).top,
                i <= self.rows,
                forall|k: int| 0 <= k < i ==> (#[trigger] self.cells@[k])@ == blank_row(self.cols as nat),
            decreases self.rows - i,
        {
            self.cells.set(i, blank_line(self.cols));
            i += 1;
        }
        proof {
            self.lemma_wf();
            assert(self@ =~= blank_rows(old(self).spec_height(), old(self).spec_width()));
        }
    }

    /// Drops the top row and adds a blank one at the bottom, by moving the
    /// ring's start.
    fn scroll_one(&mut self)
        requires
            old(self).wf(),
        ensures
            final(self).wf(),
            final(self).spec_height() == old(self).spec_height(),
            final(self).spec_width() == old(self).spec_width(),
            final(self)@ == scrolled(old(self)@, 1, old(self).spec_width()),
    {
        let t = self.top;
        self.cells.set(t, blank_line(self.cols));
        self.top = if t + 1 < self.rows { t + 1 } else { 0 };
        proof {
            assert(self.inv());
            self.lemma_wf();
            assert(self@ =~= scrolled(old(self)@, 1, old(self).spec_width()));
        }
    }

    /// Drops the top `lines` rows and adds as many blank rows at the bottom.
    pub fn scroll_up(&mut self, lines: usize)
        requires
            old(self).wf(),
        ensures
            final(self).wf(),
            final(self).spec_height() == old(self).spec_height(),
            final(self).spec_width() == old(self).spec_width(),
            final(self)@ == scrolled(old(self)@, lines as nat, old(self).spec_width()),
    {
        let steps = if lines < self.rows { lines } else { self.rows };
        let mut i: usize = 0;
        while i < steps
            invariant
                self.wf(),
                i <= steps,
                steps <= self.spec_height(),
                self.spec_height() == old(self).spec_height(),
                self.spec_width() == old(self).spec_width(),
                self@ == scrolled(old(self)@, i as nat, old(self).spec_width()),
            decreases steps - i,
        {
            self.scroll_one();
            proof {
                assert(self@ =~= scrolled(old(self)@, (i + 1) as nat, old(self).spec_width()));
            }
            i += 1;
        }
        proof {
            assert(self@ =~= scrolled(old(self)@, lines as nat, old(self).spec_width()));
        }
    }
}

impl View for Grid {
    type V = Seq<Seq<Cell>>;

    closed spec fn view(&self) -> Seq<Seq<Cell>> {
        Seq::new(self.rows as nat, |r: int| self.cells@[self.slot(r)]@)
    }
}

/// A row of `w` default cells.
pub fn blank_line(w: usize) -> (r: Vec<Cell>)
    ensures
        r@ == blank_row(w as nat),
{
    let mut r: Vec<Cell> = Vec::new();
    let mut j: usize = 0;
    while j < w
        invariant
            j <= w,
            r@ == Seq::new(j as nat, |_k: int| Cell::blank()),
        decreases w - j,
    {
        r.push(Cell::default());
        proof {
            assert(r@ =~= Seq::new((j + 1) as nat, |_k: int| Cell::blank()));
        }
        j += 1;
    }
    r
}

} // verus!

verus! {

/// Scrolling up by `n` rows, no more than the grid holds, drops the `n`
/// topmost rows: each row left is the row `n` below it before, so the
/// dropped rows are no longer in the grid, and the bottom `n` rows are
/// blank.
pub proof fn lemma_scroll_drops_top_rows(rows: Seq<Seq<Cell>>, n: nat, w: nat)
    requires
        n <= rows.len(),
    ensures
        scrolled(rows, n, w).len() == rows.len(),
        forall|i: int| 0 <= i < rows.len() - n ==> #[trigger] scrolled(rows, n, w)[i] == rows[i + n],
        forall|i: int| rows.len() - n <= i < rows.len() ==> #[trigger] scrolled(rows, n, w)[i] == blank_row(w),
{
}

} // verus!
