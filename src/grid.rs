//! A rectangular table of counts.

use vstd::prelude::*;

verus! {

/// A `num_rows` by `num_cols` table of `usize` values.
pub struct Grid {
    num_rows: usize,
    num_cols: usize,
    rows: Vec<Vec<usize>>,
}

/// The index is outside the table.
#[derive(Debug, PartialEq, Eq, Structural)]
pub struct OutOfBounds;

impl Grid {
    /// Number of rows.
    pub closed spec fn spec_rows(&self) -> nat {
        self.num_rows as nat
    }

    /// Number of columns.
    pub closed spec fn spec_cols(&self) -> nat {
        self.num_cols as nat
    }

    /// The value at row `r`, column `c`.
    pub closed spec fn cell(&self, r: int, c: int) -> usize {
        self.rows@[r]@[c]
    }

    /// Every row has `num_cols` entries.
    pub closed spec fn wf(&self) -> bool {
        &&& self.rows@.len() == self.num_rows
        &&& forall|r: int| 0 <= r < self.num_rows ==> (#[trigger] self.rows@[r])@.len() == self.num_cols
    }

    /// A table of the given size, every value 0.
    pub fn new(num_rows: usize, num_cols: usize) -> (g: Grid)
        ensures
            g.wf(),
            g.spec_rows() == num_rows,
            g.spec_cols() == num_cols,
            forall|r: int, c: int| 0 <= r < num_rows && 0 <= c < num_cols ==> g.cell(r, c) == 0,
    {
        let mut rows: Vec<Vec<usize>> = Vec::new();
        for r in 0..num_rows
            invariant
                rows@.len() == r,
                forall|i: int| 0 <= i < r ==> (#[trigger] rows@[i])@.len() == num_cols,
                forall|i: int, c: int| 0 <= i < r && 0 <= c < num_cols ==> rows@[i]@[c] == 0,
        {
            rows.push(vec![0usize; num_cols]);
        }
        Grid { num_rows, num_cols, rows }
    }

    /// The number of rows and of columns.
    pub fn size(&self) -> (r: (usize, usize))
        ensures
            r.0 == self.spec_rows(),
            r.1 == self.spec_cols(),
    {
        (self.num_rows, self.num_cols)
    }

    /// The value at row `r`, column `c`, or `None` outside the table.
    pub fn get(&self, r: usize, c: usize) -> (v: Option<usize>)
        requires
            self.wf(),
        ensures
            r < self.spec_rows() && c < self.spec_cols() ==> v == Some(self.cell(r as int, c as int)),
            !(r < self.spec_rows() && c < self.spec_cols()) ==> v is None,
    {
        if r < self.num_rows && c < self.num_cols {
            Some(self.rows[r][c])
        } else {
            None
        }
    }

    /// Sets the value at row `r`, column `c`; fails, changing nothing, outside
    /// the table.
    pub fn set(&mut self, r: usize, c: usize, v: usize) -> (res: Result<(), OutOfBounds>)
        requires
            old(self).wf(),
        ensures
            final(self).wf(),
            final(self).spec_rows() == old(self).spec_rows(),
            final(self).spec_cols() == old(self).spec_cols(),
            res is Ok <==> (r < old(self).spec_rows() && c < old(self).spec_cols()),
            forall|i: int, j: int|
                0 <= i < old(self).spec_rows() && 0 <= j < old(self).spec_cols() ==> #[trigger] final(self).cell(i, j)
                    == if res is Ok && i == r && j == c {
                    v
                } else {
                    old(self).cell(i, j)
                },
    {
        if r < self.num_rows && c < self.num_cols {
            let mut row = self.rows[r].clone();
            row.set(c, v);
            self.rows.set(r, row);
            Ok(())
        } else {
            Err(OutOfBounds)
        }
    }

    /// Sets every value to 0.
    pub fn clear(&mut self)
        requires
            old(self).wf(),
        ensures
            final(self).wf(),
            final(self).spec_rows() == old(self).spec_rows(),
            final(self).spec_cols() == old(self).spec_cols(),
            forall|i: int, j: int|
                0 <= i < old(self).spec_rows() && 0 <= j < old(self).spec_cols() ==> #[trigger] final(self).cell(i, j) == 0,
    {
        let fresh = Grid::new(self.num_rows, self.num_cols);
        *self = fresh;
    }
}

} // verus!
