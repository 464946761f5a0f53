//! Walking a view row by row.

use crate::grid::Grid;
use vstd::prelude::*;

verus! {

/// The rows of a view that are still to come, first to last.
///
/// A cursor over the buffer and nothing more: it holds what is left of the
/// buffer and how long a row is, and allocates nothing.
pub struct Rows<'a, T> {
    rest: &'a [T],
    num_rows: usize,
    num_cols: usize,
}

impl<'a, T> View for Rows<'a, T> {
    type V = Grid<T>;

    /// What is left to walk, as a grid of its own: the rows that `next` has
    /// yet to hand out, in the order in which it will.
    closed spec fn view(&self) -> Grid<T> {
        Grid { cells: self.rest@, num_rows: self.num_rows as nat, num_cols: self.num_cols as nat }
    }
}

impl<'a, T> Rows<'a, T> {
    /// What is left to walk is whole rows: `new` makes it so and `next`
    /// keeps it so.
    pub open spec fn wf(&self) -> bool {
        self@.wf()
    }

    /// The rows of `cells` read as `num_rows` rows of `num_cols` cells.
    pub(crate) fn new(cells: &'a [T], num_rows: usize, num_cols: usize) -> (rows: Self)
        requires
            cells@.len() == num_rows * num_cols,
        ensures
            rows.wf(),
            rows@ == (Grid {
                cells: cells@,
                num_rows: num_rows as nat,
                num_cols: num_cols as nat,
            }),
    {
        Rows { rest: cells, num_rows, num_cols }
    }

    /// The next row, or `None` when every row was handed out.
    pub fn next(&mut self) -> (row: Option<&'a [T]>)
        requires
            old(self).wf(),
        ensures
            final(self).wf(),
            match row {
                Some(cells) => {
                    &&& old(self)@.num_rows > 0
                    &&& cells@ == old(self)@.row(0)
                    &&& cells@.len() == old(self)@.num_cols
                    &&& final(self)@ == old(self)@.after_first_row()
                },
                None => old(self)@.num_rows == 0 && final(self)@ == old(self)@,
            },
    {
        if self.num_rows == 0 {
            None
        } else {
            proof {
                self@.lemma_first_row();
            }
            let (row, rest) = self.rest.split_at(self.num_cols);
            self.rest = rest;
            self.num_rows = self.num_rows - 1;
            Some(row)
        }
    }
}

/// The rows of a view that are still to come, first to last, for writing.
///
/// Each row is handed out once and for as long as the view is borrowed, so
/// rows can be held side by side. Like [`Rows`] this is a cursor and
/// allocates nothing.
pub struct RowsMut<'a, T> {
    rest: &'a mut [T],
    num_rows: usize,
    num_cols: usize,
}

impl<'a, T> View for RowsMut<'a, T> {
    type V = Grid<T>;

    /// What is left to walk, as a grid of its own: the rows that `next` has
    /// yet to hand out, as they are now and in the order in which it will.
    closed spec fn view(&self) -> Grid<T> {
        Grid { cells: self.rest@, num_rows: self.num_rows as nat, num_cols: self.num_cols as nat }
    }
}

impl<'a, T> RowsMut<'a, T> {
    /// What is left to walk is whole rows: `new` makes it so and `next`
    /// keeps it so.
    pub open spec fn wf(&self) -> bool {
        self@.wf()
    }

    /// The borrow of the cells that are still to be handed out. Its final
    /// value is what the rows not yet asked for end up holding.
    pub closed spec fn backing(&self) -> &mut [T] {
        self.rest
    }

    /// The rows of `cells` read as `num_rows` rows of `num_cols` cells.
    pub(crate) fn new(cells: &'a mut [T], num_rows: usize, num_cols: usize) -> (rows: Self)
        requires
            old(cells)@.len() == num_rows * num_cols,
        ensures
            rows.wf(),
            rows@ == (Grid {
                cells: old(cells)@,
                num_rows: num_rows as nat,
                num_cols: num_cols as nat,
            }),
            final(rows.backing())@ == final(cells)@,
    {
        RowsMut { rest: cells, num_rows, num_cols }
    }

    /// The next row, or `None` when every row was handed out.
    ///
    /// The cells that were left before the call end up as what is written to
    /// the row, followed by what the later rows end up holding.
    pub fn next(&mut self) -> (row: Option<&'a mut [T]>)
        requires
            old(self).wf(),
        ensures
            final(self).wf(),
            match row {
                Some(cells) => {
                    &&& old(self)@.num_rows > 0
                    &&& cells@ == old(self)@.row(0)
                    &&& cells@.len() == old(self)@.num_cols
                    &&& final(self)@ == old(self)@.after_first_row()
                    &&& final(old(self).backing())@ == final(cells)@ + final(
                        final(self).backing())@
                },
                None => {
                    &&& old(self)@.num_rows == 0
                    &&& final(self)@ == old(self)@
                    &&& final(final(self).backing())@ == final(old(self).backing())@
                },
            },
    {
        if self.num_rows == 0 {
            None
        } else {
            proof {
                self@.lemma_first_row();
            }
            let mut rest: &'a mut [T] = &mut [];
            std::mem::swap(&mut self.rest, &mut rest);
            let (row, rest) = rest.split_at_mut(self.num_cols);
            self.rest = rest;
            self.num_rows = self.num_rows - 1;
            Some(row)
        }
    }

    /// A cursor that is no longer used has given back the cells it still
    /// held: the rows that were not asked for end up as they are.
    pub proof fn lemma_released(self)
        requires
            has_resolved(self),
        ensures
            final(self.backing())@ == self@.cells,
    {
    }
}

} // verus!
