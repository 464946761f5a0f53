//! The view itself: a borrowed buffer and the shape read into it.

use crate::column_index::{subslice_mut, ColumnIndex};
use crate::grid::{lemma_splice_same, lemma_splice_within, splice, Grid};
use crate::rows::{Rows, RowsMut};
use crate::shape_error::ShapeError;
use vstd::prelude::*;

verus! {

/// A two-dimensional view of a one-dimensional buffer, laid out row by row.
///
/// The view borrows the buffer exclusively for as long as it lives and never
/// copies a cell: what is written through the view is written to the buffer.
/// Only cells of one row can be handed out together, because only they are
/// neighbours in the buffer.
///
/// There are three ways to reach cells by row and columns. [`get`] answers
/// `None` for what lies outside the shape. [`get_panic`] and
/// [`get_unchecked`] are for callers that know the coordinates to lie inside:
/// they demand it as a precondition and hand out the cells themselves. Each
/// has a `_mut` twin for writing.
///
/// [`get`]: TwoDimensionalArray::get
/// [`get_panic`]: TwoDimensionalArray::get_panic
/// [`get_unchecked`]: TwoDimensionalArray::get_unchecked
pub struct TwoDimensionalArray<'a, T> {
    buffer: &'a mut [T],
    num_rows: usize,
    num_cols: usize,
}

impl<'a, T> View for TwoDimensionalArray<'a, T> {
    type V = Grid<T>;

    /// The cells as the buffer holds them now, and the shape read into them.
    closed spec fn view(&self) -> Grid<T> {
        Grid {
            cells: self.buffer@,
            num_rows: self.num_rows as nat,
            num_cols: self.num_cols as nat,
        }
    }
}

impl<'a, T> TwoDimensionalArray<'a, T> {
    /// The shape accounts for every cell of the buffer.
    ///
    /// `new` and `reshape` establish this and every method keeps it, with one
    /// proviso: where a method lends out a slice for writing, it is kept as
    /// long as that slice still has its length when the loan ends. Every
    /// slice does, but the caller is the one who can see it.
    pub open spec fn wf(&self) -> bool {
        self@.wf()
    }

    /// The borrow that the view was made from. Its final value is what the
    /// owner of the buffer finds there once the view is gone.
    pub closed spec fn backing(&self) -> &mut [T] {
        self.buffer
    }

    /// Reads `buffer` as `num_rows` rows of `num_cols` cells.
    ///
    /// This succeeds exactly when the shape accounts for every cell. A shape
    /// whose product does not even fit the machine word is refused like any
    /// other wrong shape.
    pub fn new(buffer: &'a mut [T], num_rows: usize, num_cols: usize) -> (made: Result<
        Self,
        ShapeError,
    >)
        ensures
            made is Ok <==> old(buffer)@.len() == num_rows * num_cols,
            made matches Ok(view) ==> view.wf() && view@ == (Grid {
                cells: old(buffer)@,
                num_rows: num_rows as nat,
                num_cols: num_cols as nat,
            }) && final(view.backing())@ == final(buffer)@,
            made matches Err(error) ==> error == (ShapeError::InvalidShape {
                buffer_len: old(buffer)@.len() as usize,
                num_rows,
                num_cols,
            }) && final(buffer)@ == old(buffer)@,
    {
        if fits(buffer.len(), num_rows, num_cols) {
            Ok(TwoDimensionalArray { buffer, num_rows, num_cols })
        } else {
            Err(ShapeError::InvalidShape { buffer_len: buffer.len(), num_rows, num_cols })
        }
    }

    /// Reads the same buffer in another shape.
    ///
    /// The new shape is checked against the buffer as `new` checks it. When
    /// it is refused the view keeps the shape it had.
    pub fn reshape(&mut self, num_rows: usize, num_cols: usize) -> (done: Result<(), ShapeError>)
        ensures
            done is Ok <==> old(self)@.cells.len() == num_rows * num_cols,
            done is Ok ==> final(self).wf() && final(self)@ == old(self)@.with_shape(
                num_rows as nat,
                num_cols as nat,
            ),
            done matches Err(error) ==> error == (ShapeError::InvalidShape {
                buffer_len: old(self)@.cells.len() as usize,
                num_rows,
                num_cols,
            }) && final(self)@ == old(self)@,
            final(final(self).backing())@ == final(old(self).backing())@,
    {
        if fits(self.buffer.len(), num_rows, num_cols) {
            self.num_rows = num_rows;
            self.num_cols = num_cols;
            Ok(())
        } else {
            Err(ShapeError::InvalidShape { buffer_len: self.buffer.len(), num_rows, num_cols })
        }
    }

    /// The shape that the buffer is read in, rows first.
    pub fn shape(&self) -> (shape: (usize, usize))
        ensures
            shape.0 == self@.num_rows,
            shape.1 == self@.num_cols,
    {
        (self.num_rows, self.num_cols)
    }

    /// The number of rows.
    pub fn num_rows(&self) -> (rows: usize)
        ensures
            rows == self@.num_rows,
    {
        self.num_rows
    }

    /// The number of columns, which is the length of a row.
    pub fn num_cols(&self) -> (cols: usize)
        ensures
            cols == self@.num_cols,
    {
        self.num_cols
    }

    /// The number of cells in the buffer: `num_rows * num_cols` of them in a
    /// well-formed view.
    pub fn len(&self) -> (cells: usize)
        ensures
            cells == self@.cells.len(),
    {
        self.buffer.len()
    }

    /// Whether the buffer has no cell at all.
    pub fn is_empty(&self) -> (empty: bool)
        ensures
            empty <==> self@.cells.len() == 0,
    {
        self.buffer.len() == 0
    }

    /// The cells `col_idx` of row `row_idx`, for a caller that has shown the
    /// coordinates to lie inside the shape.
    ///
    /// With that shown, no failure is left to report, and none is looked for:
    /// the row is taken from the buffer and the columns from the row. It
    /// hands out the same cells as [`get_panic`](TwoDimensionalArray::get_panic).
    pub fn get_unchecked<I: ColumnIndex<T>>(&self, row_idx: usize, col_idx: I) -> (picked:
        &I::Output)
        requires
            self.wf(),
            self@.in_bounds(
                row_idx as int,
                col_idx.col_start() as int,
                col_idx.col_end() as int,
            ),
        ensures
            I::cells(picked) == self@.span(
                row_idx as int,
                col_idx.col_start() as int,
                col_idx.col_end() as int,
            ),
    {
        proof {
            self.lemma_row_splices(row_idx, col_idx.col_start() as int, col_idx.col_end() as int);
        }
        col_idx.index(self.row(row_idx))
    }

    /// The cells `col_idx` of row `row_idx` for writing, for a caller that has
    /// shown the coordinates to lie inside the shape.
    ///
    /// What is written through the result is written to those cells of the
    /// buffer and to no other.
    pub fn get_unchecked_mut<I: ColumnIndex<T>>(&mut self, row_idx: usize, col_idx: I) -> (picked:
        &mut I::Output)
        requires
            old(self).wf(),
            old(self)@.in_bounds(
                row_idx as int,
                col_idx.col_start() as int,
                col_idx.col_end() as int,
            ),
        ensures
            I::cells(picked) == old(self)@.span(
                row_idx as int,
                col_idx.col_start() as int,
                col_idx.col_end() as int,
            ),
            final(self)@ == old(self)@.with_span(
                row_idx as int,
                col_idx.col_start() as int,
                col_idx.col_end() as int,
                I::cells(final(picked)),
            ),
            I::cells(final(picked)).len() == I::cells(picked).len() ==> final(self).wf(),
            final(final(self).backing())@ == final(old(self).backing())@,
    {
        proof {
            self.lemma_row_splices(row_idx, col_idx.col_start() as int, col_idx.col_end() as int);
        }
        col_idx.index_mut(self.row_mut(row_idx))
    }

    /// The cells `col_idx` of row `row_idx`, or `None` when the row or the
    /// columns lie outside the shape.
    ///
    /// A column gives the cell, a range of columns the slice of the row. An
    /// empty range within a row of the shape gives the empty slice.
    pub fn get<I: ColumnIndex<T>>(&self, row_idx: usize, col_idx: I) -> (found: Option<
        &I::Output,
    >)
        requires
            self.wf(),
        ensures
            found is Some <==> self@.in_bounds(
                row_idx as int,
                col_idx.col_start() as int,
                col_idx.col_end() as int,
            ),
            found matches Some(picked) ==> I::cells(picked) == self@.span(
                row_idx as int,
                col_idx.col_start() as int,
                col_idx.col_end() as int,
            ),
    {
        if row_idx < self.num_rows {
            proof {
                self.lemma_row_splices(
                    row_idx,
                    col_idx.col_start() as int,
                    col_idx.col_end() as int,
                );
            }
            col_idx.get(self.row(row_idx))
        } else {
            None
        }
    }

    /// The cells `col_idx` of row `row_idx` for writing, or `None` when the
    /// row or the columns lie outside the shape.
    ///
    /// What is written through the result is written to those cells of the
    /// buffer and to no other. With `None` nothing was lent out and the view
    /// is as it was.
    pub fn get_mut<I: ColumnIndex<T>>(&mut self, row_idx: usize, col_idx: I) -> (found: Option<
        &mut I::Output,
    >)
        requires
            old(self).wf(),
        ensures
            found is Some <==> old(self)@.in_bounds(
                row_idx as int,
                col_idx.col_start() as int,
                col_idx.col_end() as int,
            ),
            found matches Some(picked) ==> I::cells(picked) == old(self)@.span(
                row_idx as int,
                col_idx.col_start() as int,
                col_idx.col_end() as int,
            ) && final(self)@ == old(self)@.with_span(
                row_idx as int,
                col_idx.col_start() as int,
                col_idx.col_end() as int,
                I::cells(final(picked)),
            ) && (I::cells(final(picked)).len() == I::cells(picked).len() ==> final(self).wf()),
            found is None ==> final(self)@ == old(self)@,
            final(final(self).backing())@ == final(old(self).backing())@,
    {
        if row_idx < self.num_rows {
            proof {
                self.lemma_row_splices(
                    row_idx,
                    col_idx.col_start() as int,
                    col_idx.col_end() as int,
                );
            }
            col_idx.get_mut(self.row_mut(row_idx))
        } else {
            None
        }
    }

    /// The cells `col_idx` of row `row_idx`, for coordinates inside the
    /// shape.
    ///
    /// This is indexing. As with an index into a slice, coordinates outside
    /// the shape are a fault of the caller, and the precondition rules them
    /// out. The bounds are tested all the same, as [`get`] tests them, so
    /// that a caller that was not verified is stopped by a panic and never
    /// handed cells that it did not ask for.
    ///
    /// [`get`]: TwoDimensionalArray::get
    pub fn get_panic<I: ColumnIndex<T>>(&self, row_idx: usize, col_idx: I) -> (picked: &I::Output)
        requires
            self.wf(),
            self@.in_bounds(
                row_idx as int,
                col_idx.col_start() as int,
                col_idx.col_end() as int,
            ),
        ensures
            I::cells(picked) == self@.span(
                row_idx as int,
                col_idx.col_start() as int,
                col_idx.col_end() as int,
            ),
    {
        self.get(row_idx, col_idx).unwrap()
    }

    /// The cells `col_idx` of row `row_idx` for writing, for coordinates
    /// inside the shape.
    ///
    /// What is written through the result is written to those cells of the
    /// buffer and to no other. The bounds are tested as in
    /// [`get_panic`](TwoDimensionalArray::get_panic).
    pub fn get_mut_panic<I: ColumnIndex<T>>(&mut self, row_idx: usize, col_idx: I) -> (picked:
        &mut I::Output)
        requires
            old(self).wf(),
            old(self)@.in_bounds(
                row_idx as int,
                col_idx.col_start() as int,
                col_idx.col_end() as int,
            ),
        ensures
            I::cells(picked) == old(self)@.span(
                row_idx as int,
                col_idx.col_start() as int,
                col_idx.col_end() as int,
            ),
            final(self)@ == old(self)@.with_span(
                row_idx as int,
                col_idx.col_start() as int,
                col_idx.col_end() as int,
                I::cells(final(picked)),
            ),
            I::cells(final(picked)).len() == I::cells(picked).len() ==> final(self).wf(),
            final(final(self).backing())@ == final(old(self).backing())@,
    {
        self.get_mut(row_idx, col_idx).unwrap()
    }

    /// The rows, first to last, one at each call of `next`.
    ///
    /// There are `num_rows` of them and each is `num_cols` cells long, also
    /// where that is no cell at all.
    pub fn rows(&self) -> (rows: Rows<'_, T>)
        requires
            self.wf(),
        ensures
            rows.wf(),
            rows@ == self@,
    {
        Rows::new(self.buffer, self.num_rows, self.num_cols)
    }

    /// The rows for writing, first to last, one at each call of `next`.
    ///
    /// The rows do not overlap, so all of them can be held and written at
    /// once. What is written to a row is written to the buffer; the cells of
    /// rows that were not asked for stay as they are.
    pub fn rows_mut(&mut self) -> (rows: RowsMut<'_, T>)
        requires
            old(self).wf(),
        ensures
            rows.wf(),
            rows@ == old(self)@,
            final(self)@ == old(self)@.with_cells(final(rows.backing())@),
            final(rows.backing())@.len() == old(self)@.cells.len() ==> final(self).wf(),
            final(final(self).backing())@ == final(old(self).backing())@,
    {
        RowsMut::new(self.buffer, self.num_rows, self.num_cols)
    }

    /// The whole buffer, flat.
    pub fn as_slice(&self) -> (cells: &[T])
        ensures
            cells@ == self@.cells,
    {
        self.buffer
    }

    /// The whole buffer, flat, for writing.
    ///
    /// What is written to the slice is what the view then holds, in the shape
    /// it had.
    pub fn as_mut_slice(&mut self) -> (cells: &mut [T])
        ensures
            cells@ == old(self)@.cells,
            final(self)@ == old(self)@.with_cells(final(cells)@),
            old(self).wf() && final(cells)@.len() == cells@.len() ==> final(self).wf(),
            final(final(self).backing())@ == final(old(self).backing())@,
    {
        self.buffer
    }

    /// A view that is no longer used has given every cell back: the buffer
    /// ends up holding what the view held last.
    pub proof fn lemma_released(self)
        requires
            has_resolved(self),
        ensures
            final(self.backing())@ == self@.cells,
    {
    }

    /// All the cells of row `row_idx`.
    fn row(&self, row_idx: usize) -> (row: &[T])
        requires
            self.wf(),
            row_idx < self@.num_rows,
        ensures
            row@ == self@.row(row_idx as int),
    {
        proof {
            self.lemma_row_splices(row_idx, 0, 0);
        }
        let start = row_idx * self.num_cols;
        &self.buffer[start..start + self.num_cols]
    }

    /// All the cells of row `row_idx`, for writing.
    fn row_mut(&mut self, row_idx: usize) -> (row: &mut [T])
        requires
            old(self).wf(),
            row_idx < old(self)@.num_rows,
        ensures
            row@ == old(self)@.row(row_idx as int),
            final(self)@ == old(self)@.with_span(
                row_idx as int,
                0,
                old(self)@.num_cols as int,
                final(row)@,
            ),
            final(final(self).backing())@ == final(old(self).backing())@,
    {
        proof {
            self.lemma_row_splices(row_idx, 0, 0);
        }
        let start = row_idx * self.num_cols;
        subslice_mut(self.buffer, start, start + self.num_cols)
    }

    /// Where a row lies in the buffer, and what writing to a part of it does
    /// to the whole.
    proof fn lemma_row_splices(&self, row_idx: usize, first: int, last: int)
        requires
            self.wf(),
            row_idx < self.num_rows,
        ensures
            row_idx * self.num_cols + self.num_cols <= self@.cells.len() <= usize::MAX,
            row_idx * self.num_cols == self@.offset(row_idx as int, 0),
            splice(
                self@.cells,
                self@.offset(row_idx as int, 0),
                self@.offset(row_idx as int, self.num_cols as int),
                self@.row(row_idx as int),
            ) == self@.cells,
            0 <= first <= last <= self.num_cols ==> {
                &&& self@.row(row_idx as int).subrange(first, last) == self@.span(
                    row_idx as int,
                    first,
                    last,
                )
                &&& forall|written: Seq<T>|
                    splice(
                        self@.cells,
                        self@.offset(row_idx as int, 0),
                        self@.offset(row_idx as int, self.num_cols as int),
                        #[trigger] splice(self@.row(row_idx as int), first, last, written),
                    ) == splice(
                        self@.cells,
                        self@.offset(row_idx as int, first),
                        self@.offset(row_idx as int, last),
                        written,
                    )
                &&& forall|written: Seq<T>|
                    written.len() == last - first ==> #[trigger] self@.with_span(
                        row_idx as int,
                        first,
                        last,
                        written,
                    ).wf()
            },
    {
        let cells = self@.cells;
        let start = self@.offset(row_idx as int, 0);
        let end = self@.offset(row_idx as int, self.num_cols as int);
        self@.lemma_span_fits(row_idx as int, 0, 0);
        assert(self.buffer.len() == self.buffer@.len());
        lemma_splice_same(cells, start, end);
        if 0 <= first <= last <= self.num_cols {
            lemma_splice_within(cells, start, end, first, last, Seq::empty());
            assert forall|written: Seq<T>|
                splice(
                    cells,
                    start,
                    end,
                    #[trigger] splice(self@.row(row_idx as int), first, last, written),
                ) == splice(cells, start + first, start + last, written) by {
                lemma_splice_within(cells, start, end, first, last, written);
            }
        }
    }
}

/// Whether `num_rows` rows of `num_cols` cells are `len` cells.
fn fits(len: usize, num_rows: usize, num_cols: usize) -> (yes: bool)
    ensures
        yes <==> len == num_rows * num_cols,
{
    assert(num_cols * num_rows == num_rows * num_cols) by (nonlinear_arith);
    match num_cols.checked_mul(num_rows) {
        Some(cells) => len == cells,
        None => false,
    }
}

} // verus!
