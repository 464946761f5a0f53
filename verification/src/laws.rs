//! What holds between the operations of a view, whatever the buffer, the
//! shape and the coordinates.
//!
//! Each law speaks of the results of calls by way of the contracts of the
//! functions called: `call_ensures(f, args, result)` says that `result` is
//! something that `f` may return for `args`. Where a call takes a `&mut`, the
//! parameter of the law is that borrow: `old(..)` is what it held before the
//! call and `final(..)` what it holds once the call and the loans it made are
//! over.

use crate::array::TwoDimensionalArray;
use crate::column_index::ColumnIndex;
use crate::rows::{Rows, RowsMut};
use crate::shape_error::ShapeError;
use vstd::prelude::*;

verus! {

/// A shape that accounts for every cell of the buffer is accepted, and the
/// view then reports that shape.
pub proof fn lemma_new_gives_shape<'a, T>(
    buffer: &'a mut [T],
    num_rows: usize,
    num_cols: usize,
    made: Result<TwoDimensionalArray<'a, T>, ShapeError>,
    shape: (usize, usize),
)
    requires
        old(buffer)@.len() == num_rows * num_cols,
        call_ensures(TwoDimensionalArray::<'a, T>::new, (buffer, num_rows, num_cols), made),
        made matches Ok(view) ==> call_ensures(
            TwoDimensionalArray::<'a, T>::shape,
            (&view,),
            shape,
        ),
    ensures
        made is Ok,
        shape == (num_rows, num_cols),
{
}

/// A shape that does not account for every cell is refused by `new`, with an
/// error that names the cell count and the shape, and the buffer is left as it
/// was.
pub proof fn lemma_new_refuses_wrong_shape<'a, T>(
    buffer: &'a mut [T],
    num_rows: usize,
    num_cols: usize,
    made: Result<TwoDimensionalArray<'a, T>, ShapeError>,
)
    requires
        old(buffer)@.len() != num_rows * num_cols,
        call_ensures(TwoDimensionalArray::<'a, T>::new, (buffer, num_rows, num_cols), made),
    ensures
        made matches Err(error) && error == (ShapeError::InvalidShape {
            buffer_len: old(buffer)@.len() as usize,
            num_rows,
            num_cols,
        }),
        final(buffer)@ == old(buffer)@,
{
}

/// A shape that does not account for every cell is refused by `reshape`, with
/// an error that names the cell count and the shape, and the view reports the
/// shape it had.
pub proof fn lemma_reshape_refuses_wrong_shape<'a, T>(
    view: &mut TwoDimensionalArray<'a, T>,
    num_rows: usize,
    num_cols: usize,
    shape_before: (usize, usize),
    reshaped: Result<(), ShapeError>,
    shape_after: (usize, usize),
)
    requires
        old(view)@.cells.len() != num_rows * num_cols,
        call_ensures(TwoDimensionalArray::<'a, T>::shape, (&*old(view),), shape_before),
        call_ensures(TwoDimensionalArray::<'a, T>::reshape, (view, num_rows, num_cols), reshaped),
        call_ensures(TwoDimensionalArray::<'a, T>::shape, (&*final(view),), shape_after),
    ensures
        reshaped == Err::<(), ShapeError>(
            ShapeError::InvalidShape {
                buffer_len: old(view)@.cells.len() as usize,
                num_rows,
                num_cols,
            },
        ),
        shape_after == shape_before,
        final(view)@ == old(view)@,
{
}

/// A shape that accounts for every cell is taken on by `reshape`: the view
/// reports it, over the cells it had.
pub proof fn lemma_reshape_gives_shape<'a, T>(
    view: &mut TwoDimensionalArray<'a, T>,
    num_rows: usize,
    num_cols: usize,
    reshaped: Result<(), ShapeError>,
    shape: (usize, usize),
    flat: &[T],
)
    requires
        old(view)@.cells.len() == num_rows * num_cols,
        call_ensures(TwoDimensionalArray::<'a, T>::reshape, (view, num_rows, num_cols), reshaped),
        call_ensures(TwoDimensionalArray::<'a, T>::shape, (&*final(view),), shape),
        call_ensures(TwoDimensionalArray::<'a, T>::as_slice, (&*final(view),), flat),
    ensures
        reshaped is Ok,
        shape == (num_rows, num_cols),
        flat@ == old(view)@.cells,
        final(view).wf(),
{
}

/// Inside the shape the three ways of reading agree: `get` finds what
/// `get_panic` and `get_unchecked` hand out.
pub proof fn lemma_tiers_agree<'a, T, I: ColumnIndex<T>>(
    view: &TwoDimensionalArray<'a, T>,
    row_idx: usize,
    col_idx: I,
    found: Option<&I::Output>,
    indexed: &I::Output,
    unchecked: &I::Output,
)
    requires
        view.wf(),
        view@.in_bounds(row_idx as int, col_idx.col_start() as int, col_idx.col_end() as int),
        call_ensures(TwoDimensionalArray::<'a, T>::get::<I>, (view, row_idx, col_idx), found),
        call_ensures(
            TwoDimensionalArray::<'a, T>::get_panic::<I>,
            (view, row_idx, col_idx),
            indexed,
        ),
        call_ensures(
            TwoDimensionalArray::<'a, T>::get_unchecked::<I>,
            (view, row_idx, col_idx),
            unchecked,
        ),
    ensures
        found == Some(indexed),
        indexed == unchecked,
        I::cells(indexed) == view@.span(
            row_idx as int,
            col_idx.col_start() as int,
            col_idx.col_end() as int,
        ),
{
    I::lemma_cells_identify(found.unwrap(), indexed);
    I::lemma_cells_identify(indexed, unchecked);
}

/// Cell `(row, col)` is the cell at offset `row * num_cols + col` of the
/// buffer: rows lie one after the other, each `num_cols` cells long.
pub proof fn lemma_cell_sits_at_offset<'a, T>(
    view: &TwoDimensionalArray<'a, T>,
    row_idx: usize,
    col_idx: usize,
    found: Option<&T>,
    flat: &[T],
)
    requires
        view.wf(),
        row_idx < view@.num_rows,
        col_idx < view@.num_cols,
        call_ensures(TwoDimensionalArray::<'a, T>::get::<usize>, (view, row_idx, col_idx), found),
        call_ensures(TwoDimensionalArray::<'a, T>::as_slice, (view,), flat),
    ensures
        0 <= row_idx * view@.num_cols + col_idx < flat@.len(),
        found == Some(&flat@[row_idx * view@.num_cols + col_idx]),
{
    view@.lemma_span_fits(row_idx as int, col_idx as int, col_idx + 1);
    view@.lemma_single_cell(row_idx as int, col_idx as int, *found.unwrap());
}

/// Outside the shape `get` finds nothing, whether it is the row or the
/// columns that lie outside.
pub proof fn lemma_outside_is_none<'a, T, I: ColumnIndex<T>>(
    view: &TwoDimensionalArray<'a, T>,
    row_idx: usize,
    col_idx: I,
    found: Option<&I::Output>,
)
    requires
        view.wf(),
        row_idx >= view@.num_rows || col_idx.col_start() > col_idx.col_end() || col_idx.col_end()
            > view@.num_cols,
        call_ensures(TwoDimensionalArray::<'a, T>::get::<I>, (view, row_idx, col_idx), found),
    ensures
        found is None,
{
}

/// The rows make up the buffer: `rows` walks `num_rows` rows of `num_cols`
/// cells each, and laid end to end they are what `as_slice` hands out.
pub proof fn lemma_rows_make_up_buffer<'a, T>(
    view: &TwoDimensionalArray<'a, T>,
    rows: Rows<'a, T>,
    flat: &[T],
)
    requires
        view.wf(),
        call_ensures(TwoDimensionalArray::<'a, T>::rows, (view,), rows),
        call_ensures(TwoDimensionalArray::<'a, T>::as_slice, (view,), flat),
    ensures
        rows@.rows().len() == view@.num_rows,
        forall|row: int|
            0 <= row < view@.num_rows ==> (#[trigger] rows@.rows()[row]).len() == view@.num_cols,
        rows@.rows().flatten() == flat@,
{
    view@.lemma_rows_partition();
}

/// What is written through `get_mut` shows in `as_slice`: the buffer is as
/// before but for the cells that were lent out, which hold what was written.
pub proof fn lemma_write_shows_in_slice<'a, T, I: ColumnIndex<T>>(
    view: &mut TwoDimensionalArray<'a, T>,
    row_idx: usize,
    col_idx: I,
    found: Option<&mut I::Output>,
    flat: &[T],
)
    requires
        old(view).wf(),
        old(view)@.in_bounds(
            row_idx as int,
            col_idx.col_start() as int,
            col_idx.col_end() as int,
        ),
        call_ensures(TwoDimensionalArray::<'a, T>::get_mut::<I>, (view, row_idx, col_idx), found),
        call_ensures(TwoDimensionalArray::<'a, T>::as_slice, (&*final(view),), flat),
        found matches Some(picked) ==> I::cells(final(picked)).len() == I::cells(picked).len(),
    ensures
        found matches Some(picked) && flat@ == old(view)@.with_span(
            row_idx as int,
            col_idx.col_start() as int,
            col_idx.col_end() as int,
            I::cells(final(picked)),
        ).cells && flat@.subrange(
            old(view)@.offset(row_idx as int, col_idx.col_start() as int),
            old(view)@.offset(row_idx as int, col_idx.col_end() as int),
        ) == I::cells(final(picked)),
        final(view).wf(),
{
    let picked = found.unwrap();
    old(view)@.lemma_span_fits(
        row_idx as int,
        col_idx.col_start() as int,
        col_idx.col_end() as int,
    );
    old(view)@.lemma_written_is_read(
        row_idx as int,
        col_idx.col_start() as int,
        col_idx.col_end() as int,
        I::cells(final(picked)),
    );
}

/// What is written through `get_mut_panic` shows in `as_slice`, as for
/// `get_mut`.
pub proof fn lemma_indexed_write_shows_in_slice<'a, T, I: ColumnIndex<T>>(
    view: &mut TwoDimensionalArray<'a, T>,
    row_idx: usize,
    col_idx: I,
    picked: &mut I::Output,
    flat: &[T],
)
    requires
        old(view).wf(),
        old(view)@.in_bounds(
            row_idx as int,
            col_idx.col_start() as int,
            col_idx.col_end() as int,
        ),
        call_ensures(
            TwoDimensionalArray::<'a, T>::get_mut_panic::<I>,
            (view, row_idx, col_idx),
            picked,
        ),
        call_ensures(TwoDimensionalArray::<'a, T>::as_slice, (&*final(view),), flat),
        I::cells(final(picked)).len() == I::cells(picked).len(),
    ensures
        flat@ == old(view)@.with_span(
            row_idx as int,
            col_idx.col_start() as int,
            col_idx.col_end() as int,
            I::cells(final(picked)),
        ).cells,
        flat@.subrange(
            old(view)@.offset(row_idx as int, col_idx.col_start() as int),
            old(view)@.offset(row_idx as int, col_idx.col_end() as int),
        ) == I::cells(final(picked)),
        final(view).wf(),
{
    old(view)@.lemma_span_fits(
        row_idx as int,
        col_idx.col_start() as int,
        col_idx.col_end() as int,
    );
    old(view)@.lemma_written_is_read(
        row_idx as int,
        col_idx.col_start() as int,
        col_idx.col_end() as int,
        I::cells(final(picked)),
    );
}

/// What is written to the first row that `rows_mut` hands out shows in
/// `as_slice`: the buffer then begins with it, and goes on with what the later
/// rows end up holding.
pub proof fn lemma_row_write_shows_in_slice<'a, T>(
    view: &mut TwoDimensionalArray<'a, T>,
    rows: &mut RowsMut<'a, T>,
    row: Option<&'a mut [T]>,
    flat: &[T],
)
    requires
        old(view).wf(),
        old(view)@.num_rows > 0,
        call_ensures(TwoDimensionalArray::<'a, T>::rows_mut, (view,), *old(rows)),
        call_ensures(RowsMut::<'a, T>::next, (rows,), row),
        call_ensures(TwoDimensionalArray::<'a, T>::as_slice, (&*final(view),), flat),
    ensures
        row matches Some(cells) && cells@ == old(view)@.row(0) && flat@ == final(cells)@ + final(
            final(rows).backing())@,
{
}

/// What is written through `as_mut_slice` shows in the cells that `get_panic`
/// hands out afterwards: they are the cells of the slice as it was left.
pub proof fn lemma_slice_write_shows_in_cells<'a, T, I: ColumnIndex<T>>(
    view: &mut TwoDimensionalArray<'a, T>,
    flat: &mut [T],
    row_idx: usize,
    col_idx: I,
    picked: &I::Output,
)
    requires
        old(view).wf(),
        old(view)@.in_bounds(
            row_idx as int,
            col_idx.col_start() as int,
            col_idx.col_end() as int,
        ),
        call_ensures(TwoDimensionalArray::<'a, T>::as_mut_slice, (view,), flat),
        final(flat)@.len() == old(flat)@.len(),
        call_ensures(
            TwoDimensionalArray::<'a, T>::get_panic::<I>,
            (&*final(view), row_idx, col_idx),
            picked,
        ),
    ensures
        I::cells(picked) == final(flat)@.subrange(
            old(view)@.offset(row_idx as int, col_idx.col_start() as int),
            old(view)@.offset(row_idx as int, col_idx.col_end() as int),
        ),
{
}

} // verus!
