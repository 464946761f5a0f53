//! What can pick cells out of one row: a column, or a run of columns.

use crate::grid::splice;
use crate::sealed::Sealed;
use std::ops::Range;
use vstd::prelude::*;

verus! {

/// A selector of cells within one row.
///
/// Every selector stands for a run of neighbouring columns,
/// `col_start() .. col_end()`. A single column `c` is the run `c .. c + 1`
/// and hands out the one cell; a range hands out a slice.
///
/// The selectors are a column (`usize`) and a range of columns
/// (`Range<usize>`), and there are no others: the trait cannot be implemented
/// outside this crate, so what is proved of these two holds of every selector
/// that a view will ever be given.
pub trait ColumnIndex<T>: Sized + Sealed {
    /// What the selector hands out: a cell, or a slice of cells.
    type Output: ?Sized;

    /// The first column that is selected.
    spec fn col_start(&self) -> nat;

    /// The column after the last one that is selected.
    spec fn col_end(&self) -> nat;

    /// The cells that `out` holds, in column order.
    spec fn cells(out: &Self::Output) -> Seq<T>;

    /// What is handed out is its cells and nothing else: two results with
    /// the same cells are the same result.
    proof fn lemma_cells_identify(a: &Self::Output, b: &Self::Output)
        requires
            Self::cells(a) == Self::cells(b),
        ensures
            a == b,
    ;

    /// The selected cells of `row`, for a selector that lies within the row.
    fn index<'s>(self, row: &'s [T]) -> (picked: &'s Self::Output)
        requires
            self.col_start() <= self.col_end() <= row@.len(),
        ensures
            Self::cells(picked) == row@.subrange(self.col_start() as int, self.col_end() as int),
    ;

    /// The selected cells of `row` for writing, for a selector that lies
    /// within the row.
    ///
    /// What is written through the result is written to those cells of `row`
    /// and to no other.
    fn index_mut<'s>(self, row: &'s mut [T]) -> (picked: &'s mut Self::Output)
        requires
            self.col_start() <= self.col_end() <= old(row)@.len(),
        ensures
            Self::cells(picked) == old(row)@.subrange(
                self.col_start() as int,
                self.col_end() as int,
            ),
            final(row)@ == splice(
                old(row)@,
                self.col_start() as int,
                self.col_end() as int,
                Self::cells(final(picked)),
            ),
    ;

    /// The selected cells of `row`, or `None` when the selector does not lie
    /// within the row.
    fn get<'s>(self, row: &'s [T]) -> (out: Option<&'s Self::Output>)
        ensures
            out is Some <==> self.col_start() <= self.col_end() <= row@.len(),
            out matches Some(picked) ==> Self::cells(picked) == row@.subrange(
                self.col_start() as int,
                self.col_end() as int,
            ),
    ;

    /// The selected cells of `row` for writing, or `None` when the selector
    /// does not lie within the row, and `row` is then left as it is.
    fn get_mut<'s>(self, row: &'s mut [T]) -> (out: Option<&'s mut Self::Output>)
        ensures
            out is Some <==> self.col_start() <= self.col_end() <= old(row)@.len(),
            out matches Some(picked) ==> Self::cells(picked) == old(row)@.subrange(
                self.col_start() as int,
                self.col_end() as int,
            ) && final(row)@ == splice(
                old(row)@,
                self.col_start() as int,
                self.col_end() as int,
                Self::cells(final(picked)),
            ),
            out is None ==> final(row)@ == old(row)@,
    ;
}

/// One column: the cell in that column.
impl<T> ColumnIndex<T> for usize {
    type Output = T;

    open spec fn col_start(&self) -> nat {
        *self as nat
    }

    open spec fn col_end(&self) -> nat {
        (*self + 1) as nat
    }

    open spec fn cells(out: &T) -> Seq<T> {
        seq![*out]
    }

    proof fn lemma_cells_identify(a: &T, b: &T) {
        assert(seq![*a][0] == seq![*b][0]);
    }

    fn index<'s>(self, row: &'s [T]) -> (picked: &'s T) {
        let picked = &row[self];
        assert(seq![*picked] =~= row@.subrange(self as int, self + 1));
        picked
    }

    fn index_mut<'s>(self, row: &'s mut [T]) -> (picked: &'s mut T) {
        let (_, tail) = row.split_at_mut(self);
        let picked = tail.first_mut().unwrap();
        assert(seq![*picked] =~= old(row)@.subrange(self as int, self + 1));
        picked
    }

    fn get<'s>(self, row: &'s [T]) -> (out: Option<&'s T>) {
        if self < row.len() {
            Some(self.index(row))
        } else {
            None
        }
    }

    fn get_mut<'s>(self, row: &'s mut [T]) -> (out: Option<&'s mut T>) {
        if self < row.len() {
            Some(self.index_mut(row))
        } else {
            None
        }
    }
}

/// The columns from `start` up to, not including, `end`: a slice of the row.
impl<T> ColumnIndex<T> for Range<usize> {
    type Output = [T];

    open spec fn col_start(&self) -> nat {
        self.start as nat
    }

    open spec fn col_end(&self) -> nat {
        self.end as nat
    }

    open spec fn cells(out: &[T]) -> Seq<T> {
        out@
    }

    proof fn lemma_cells_identify(a: &[T], b: &[T]) {
        assert(a =~= b);
    }

    fn index<'s>(self, row: &'s [T]) -> (picked: &'s [T]) {
        &row[self.start..self.end]
    }

    fn index_mut<'s>(self, row: &'s mut [T]) -> (picked: &'s mut [T]) {
        subslice_mut(row, self.start, self.end)
    }

    fn get<'s>(self, row: &'s [T]) -> (out: Option<&'s [T]>) {
        if self.start <= self.end && self.end <= row.len() {
            Some(self.index(row))
        } else {
            None
        }
    }

    fn get_mut<'s>(self, row: &'s mut [T]) -> (out: Option<&'s mut [T]>) {
        if self.start <= self.end && self.end <= row.len() {
            Some(self.index_mut(row))
        } else {
            None
        }
    }
}

/// The cells `start..end` of `cells`, for writing.
pub(crate) fn subslice_mut<'s, T>(cells: &'s mut [T], start: usize, end: usize) -> (part: &'s mut [T])
    requires
        start <= end <= old(cells)@.len(),
    ensures
        part@ == old(cells)@.subrange(start as int, end as int),
        final(cells)@ == splice(old(cells)@, start as int, end as int, final(part)@),
{
    let (_, tail) = cells.split_at_mut(start);
    let (part, _) = tail.split_at_mut(end - start);
    part
}

} // verus!
