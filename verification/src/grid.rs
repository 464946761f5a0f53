//! The mathematical picture of a two-dimensional view: cells and a shape.

use vstd::prelude::*;

verus! {

/// `cells` with the run `start..end` replaced by `written`.
///
/// The cells before `start` and from `end` on are kept. Where `written` is as
/// long as the run it replaces, every kept cell keeps its place too.
pub open spec fn splice<T>(cells: Seq<T>, start: int, end: int, written: Seq<T>) -> Seq<T> {
    cells.subrange(0, start) + written + cells.subrange(end, cells.len() as int)
}

/// Writing back what is there changes nothing.
pub proof fn lemma_splice_same<T>(cells: Seq<T>, start: int, end: int)
    requires
        0 <= start <= end <= cells.len(),
    ensures
        splice(cells, start, end, cells.subrange(start, end)) == cells,
{
    assert(splice(cells, start, end, cells.subrange(start, end)) =~= cells);
}

/// Replacing a run within a part of the cells is replacing that run of the
/// whole, moved by where the part begins.
pub proof fn lemma_splice_within<T>(
    cells: Seq<T>,
    start: int,
    end: int,
    inner_start: int,
    inner_end: int,
    written: Seq<T>,
)
    requires
        0 <= start <= end <= cells.len(),
        0 <= inner_start <= inner_end <= end - start,
    ensures
        splice(
            cells,
            start,
            end,
            splice(cells.subrange(start, end), inner_start, inner_end, written),
        ) == splice(cells, start + inner_start, start + inner_end, written),
        cells.subrange(start, end).subrange(inner_start, inner_end) == cells.subrange(
            start + inner_start,
            start + inner_end,
        ),
{
    let part = cells.subrange(start, end);
    assert(splice(cells, start, end, splice(part, inner_start, inner_end, written)) =~= splice(
        cells,
        start + inner_start,
        start + inner_end,
        written,
    ));
    assert(part.subrange(inner_start, inner_end) =~= cells.subrange(
        start + inner_start,
        start + inner_end,
    ));
}

/// What a view is, apart from where its cells live: the cells in buffer order
/// and the shape that is read into them.
///
/// Cell `(row, col)` sits at offset `row * num_cols + col`, so a row is one
/// unbroken run of the buffer and two rows never overlap.
pub struct Grid<T> {
    /// The cells, in the order in which the buffer holds them.
    pub cells: Seq<T>,
    /// How many rows the cells are read as.
    pub num_rows: nat,
    /// How many cells make up one row.
    pub num_cols: nat,
}

impl<T> Grid<T> {
    /// The shape accounts for every cell, and for no cell twice.
    pub open spec fn wf(self) -> bool {
        self.cells.len() == self.num_rows * self.num_cols
    }

    /// Where cell `(row, col)` sits in the buffer.
    pub open spec fn offset(self, row: int, col: int) -> int {
        row * self.num_cols + col
    }

    /// `row` names a row, and `start..end` a run of columns of one row.
    pub open spec fn in_bounds(self, row: int, start: int, end: int) -> bool {
        0 <= row < self.num_rows && 0 <= start <= end <= self.num_cols
    }

    /// The cell at `(row, col)`.
    pub open spec fn at(self, row: int, col: int) -> T {
        self.cells[self.offset(row, col)]
    }

    /// The cells of `row` in the columns `start..end`.
    pub open spec fn span(self, row: int, start: int, end: int) -> Seq<T> {
        self.cells.subrange(self.offset(row, start), self.offset(row, end))
    }

    /// All the cells of `row`.
    pub open spec fn row(self, row: int) -> Seq<T> {
        self.span(row, 0, self.num_cols as int)
    }

    /// The rows, first to last.
    pub open spec fn rows(self) -> Seq<Seq<T>> {
        Seq::new(self.num_rows, |row: int| self.row(row))
    }

    /// The same shape over other cells.
    pub open spec fn with_cells(self, cells: Seq<T>) -> Grid<T> {
        Grid { cells, num_rows: self.num_rows, num_cols: self.num_cols }
    }

    /// The same cells read in another shape.
    pub open spec fn with_shape(self, num_rows: nat, num_cols: nat) -> Grid<T> {
        Grid { cells: self.cells, num_rows, num_cols }
    }

    /// The grid after the columns `start..end` of `row` were overwritten with
    /// `written`; every other cell is as it was.
    pub open spec fn with_span(self, row: int, start: int, end: int, written: Seq<T>) -> Grid<T> {
        self.with_cells(splice(self.cells, self.offset(row, start), self.offset(row, end), written))
    }

    /// The grid without its first row: what is left to walk after one step.
    pub open spec fn after_first_row(self) -> Grid<T> {
        Grid {
            cells: self.cells.subrange(self.num_cols as int, self.cells.len() as int),
            num_rows: (self.num_rows - 1) as nat,
            num_cols: self.num_cols,
        }
    }

    /// A run of columns inside a row lies inside the buffer, after every
    /// earlier row and before every later one.
    pub proof fn lemma_span_fits(self, row: int, start: int, end: int)
        requires
            self.wf(),
            self.in_bounds(row, start, end),
        ensures
            0 <= self.offset(row, 0) <= self.offset(row, start) <= self.offset(row, end)
                <= self.offset(row, self.num_cols as int) <= self.cells.len(),
            self.offset(row, self.num_cols as int) == self.offset(row + 1, 0),
            self.span(row, start, end).len() == end - start,
            self.span(row, start, end) == self.row(row).subrange(start, end),
    {
        let cols = self.num_cols as int;
        let rows = self.num_rows as int;
        assert(0 <= row * cols && row * cols + cols == (row + 1) * cols && (row + 1) * cols <= rows
            * cols) by (nonlinear_arith)
            requires
                0 <= row < rows,
                0 <= cols,
        ;
    }

    /// The first row is the head of the buffer, and the rows after it are
    /// the rows of what follows.
    pub proof fn lemma_first_row(self)
        requires
            self.wf(),
            self.num_rows > 0,
        ensures
            self.num_cols <= self.cells.len(),
            self.row(0) == self.cells.subrange(0, self.num_cols as int),
            self.cells == self.row(0) + self.after_first_row().cells,
            self.after_first_row().wf(),
            forall|row: int|
                0 <= row < self.num_rows - 1 ==> #[trigger] self.after_first_row().row(row)
                    == self.row(row + 1),
            self.rows() == seq![self.row(0)] + self.after_first_row().rows(),
    {
        let cols = self.num_cols as int;
        let rows = self.num_rows as int;
        let rest = self.after_first_row();
        self.lemma_span_fits(0, 0, 0);
        assert((rows - 1) * cols == rows * cols - cols) by (nonlinear_arith);
        assert forall|row: int| 0 <= row < rows - 1 implies #[trigger] rest.row(row) == self.row(
            row + 1,
        ) by {
            rest.lemma_span_fits(row, 0, 0);
            self.lemma_span_fits(row + 1, 0, 0);
            assert((row + 1) * cols == row * cols + cols) by (nonlinear_arith);
            assert(rest.row(row) =~= self.row(row + 1));
        }
        assert(self.cells =~= self.row(0) + rest.cells);
        assert(self.rows() =~= seq![self.row(0)] + rest.rows());
    }

    /// The rows partition the buffer: there are `num_rows` of them, each is
    /// `num_cols` cells long, and laid end to end in their order they are the
    /// buffer.
    pub proof fn lemma_rows_partition(self)
        requires
            self.wf(),
        ensures
            self.rows().len() == self.num_rows,
            forall|row: int|
                0 <= row < self.num_rows ==> (#[trigger] self.rows()[row]).len() == self.num_cols,
            self.rows().flatten() == self.cells,
        decreases self.num_rows,
    {
        assert forall|row: int| 0 <= row < self.num_rows implies (#[trigger] self.rows()[row]).len()
            == self.num_cols by {
            self.lemma_span_fits(row, 0, self.num_cols as int);
        }
        if self.num_rows == 0 {
            assert(self.rows().flatten() =~= self.cells);
        } else {
            self.lemma_first_row();
            self.after_first_row().lemma_rows_partition();
            assert(self.rows().drop_first() =~= self.after_first_row().rows());
            assert(self.rows().flatten() =~= self.cells);
        }
    }

    /// A run of one column is the one cell at that place, so a cell that
    /// was picked as such a run is the cell at that place.
    pub proof fn lemma_single_cell(self, row: int, col: int, picked: T)
        requires
            self.wf(),
            self.in_bounds(row, col, col + 1),
            seq![picked] == self.span(row, col, col + 1),
        ensures
            picked == self.at(row, col),
    {
        self.lemma_span_fits(row, col, col + 1);
        assert(seq![picked][0] == picked);
        assert(self.span(row, col, col + 1)[0] == self.at(row, col));
    }

    /// What is written to a run of a row is what is read there afterwards,
    /// every other cell reads as before, and the shape still accounts for
    /// every cell.
    pub proof fn lemma_written_is_read(self, row: int, start: int, end: int, written: Seq<T>)
        requires
            self.wf(),
            self.in_bounds(row, start, end),
            written.len() == end - start,
        ensures
            self.with_span(row, start, end, written).wf(),
            self.with_span(row, start, end, written).span(row, start, end) == written,
            forall|at: int|
                0 <= at < self.cells.len() && !(self.offset(row, start) <= at < self.offset(
                    row,
                    end,
                )) ==> #[trigger] self.with_span(row, start, end, written).cells[at]
                    == self.cells[at],
    {
        self.lemma_span_fits(row, start, end);
        assert(self.with_span(row, start, end, written).span(row, start, end) =~= written);
    }
}

} // verus!
