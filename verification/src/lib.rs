//! A two-dimensional, row-major view over a flat buffer that somebody else owns.
//!
//! [`TwoDimensionalArray`] borrows a slice exclusively, reads it as `num_rows`
//! rows of `num_cols` cells, and hands out cells, parts of one row, whole rows
//! or the flat buffer again. It never copies and never allocates a cell.
//!
//! Every contract is stated over [`Grid`], the mathematical picture of a view:
//! the cells in buffer order together with the shape read into them.

pub mod array;
pub mod column_index;
pub mod decimal;
pub mod grid;
pub mod laws;
pub mod rows;
mod sealed;
pub mod shape_error;

pub use array::TwoDimensionalArray;
pub use column_index::ColumnIndex;
pub use grid::Grid;
pub use rows::{Rows, RowsMut};
pub use shape_error::ShapeError;
