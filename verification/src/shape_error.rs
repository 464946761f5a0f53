//! The error of a shape that does not match its buffer.

use crate::decimal::{decimal, push_decimal};
use vstd::prelude::*;
use vstd::string::StringExecFns;

verus! {

/// Why a buffer could not be read in a requested shape.
#[derive(Debug, Clone, Copy, PartialEq, Eq)]
pub enum ShapeError {
    /// `num_rows * num_cols` is not `buffer_len`, so the shape would leave
    /// cells out or name cells that the buffer does not have.
    InvalidShape {
        /// How many cells the buffer holds.
        buffer_len: usize,
        /// The number of rows that was asked for.
        num_rows: usize,
        /// The number of columns that was asked for.
        num_cols: usize,
    },
}

impl ShapeError {
    /// The text of the error: the cell count and the shape that was refused,
    /// each number in decimal.
    pub open spec fn message_text(self) -> Seq<char> {
        match self {
            ShapeError::InvalidShape { buffer_len, num_rows, num_cols } => {
                "Cannot reshape two dimensional array with number of elements "@ + decimal(
                    buffer_len as nat,
                ) + " into "@ + decimal(num_rows as nat) + "x"@ + decimal(num_cols as nat)
                    + " array"@
            },
        }
    }

    /// Renders the error for a reader.
    pub fn message(&self) -> (text: String)
        ensures
            text@ == self.message_text(),
    {
        match self {
            ShapeError::InvalidShape { buffer_len, num_rows, num_cols } => {
                let mut text = String::from_str(
                    "Cannot reshape two dimensional array with number of elements ",
                );
                push_decimal(&mut text, *buffer_len);
                text.append(" into ");
                push_decimal(&mut text, *num_rows);
                text.append("x");
                push_decimal(&mut text, *num_cols);
                text.append(" array");
                text
            },
        }
    }
}

} // verus!
