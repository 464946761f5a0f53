//! Keeps the set of column selectors closed.

use std::ops::Range;
use vstd::prelude::*;

verus! {

/// Implemented for the selectors of this crate and, being out of reach from
/// outside, for nothing else.
pub trait Sealed {

}

impl Sealed for usize {

}

impl Sealed for Range<usize> {

}

} // verus!
