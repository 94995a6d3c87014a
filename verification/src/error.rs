//! Error definitions for the filter.

use vstd::prelude::*;

verus! {

/// The one failure a filter operation can report: a cell index, or a size
/// argument at construction, that the filter cannot represent.
#[derive(Clone, Copy, Debug, PartialEq, Eq, Structural)]
pub enum Error {
    /// An index lies outside the cell array, or a size argument cannot be
    /// represented as a cell value.
    IndexOutOfBounds,
}

impl Error {
    /// A short description of the error.
    pub fn message(&self) -> (r: &'static str)
        ensures
            r@ == "Index out of bounds"@,
    {
        "Index out of bounds"
    }
}

} // verus!
