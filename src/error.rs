use vstd::prelude::*;

verus! {

/// The ways an operation on an augmented matrix can fail.
#[derive(Clone, Copy, Debug, PartialEq, Eq, PartialOrd, Ord, Structural)]
pub enum MatriceError {
    /// A row or column index lies outside the matrix.
    IndexOutOfBounds,
    /// An operation that needs two distinct rows was given the same row twice.
    CannotGetSameReference,
    /// The rows handed to the constructor differ in their number of coefficients.
    RowsNotOfEqualLength,
    /// The system has no unique solution that elimination can find.
    SystemIsUnsolvable,
    /// A coefficient could not be read as a number.
    CouldNotParseToNumber,
    /// An input line held nothing.
    LineEmpty,
}

} // verus!
