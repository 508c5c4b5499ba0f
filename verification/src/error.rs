use vstd::prelude::*;

verus! {

/// The two ways in which an operation of this crate can fail.
#[derive(Clone, Copy, Debug, PartialEq, Eq, Structural)]
pub enum TransformError {
    /// The buffer lengths and the product of the grid's width and height do
    /// not all agree.
    DimensionMismatch,
    /// The matrix offered as an inverse holds an entry that is not finite.
    NotInvertible,
}

} // verus!
