use vstd::prelude::*;

verus! {

/// What can be wrong with the shape of an input.
#[derive(Clone, Copy, Debug, PartialEq, Eq, Structural)]
pub enum ShapeError {
    /// The flat vector's length is not a multiple of three.
    InvalidShape,
    /// Two chains that must be compared atom by atom differ in length.
    LengthMismatch,
}

} // verus!
