use vstd::prelude::*;

verus! {

/// The operations on whole matrices.
#[derive(Debug, Clone, Copy, PartialEq, Eq)]
pub enum MatrixOperations {
    MULTIPLY,
    DIVIDE,
}

} // verus!
