use vstd::prelude::*;

verus! {

/// The scalar operations of the first version of the executer.
#[derive(Debug, Clone, Copy, PartialEq, Eq)]
pub enum OperationTypes {
    ADD,
    SUBTRACT,
    MULTIPLY,
    DIVIDE,
    POW,
    SQRT,
    ABS,
    FLOOR,
    SIN,
    COS,
    SINH,
    COSH,
    ACOS,
    TAN,
    TANH,
    SUM,
}

} // verus!
