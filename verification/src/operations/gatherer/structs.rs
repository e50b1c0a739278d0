use vstd::prelude::*;
use crate::operations::planner::charts::structs::{ExtraInfo, Numeric};

verus! {

/// A node's answer about one step: the step's result, if it has one, and
/// what the step carried besides its operands.
pub struct GatheredResponse<T> {
    pub result: Option<Numeric<T>>,
    pub use_prev_res: bool,
    pub extra_info: Option<ExtraInfo<T>>,
}

/// A question about one step of an operation (`respond` is `None`) or the
/// answer to it.
pub struct GatheredMessage<T> {
    pub operation_id: String,
    pub step_id: String,
    pub respond: Option<GatheredResponse<T>>,
}

} // verus!
