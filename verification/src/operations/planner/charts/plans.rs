use vstd::prelude::*;

verus! {

/// Where a step's result goes in a matrix or a list (at most two
/// coordinates), as the first version of the plans recorded it.
pub struct ExtraInfo {
    pub res_pos: Option<Vec<u64>>,
}

} // verus!
