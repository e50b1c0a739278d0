use vstd::prelude::*;

verus! {

/// A recorded duty: node `node_id` runs step `step_id` of operation `op_id`.
pub struct Model {
    pub node_id: String,
    pub op_id: String,
    pub step_id: String,
    pub is_finished: bool,
}

} // verus!
