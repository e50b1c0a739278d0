use vstd::prelude::*;
use crate::db::entities::nodes_duties::Model;

verus! {

/// The table of the duties of the nodes.
pub struct SqlNodesDuties {}

/// The table of the synchronised operations.
pub struct SqlSyncedOps {}

impl SqlNodesDuties {
    /// A new duty row: node `node_id` runs step `step_id` of `op_id`, not
    /// finished yet.
    pub fn new(op_id: String, node_id: String, step_id: String) -> (row: Model)
        ensures
            row.op_id == op_id,
            row.node_id == node_id,
            row.step_id == step_id,
            !row.is_finished,
    {
        Model { op_id, node_id, step_id, is_finished: false }
    }
}

} // verus!
