use vstd::prelude::*;
use crate::db::entities::nodes_duties::Model;
use crate::operations::checker::{OperationFile, duty_of_model};
use crate::operations::planner::charts::structs::{
    DutyView, NodesOpsMsg, flatten_duties, groups, node_block,
};

verus! {

/// Writes the records of operations and steps to files.
pub struct FileRegisterer {}

/// Records operations, steps and duties.
pub struct DbOpsRegisterer {}

impl DbOpsRegisterer {
    /// The record of a new operation started at `execution_date` (seconds
    /// since the Unix epoch), without a result yet.
    pub fn new_operation<T>(operation_id: String, execution_date: i64) -> (record: OperationFile<T>)
        ensures
            record.operation_id == operation_id,
            record.result is None,
            record.execution_date == execution_date,
    {
        OperationFile { operation_id, result: None, execution_date }
    }

    /// Marking a step finished records nothing.
    pub fn finished_step() {
    }

    /// The row recording that node `node_id` runs step `step_id` of
    /// `operation_id`, not finished yet.
    pub fn new_duty(node_id: String, operation_id: String, step_id: String) -> (row: Model)
        ensures
            row.node_id == node_id,
            row.op_id == operation_id,
            row.step_id == step_id,
            !row.is_finished,
    {
        Model { node_id, op_id: operation_id, step_id, is_finished: false }
    }

    /// The rows recording every duty of `duties`, node after node.
    pub fn new_duties(duties: &NodesOpsMsg) -> (rows: Vec<Model>)
        ensures
            rows@.map_values(|d: Model| duty_of_model(d)) == flatten_duties(duties.nodes_duties@),
            forall|i: int| 0 <= i < rows@.len() ==> !(#[trigger] rows@[i]).is_finished,
    {
        let mut rows: Vec<Model> = Vec::new();
        let ghost e = duties.nodes_duties@;
        assert(e.take(0) =~= Seq::<crate::operations::planner::charts::structs::NodeDuties>::empty());
        assert(rows@.map_values(|d: Model| duty_of_model(d)) =~= flatten_duties(e.take(0)));
        let mut i: usize = 0;
        while i < duties.nodes_duties.len()
            invariant
                e == duties.nodes_duties@,
                i <= e.len(),
                rows@.map_values(|d: Model| duty_of_model(d)) == flatten_duties(e.take(i as int)),
                forall|r: int| 0 <= r < rows@.len() ==> !(#[trigger] rows@[r]).is_finished,
            decreases e.len() - i,
        {
            let node = &duties.nodes_duties[i];
            let ghost start = rows@.map_values(|d: Model| duty_of_model(d));
            let mut j: usize = 0;
            while j < node.duties.len()
                invariant
                    i < e.len(),
                    *node == e[i as int],
                    j <= node.duties@.len(),
                    rows@.map_values(|d: Model| duty_of_model(d)) == start + node_block(*node).take(j as int),
                    forall|r: int| 0 <= r < rows@.len() ==> !(#[trigger] rows@[r]).is_finished,
                decreases node.duties@.len() - j,
            {
                let info = &node.duties[j];
                let row = Self::new_duty(node.node_id.clone(), info.operation_id.clone(), info.step_id.clone());
                let ghost before = rows@;
                rows.push(row);
                proof {
                    assert(rows@.map_values(|d: Model| duty_of_model(d)) =~= before.map_values(
                        |d: Model| duty_of_model(d),
                    ).push(duty_of_model(row)));
                    assert(node_block(*node).take(j + 1) =~= node_block(*node).take(j as int).push(
                        node_block(*node)[j as int],
                    ));
                    assert(start + node_block(*node).take(j + 1) =~= (start + node_block(*node).take(j as int)).push(
                        node_block(*node)[j as int],
                    ));
                }
                j += 1;
            }
            proof {
                assert(node_block(*node).take(j as int) =~= node_block(*node));
                assert(e.take(i + 1).drop_last() =~= e.take(i as int));
                assert(e.take(i + 1).last() == e[i as int]);
            }
            i += 1;
        }
        assert(e.take(e.len() as int) =~= e);
        rows
    }

    /// Marks finished the recorded duty of step `step_id`: every row of that
    /// step is set finished, every other row is left as it was.
    pub fn finished_duty(rows: &mut Vec<Model>, step_id: &String)
        ensures
            final(rows)@.len() == old(rows)@.len(),
            forall|i: int|
                0 <= i < old(rows)@.len() ==> {
                    let before = #[trigger] old(rows)@[i];
                    let after = final(rows)@[i];
                    &&& duty_of_model(after) == duty_of_model(before)
                    &&& after.is_finished == (before.is_finished || before.step_id@ == step_id@)
                },
    {
        let mut i: usize = 0;
        while i < rows.len()
            invariant
                i <= rows@.len(),
                rows@.len() == old(rows)@.len(),
                forall|j: int|
                    0 <= j < old(rows)@.len() ==> {
                        let before = #[trigger] old(rows)@[j];
                        let now = rows@[j];
                        &&& duty_of_model(now) == duty_of_model(before)
                        &&& now.is_finished == if j < i {
                            before.is_finished || before.step_id@ == step_id@
                        } else {
                            before.is_finished
                        }
                    },
            decreases rows@.len() - i,
        {
            if rows[i].step_id == *step_id {
                let row = Model {
                    node_id: rows[i].node_id.clone(),
                    op_id: rows[i].op_id.clone(),
                    step_id: rows[i].step_id.clone(),
                    is_finished: true,
                };
                rows.set(i, row);
            }
            i += 1;
        }
    }
}

/// What is read back of the duties written is what was written: the rows that
/// `new_duties` records for a well-formed set of duties, grouped again by
/// `PlanChecker::get_planned_duties_db`, give the same duties, as long as no
/// node was listed with an empty list.
pub proof fn law_duties_read_back(duties: NodesOpsMsg, rows: Seq<Model>)
    requires
        duties.wf(),
        duties.no_empty_lists(),
        rows.map_values(|d: Model| duty_of_model(d)) == flatten_duties(duties.nodes_duties@),
    ensures
        groups(rows.map_values(|d: Model| duty_of_model(d))) == duties@,
{
    duties.lemma_flatten_groups();
}

} // verus!
