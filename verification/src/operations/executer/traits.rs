use vstd::prelude::*;
use crate::operations::executer::types::Executer;
use crate::operations::gatherer::structs::{GatheredMessage, GatheredResponse};
use crate::operations::planner::charts::structs::{
    NodesOpsMsg, OperationInfo, Steps, duplicate_infos, infos_view,
};

verus! {

/// What running one step involves.
pub struct StepActions {
    /// The operation has no record yet: one is made.
    pub register_operation: bool,
    /// The step has no result yet: it is computed, stored and reported.
    pub execute: bool,
}

/// What happens to one duty of this node.
#[derive(Debug, Clone, Copy, PartialEq, Eq)]
pub enum DutyAction {
    /// The step is not stored here: the duty is skipped and not marked
    /// finished.
    Skip,
    /// The step has no result yet: it is run, then the duty is marked
    /// finished.
    Execute,
    /// The step already has a result: the duty is marked finished.
    MarkFinished,
}

impl Executer {
    /// Decides how to run a step, from whether its operation has a record and
    /// from the step as stored, if it is.
    pub fn step_actions<T>(op_exists: bool, stored_step: &Option<Steps<T>>) -> (actions: StepActions)
        ensures
            actions.register_operation == !op_exists,
            actions.execute == !(stored_step matches Some(s) && s.result is Some),
    {
        let already_done = match stored_step {
            Some(stp) => stp.result.is_some(),
            None => false,
        };
        StepActions { register_operation: !op_exists, execute: !already_done }
    }

    /// The answer reported to the gathering once `step` has run: its ids and
    /// what it computed.
    pub fn gathered_reply<T>(step: Steps<T>) -> (reply: GatheredMessage<T>)
        ensures
            reply == (GatheredMessage {
                operation_id: step.operation_id,
                step_id: step.step_id,
                respond: Some(
                    (GatheredResponse {
                        use_prev_res: step.use_prev_res,
                        extra_info: step.extra_info,
                        result: step.result,
                    }),
                ),
            }),
    {
        GatheredMessage {
            operation_id: step.operation_id,
            step_id: step.step_id,
            respond: Some(
                GatheredResponse {
                    use_prev_res: step.use_prev_res,
                    extra_info: step.extra_info,
                    result: step.result,
                },
            ),
        }
    }

    /// The duties of node `current_node_id` and the operation they belong to
    /// (that of the first duty), or nothing when the node has none.
    ///
    /// A node listed with an empty list of duties is not accepted: the
    /// operation is read from its first duty.
    pub fn node_duties_to_run(duties: &NodesOpsMsg, current_node_id: &String) -> (run: Option<(String, Vec<OperationInfo>)>)
        requires
            duties.wf(),
            duties@.contains_key(current_node_id@) ==> duties@[current_node_id@].len() > 0,
        ensures
            match run {
                None => !duties@.contains_key(current_node_id@),
                Some((op_id, node_duties)) => {
                    &&& duties@.contains_key(current_node_id@)
                    &&& infos_view(node_duties@) == duties@[current_node_id@]
                    &&& op_id@ == duties@[current_node_id@][0].0
                },
            },
    {
        match duties.get(current_node_id) {
            Some(node_duties) => {
                let op_id = node_duties[0].operation_id.clone();
                Some((op_id, duplicate_infos(node_duties)))
            },
            None => None,
        }
    }

    /// What happens to a duty, from its step as stored here, if it is.
    pub fn duty_action<T>(stored_step: &Option<Steps<T>>) -> (action: DutyAction)
        ensures
            action == match stored_step {
                None => DutyAction::Skip,
                Some(s) => if s.result is None {
                    DutyAction::Execute
                } else {
                    DutyAction::MarkFinished
                },
            },
    {
        match stored_step {
            None => DutyAction::Skip,
            Some(step) => {
                if step.result.is_none() {
                    DutyAction::Execute
                } else {
                    DutyAction::MarkFinished
                }
            },
        }
    }
}

} // verus!
