use vstd::prelude::*;

verus! {

/// What a message between nodes asks for or carries.
#[derive(Debug, Clone, Copy, PartialEq, Eq)]
pub enum RequestsTypes {
    /// Asks every node for its resources.
    RequestNodeInfo,
    /// Carries a node's resources.
    ReplyNodeInfoUpdate,
    /// Carries a step to run.
    PlansToExecute,
    /// Carries the duties of every node for an operation.
    StartExecutePlan,
    /// Reports that the duties of an operation were run.
    EndedExecutingPlan,
    /// Asks for the result of a step.
    RequestGatherPlans,
    /// Carries the result of a step.
    ReplyGatherPlansRes,
}

/// A message published on a gossip topic, with its encoded payload.
pub struct Message {
    pub topic_name: String,
    pub request: RequestsTypes,
    pub message: Option<Vec<u8>>,
}

} // verus!
