use vstd::prelude::*;
use crate::connections::configs::topics::{TopicsEnums, topic_name};
use crate::router::messages::{Message, RequestsTypes};

verus! {

/// Publishes this node's information and records that of the others.
pub struct NodesInfoOffice {}

/// Hands out the duties of an operation.
pub struct OperationsExecuterOffice {}

/// Hands out single steps to run.
pub struct OperationStepExecuter {}

/// Asks for and answers with the results of steps.
pub struct GathererOffice {}

/// Carries synchronisation messages.
pub struct SyncerOffice {}

/// The message published on `topic` with request `request` and payload
/// `payload`.
pub open spec fn outgoing_spec(msg: Message, topic: TopicsEnums, request: RequestsTypes, payload: Seq<u8>) -> bool {
    &&& msg.topic_name@ == topic_name(topic)
    &&& msg.request == request
    &&& msg.message matches Some(p) && p@ == payload
}

/// Builds the message published on `topic` with `request` and `payload`.
fn compose(topic: TopicsEnums, request: RequestsTypes, payload: Vec<u8>) -> (msg: Message)
    ensures
        outgoing_spec(msg, topic, request, payload@),
{
    Message { topic_name: topic.to_string(), request, message: Some(payload) }
}

impl NodesInfoOffice {
    /// The message that carries a node's encoded information to the others.
    pub fn outgoing(payload: Vec<u8>) -> (msg: Message)
        ensures
            outgoing_spec(msg, TopicsEnums::NodesInfo, RequestsTypes::ReplyNodeInfoUpdate, payload@),
    {
        compose(TopicsEnums::NodesInfo, RequestsTypes::ReplyNodeInfoUpdate, payload)
    }
}

impl OperationStepExecuter {
    /// The message that carries an encoded step to run.
    pub fn outgoing(payload: Vec<u8>) -> (msg: Message)
        ensures
            outgoing_spec(msg, TopicsEnums::Operations, RequestsTypes::PlansToExecute, payload@),
    {
        compose(TopicsEnums::Operations, RequestsTypes::PlansToExecute, payload)
    }
}

impl OperationsExecuterOffice {
    /// The message that carries the encoded duties of an operation.
    pub fn outgoing(payload: Vec<u8>) -> (msg: Message)
        ensures
            outgoing_spec(msg, TopicsEnums::Operations, RequestsTypes::StartExecutePlan, payload@),
    {
        compose(TopicsEnums::Operations, RequestsTypes::StartExecutePlan, payload)
    }
}

impl GathererOffice {
    /// The message that asks the other nodes for a step's result.
    pub fn outgoing(payload: Vec<u8>) -> (msg: Message)
        ensures
            outgoing_spec(msg, TopicsEnums::Operations, RequestsTypes::RequestGatherPlans, payload@),
    {
        compose(TopicsEnums::Operations, RequestsTypes::RequestGatherPlans, payload)
    }

    /// The message that answers with a step's result.
    pub fn outgoing_reply(payload: Vec<u8>) -> (msg: Message)
        ensures
            outgoing_spec(msg, TopicsEnums::Operations, RequestsTypes::ReplyGatherPlansRes, payload@),
    {
        compose(TopicsEnums::Operations, RequestsTypes::ReplyGatherPlansRes, payload)
    }
}

impl SyncerOffice {
    /// The message that carries a synchronisation message of kind `request`.
    pub fn outgoing(request: RequestsTypes, payload: Vec<u8>) -> (msg: Message)
        ensures
            outgoing_spec(msg, TopicsEnums::Sync, request, payload@),
    {
        compose(TopicsEnums::Sync, request, payload)
    }
}

/// The message that asks every node for its information.
pub fn request_other_nodes_info() -> (msg: Message)
    ensures
        msg.topic_name@ == topic_name(TopicsEnums::NodesInfo),
        msg.request == RequestsTypes::RequestNodeInfo,
        msg.message is None,
{
    Message { topic_name: TopicsEnums::NodesInfo.to_string(), request: RequestsTypes::RequestNodeInfo, message: None }
}

} // verus!
