use vstd::prelude::*;
use crate::connections::configs::topics::{TopicsEnums, topic_name};
use crate::router::messages::RequestsTypes;

verus! {

/// The gossip connection of this node.
pub struct GossibConnection {}

/// The office an incoming message is handed to.
#[derive(Debug, Clone, Copy, PartialEq, Eq)]
pub enum IncomingRoute {
    /// A step to run.
    StepExecuter,
    /// The duties of an operation.
    OperationsExecuter,
    /// A question about a step's result, to be answered.
    GatherReply,
    /// An answer about a step's result, for the gathering.
    Gatherer,
    /// Another node asks for this node's resources: they are sent.
    SendNodeInfo,
    /// Another node's resources, to be recorded.
    AddNodeInfo,
    /// A synchronisation message.
    Syncer,
    /// Nothing handles the message: it is logged and dropped.
    Dropped,
}

/// Where a message received on the topic `topic` with request `request` goes.
pub open spec fn spec_route(topic: Seq<char>, request: RequestsTypes) -> IncomingRoute {
    if topic == topic_name(TopicsEnums::Operations) {
        match request {
            RequestsTypes::PlansToExecute => IncomingRoute::StepExecuter,
            RequestsTypes::StartExecutePlan | RequestsTypes::EndedExecutingPlan => IncomingRoute::OperationsExecuter,
            RequestsTypes::RequestGatherPlans => IncomingRoute::GatherReply,
            RequestsTypes::ReplyGatherPlansRes => IncomingRoute::Gatherer,
            _ => IncomingRoute::Dropped,
        }
    } else if topic == topic_name(TopicsEnums::NodesInfo) {
        match request {
            RequestsTypes::RequestNodeInfo => IncomingRoute::SendNodeInfo,
            RequestsTypes::ReplyNodeInfoUpdate => IncomingRoute::AddNodeInfo,
            _ => IncomingRoute::Dropped,
        }
    } else if topic == topic_name(TopicsEnums::Sync) {
        IncomingRoute::Syncer
    } else {
        IncomingRoute::Dropped
    }
}

impl GossibConnection {
    /// Routes a message received on the topic `topic` (see `spec_route`).
    pub fn route_incoming(topic: &String, request: RequestsTypes) -> (route: IncomingRoute)
        ensures
            route == spec_route(topic@, request),
    {
        let ops_topic = TopicsEnums::Operations.to_string();
        let node_topic = TopicsEnums::NodesInfo.to_string();
        let sync_topic = TopicsEnums::Sync.to_string();
        if *topic == ops_topic {
            match request {
                RequestsTypes::PlansToExecute => IncomingRoute::StepExecuter,
                RequestsTypes::StartExecutePlan | RequestsTypes::EndedExecutingPlan => IncomingRoute::OperationsExecuter,
                RequestsTypes::RequestGatherPlans => IncomingRoute::GatherReply,
                RequestsTypes::ReplyGatherPlansRes => IncomingRoute::Gatherer,
                _ => IncomingRoute::Dropped,
            }
        } else if *topic == node_topic {
            match request {
                RequestsTypes::RequestNodeInfo => IncomingRoute::SendNodeInfo,
                RequestsTypes::ReplyNodeInfoUpdate => IncomingRoute::AddNodeInfo,
                _ => IncomingRoute::Dropped,
            }
        } else if *topic == sync_topic {
            IncomingRoute::Syncer
        } else {
            IncomingRoute::Dropped
        }
    }
}

} // verus!
