use vstd::prelude::*;
use crate::router::messages::RequestsTypes;

verus! {

/// Whether the communications back office answers an internal request by
/// sending this node's refreshed information: it does for a request of node
/// information and ignores anything else.
pub fn answers_with_node_info(request: RequestsTypes) -> (answers: bool)
    ensures
        answers == (request == RequestsTypes::RequestNodeInfo),
{
    match request {
        RequestsTypes::RequestNodeInfo => true,
        _ => false,
    }
}

} // verus!
