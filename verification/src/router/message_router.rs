use vstd::prelude::*;

verus! {

/// Routes messages between the offices.
pub struct MessageRouter {}

/// Something that routes messages.
pub trait RoutMessage {
    fn send_message();
}

impl RoutMessage for MessageRouter {
    fn send_message() {
    }
}

} // verus!
