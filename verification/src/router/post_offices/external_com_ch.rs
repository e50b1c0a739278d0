use vstd::prelude::*;

verus! {

/// The channel of the messages this node publishes to the others.
pub struct ExternalComm {}

} // verus!
