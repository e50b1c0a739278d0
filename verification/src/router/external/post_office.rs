use vstd::prelude::*;

verus! {

/// Sends and receives node information between this node and the others.
pub struct InternalExternalOffic {}

} // verus!
