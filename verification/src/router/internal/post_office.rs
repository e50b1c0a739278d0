use vstd::prelude::*;

verus! {

/// Asks the other nodes for their information.
pub struct InternalOffic {}

} // verus!
