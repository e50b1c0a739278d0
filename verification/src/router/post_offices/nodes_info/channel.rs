use vstd::prelude::*;

verus! {

/// The channel on which the offices of this node talk to one another.
pub struct InternalCommunications {}

} // verus!
