use vstd::prelude::*;

verus! {

/// The directory that holds the records of the operations.
pub fn operations_locations() -> (path: String)
    ensures
        path@ == "logs/OPERATIONS"@,
{
    "logs/OPERATIONS".to_owned()
}

} // verus!
