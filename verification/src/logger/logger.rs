use vstd::prelude::*;

verus! {

/// Starts the tasks that write the log channels to their files.
pub struct LoggerWritter;

} // verus!
