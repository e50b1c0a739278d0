use vstd::prelude::*;

verus! {

/// A pair of channel ends.
pub trait SenderReciverTrait<S, R> {
    fn get_sender_tx() -> S;

    fn get_reciver_rx() -> R;
}

/// The channel between the internal and the external offices.
pub struct InternalExternal {}

} // verus!
