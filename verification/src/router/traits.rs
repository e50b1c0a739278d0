use vstd::prelude::*;

verus! {

/// An office that sends messages of type `S` and handles incoming payloads of
/// type `H`.
pub trait PostOfficeTrait<S, H> {
    fn send_message(message: S);

    fn handle_incom_msg(message: H);
}

/// A pair of channel ends.
pub trait SenderReciverTrait<S, R> {
    fn get_sender_tx() -> S;

    fn get_reciver_rx() -> R;
}

} // verus!
