use vstd::prelude::*;

verus! {

#[verifier::external_type_specification]
#[verifier::external_body]
#[verifier::reject_recursive_types(T)]
pub struct ExSender<T>(std::sync::mpsc::Sender<T>);

#[verifier::external_type_specification]
#[verifier::external_body]
#[verifier::reject_recursive_types(T)]
pub struct ExReceiver<T>(std::sync::mpsc::Receiver<T>);

/// Relies on `std::sync::mpsc::channel`: a fresh asynchronous channel;
/// nothing is promised about the pair beyond its existence.
pub assume_specification<T>[ std::sync::mpsc::channel::<T> ]() -> (std::sync::mpsc::Sender<T>, std::sync::mpsc::Receiver<T>);

/// Relies on `std::sync::mpsc::Sender::clone`: another sender for the same
/// channel.
pub assume_specification<T>[ <std::sync::mpsc::Sender<T> as Clone>::clone ](
    s: &std::sync::mpsc::Sender<T>,
) -> std::sync::mpsc::Sender<T>;

/// Relies on `std::sync::mpsc::Sender::send`: queues `v` for the receiver.
/// Its error only reports a disconnected receiver; it is dropped here, as
/// delivery to a vanished consumer is silently abandoned by design.
#[verifier::external_body]
pub fn send_on<T>(s: &std::sync::mpsc::Sender<T>, v: T) {
    let _ = s.send(v);
}

} // verus!
