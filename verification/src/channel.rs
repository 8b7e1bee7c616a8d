//! The channel types that carry tasks to workers and replies back, as the
//! verifier sees them: opaque values, and calls of which nothing is known but
//! that they return.

use vstd::prelude::*;

verus! {

/// `oneshot::Sender`: the sending end of a channel that carries one message.
#[verifier::external_type_specification]
#[verifier::external_body]
#[verifier::reject_recursive_types(T)]
pub struct ExReplySender<T>(oneshot::Sender<T>);

/// `oneshot::Receiver`: the receiving end of a channel that carries one message.
#[verifier::external_type_specification]
#[verifier::external_body]
#[verifier::reject_recursive_types(T)]
pub struct ExReplyReceiver<T>(oneshot::Receiver<T>);

/// `oneshot::SendError`: the receiver was dropped before the message was sent.
#[verifier::external_type_specification]
#[verifier::external_body]
#[verifier::reject_recursive_types(T)]
pub struct ExReplySendError<T>(oneshot::SendError<T>);

/// `oneshot::RecvError`: the sender was dropped without sending.
#[verifier::external_type_specification]
#[verifier::external_body]
pub struct ExReplyRecvError(oneshot::RecvError);

/// `std::sync::mpsc::Sender`: a handle on a worker's queue of tasks.
#[verifier::external_type_specification]
#[verifier::external_body]
#[verifier::reject_recursive_types(T)]
pub struct ExQueueSender<T>(std::sync::mpsc::Sender<T>);

/// `std::sync::mpsc::SendError`: the queue's receiving end is gone.
#[verifier::external_type_specification]
#[verifier::external_body]
#[verifier::reject_recursive_types(T)]
pub struct ExQueueSendError<T>(std::sync::mpsc::SendError<T>);

/// `oneshot::channel` allocates a channel and returns its two ends. Nothing
/// is claimed of them.
pub assume_specification<T>[ oneshot::channel::<T> ]() -> (ends: (
    oneshot::Sender<T>,
    oneshot::Receiver<T>,
));

/// `oneshot::Sender::send` writes the message into the channel and returns
/// `Err` if the receiver was dropped before. Whether it was depends on
/// another thread, so nothing is claimed of the result.
pub assume_specification<T>[ oneshot::Sender::<T>::send ](
    sender: oneshot::Sender<T>,
    message: T,
) -> (sent: Result<(), oneshot::SendError<T>>);

/// `oneshot::Receiver::recv` waits for the message and returns it, or `Err`
/// if the sender was dropped without sending. What arrives depends on
/// another thread, so nothing is claimed of the result. (The crate is built
/// without its `async` feature: a receiver cannot have been polled, which is
/// the one case in which `recv` panics.)
pub assume_specification<T>[ oneshot::Receiver::<T>::recv ](receiver: oneshot::Receiver<T>) -> (got:
    Result<T, oneshot::RecvError>);

/// `std::sync::mpsc::Sender::send` queues the value and returns `Err` if the
/// queue's receiving end is gone. Nothing is claimed of the result.
pub assume_specification<T>[ std::sync::mpsc::Sender::<T>::send ](
    sender: &std::sync::mpsc::Sender<T>,
    t: T,
) -> (sent: Result<(), std::sync::mpsc::SendError<T>>);

} // verus!
