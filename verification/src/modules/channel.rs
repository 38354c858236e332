use crate::messaging::message::Message;
use async_channel::{Receiver, Sender};
use vstd::prelude::*;

verus! {

/// `async_channel::Sender`: the sending half of a channel. Any number of
/// holders may send through clones of it.
#[verifier::external_type_specification]
#[verifier::external_body]
#[verifier::reject_recursive_types(T)]
pub struct ExSender<T>(Sender<T>);

/// `async_channel::Receiver`: the receiving half of a channel. Any number of
/// holders may receive through clones of it.
#[verifier::external_type_specification]
#[verifier::external_body]
#[verifier::reject_recursive_types(T)]
pub struct ExReceiver<T>(Receiver<T>);

/// The two halves of one channel, as they were made together.
pub struct Channel {
    pub sender: Sender<Message>,
    pub receiver: Receiver<Message>,
}

/// Calls `async_channel::unbounded`, which makes a new channel without a
/// capacity limit and returns its two halves. Nothing is claimed of them.
#[verifier::external_body]
pub(crate) fn open_channel() -> (channel: Channel) {
    let (sender, receiver) = async_channel::unbounded::<Message>();
    Channel { sender, receiver }
}

/// Calls `Sender::clone`, which counts one more sender on the channel of
/// `sender` and returns a handle that shares that channel. To the contracts a
/// handle stands for the half of the channel that it belongs to and for
/// nothing else, so the clone is the same value as `sender`.
///
/// The call ends the process once more than `usize::MAX / 2` senders of one
/// channel exist, which is more than a process can hold.
#[verifier::external_body]
pub(crate) fn clone_sender(sender: &Sender<Message>) -> (handle: Sender<Message>)
    ensures
        handle == *sender,
{
    sender.clone()
}

/// Calls `Receiver::clone`, which counts one more receiver on the channel of
/// `receiver` and returns a handle that shares that channel. To the contracts
/// a handle stands for the half of the channel that it belongs to and for
/// nothing else, so the clone is the same value as `receiver`.
///
/// The call ends the process once more than `usize::MAX / 2` receivers of one
/// channel exist, which is more than a process can hold.
#[verifier::external_body]
pub(crate) fn clone_receiver(receiver: &Receiver<Message>) -> (handle: Receiver<Message>)
    ensures
        handle == *receiver,
{
    receiver.clone()
}

} // verus!
