//! The queue of published messages: a bounded flume channel.

use crate::message::ClientMessage;
use flume::{Receiver, Sender};
use vstd::prelude::*;

verus! {

/// `flume::Sender`.
#[verifier::external_type_specification]
#[verifier::external_body]
#[verifier::reject_recursive_types(T)]
pub struct ExSender<T>(flume::Sender<T>);

/// `flume::Receiver`.
#[verifier::external_type_specification]
#[verifier::external_body]
#[verifier::reject_recursive_types(T)]
pub struct ExReceiver<T>(flume::Receiver<T>);

/// The messages that have been handed to `try_send` through this handle, oldest first, each with
/// what came of it. A sender can be used through a shared reference; the library only ever does so
/// through a unique one, so that the attempts belong to the value of the handle.
pub uninterp spec fn attempts(sender: Sender<ClientMessage>) -> Seq<(ClientMessage, TrySend)>;

/// The messages that were taken, in order.
pub open spec fn taken(attempts: Seq<(ClientMessage, TrySend)>) -> Seq<ClientMessage>
    decreases attempts.len(),
{
    if attempts.len() == 0 {
        Seq::empty()
    } else {
        let earlier = taken(attempts.drop_last());
        if attempts.last().1 is Sent {
            earlier.push(attempts.last().0)
        } else {
            earlier
        }
    }
}

/// The messages that were put into the queue through this handle, oldest first.
pub open spec fn queued(sender: Sender<ClientMessage>) -> Seq<ClientMessage> {
    taken(attempts(sender))
}

/// The number of messages that the queue holds at most, as `Sender::capacity` gives it.
pub uninterp spec fn capacity(sender: Sender<ClientMessage>) -> Option<usize>;

/// Whether `sender` and `receiver` are ends of the same queue: what goes into the one comes out of
/// the other.
pub uninterp spec fn drains_into(
    sender: Sender<ClientMessage>,
    receiver: Receiver<ClientMessage>,
) -> bool;

/// The two handles belong to the same queue.
pub open spec fn same_queue(a: Sender<ClientMessage>, b: Sender<ClientMessage>) -> bool {
    &&& capacity(b) == capacity(a)
    &&& forall|receiver: Receiver<ClientMessage>| #[trigger]
        drains_into(b, receiver) == drains_into(a, receiver)
}

/// What came of an attempt to put a message into the queue without waiting.
pub enum TrySend {
    /// The queue took the message.
    Sent,
    /// The queue was full; the message comes back.
    Full(ClientMessage),
    /// Nobody receives any more; the message comes back.
    Disconnected(ClientMessage),
}

/// `flume::bounded`: the two ends of a new queue with the given capacity. No attempt to put anything
/// into it has been made yet.
#[verifier::external_body]
pub(crate) fn bounded(limit: usize) -> (ends: (Sender<ClientMessage>, Receiver<ClientMessage>))
    ensures
        attempts(ends.0) == (Seq::<(ClientMessage, TrySend)>::empty()),
        capacity(ends.0) == Some(limit),
        drains_into(ends.0, ends.1),
{
    flume::bounded(limit)
}

/// `flume::Sender::try_send`: puts the message into the queue or gives it back; either way this is
/// one more attempt through the handle, which still belongs to the same queue. Whether the queue has
/// room, and whether anybody still receives, is up to the receiving end: nothing is claimed of which
/// of the three comes out.
#[verifier::external_body]
pub(crate) fn try_send(
    sender: &mut Sender<ClientMessage>,
    message: ClientMessage,
) -> (outcome: TrySend)
    ensures
        same_queue(*old(sender), *final(sender)),
        attempts(*final(sender)) == attempts(*old(sender)).push((message, outcome)),
        outcome matches TrySend::Full(back) ==> back == message,
        outcome matches TrySend::Disconnected(back) ==> back == message,
{
    match sender.try_send(message) {
        Ok(()) => TrySend::Sent,
        Err(flume::TrySendError::Full(back)) => TrySend::Full(back),
        Err(flume::TrySendError::Disconnected(back)) => TrySend::Disconnected(back),
    }
}

} // verus!
