//! The channels that lead to the clients: unbounded tokio channels of WebSocket messages.

use crate::shard_map::{entries, ShardMap};
use tokio::sync::mpsc::{unbounded_channel, UnboundedReceiver, UnboundedSender};
use vstd::prelude::*;
use warp::ws::Message;

verus! {

/// `tokio::sync::mpsc::UnboundedSender`.
#[verifier::external_type_specification]
#[verifier::external_body]
#[verifier::reject_recursive_types(T)]
pub struct ExUnboundedSender<T>(tokio::sync::mpsc::UnboundedSender<T>);

/// `tokio::sync::mpsc::UnboundedReceiver`.
#[verifier::external_type_specification]
#[verifier::external_body]
#[verifier::reject_recursive_types(T)]
pub struct ExUnboundedReceiver<T>(tokio::sync::mpsc::UnboundedReceiver<T>);

/// `warp::ws::Message`.
#[verifier::external_type_specification]
#[verifier::external_body]
pub struct ExMessage(warp::ws::Message);

/// `warp::Error`.
#[verifier::external_type_specification]
#[verifier::external_body]
pub struct ExWarpError(warp::Error);

/// The sending half of a client's channel.
pub type ClientSender = UnboundedSender<Result<Message, warp::Error>>;

/// The receiving half of a client's channel.
pub type ClientReceiver = UnboundedReceiver<Result<Message, warp::Error>>;

/// The messages that have been handed to `send` on this sender, oldest first, whether the channel took
/// them or not. A sender can be used through a shared reference; here that is only ever done through a
/// unique one to it or to the map that holds it, so that the messages belong to the value of the
/// sender.
pub uninterp spec fn handed(sender: UnboundedSender<Result<Message, warp::Error>>) -> Seq<Message>;

/// Whether `sender` and `receiver` are ends of the same channel: what the one takes comes out of the
/// other.
pub uninterp spec fn feeds(
    sender: UnboundedSender<Result<Message, warp::Error>>,
    receiver: UnboundedReceiver<Result<Message, warp::Error>>,
) -> bool;

/// The two senders lead into the same channel.
pub open spec fn same_channel(a: ClientSender, b: ClientSender) -> bool {
    forall|receiver: ClientReceiver| #[trigger] feeds(b, receiver) == feeds(a, receiver)
}

/// The two senders lead into different channels: nobody receives from both.
pub open spec fn apart(a: ClientSender, b: ClientSender) -> bool {
    forall|receiver: ClientReceiver|
        #![trigger feeds(a, receiver)]
        #![trigger feeds(b, receiver)]
        !(feeds(a, receiver) && feeds(b, receiver))
}

/// `tokio::sync::mpsc::unbounded_channel`: the two ends of a new channel, through which nothing has
/// been sent yet. The channel is none of those that exist already; of these, the contract speaks of
/// the ones that the senders in `others` lead into.
#[verifier::external_body]
pub(crate) fn open_channel(others: &[ShardMap]) -> (pair: (ClientSender, ClientReceiver))
    ensures
        handed(pair.0) == Seq::<Message>::empty(),
        feeds(pair.0, pair.1),
        forall|s: int, id: usize|
            0 <= s < others@.len() && #[trigger] entries(others@[s]).contains_key(id) ==> apart(
                entries(others@[s])[id],
                pair.0,
            ),
{
    let _ = others;
    unbounded_channel()
}

/// `<warp::ws::Message as Clone>::clone`: a message of the same kind and with the same payload, which
/// is all that there is to a message.
pub assume_specification[ <warp::ws::Message as Clone>::clone ](
    message: &warp::ws::Message,
) -> (copy: warp::ws::Message)
    ensures
        copy == *message,
;

} // verus!
