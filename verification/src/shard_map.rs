//! One shard of the client registry: a `DashMap` from client id to the client's sender.

use crate::channel::{handed, same_channel, ClientSender};
use dashmap::DashMap;
use fxhash::FxBuildHasher;
use vstd::prelude::*;
use warp::ws::Message;

verus! {

/// `dashmap::DashMap`.
#[verifier::external_type_specification]
#[verifier::external_body]
#[verifier::reject_recursive_types(K)]
#[verifier::reject_recursive_types(V)]
#[verifier::reject_recursive_types(S)]
pub struct ExDashMap<K, V, S>(dashmap::DashMap<K, V, S>);

/// `fxhash::FxHasher`.
#[verifier::external_type_specification]
#[verifier::external_body]
pub struct ExFxHasher(fxhash::FxHasher);

/// `std::hash::BuildHasherDefault`.
#[verifier::external_type_specification]
#[verifier::external_body]
#[verifier::reject_recursive_types(H)]
pub struct ExBuildHasherDefault<H>(std::hash::BuildHasherDefault<H>);

/// A shard: client ids and their senders.
pub type ShardMap = DashMap<usize, ClientSender, FxBuildHasher>;

/// The entries of a shard. A `DashMap` can be changed through a shared reference; here that is only
/// ever done through a unique one, so that the entries belong to the value of the map.
pub uninterp spec fn entries(
    shard: DashMap<usize, ClientSender, FxBuildHasher>,
) -> Map<usize, ClientSender>;

/// `DashMap::with_capacity_and_hasher`: an empty map. A capacity whose rounding overflows, or that
/// cannot be allocated, makes it panic.
#[verifier::external_body]
pub(crate) fn new_shard(capacity: usize) -> (shard: ShardMap)
    requires
        capacity <= 1_000_000,
    ensures
        entries(shard) == (Map::<usize, ClientSender>::empty()),
{
    DashMap::with_capacity_and_hasher(capacity, FxBuildHasher::default())
}

/// `DashMap::insert`: the client has this sender, in place of any that it had before.
#[verifier::external_body]
pub(crate) fn insert(shard: &mut ShardMap, id: usize, sender: ClientSender)
    ensures
        entries(*final(shard)) == entries(*old(shard)).insert(id, sender),
{
    shard.insert(id, sender);
}

/// `DashMap::remove`: the client's entry, which is not in the map any more, if there was one.
#[verifier::external_body]
pub(crate) fn remove(shard: &mut ShardMap, id: &usize) -> (removed: Option<(usize, ClientSender)>)
    ensures
        entries(*final(shard)) == entries(*old(shard)).remove(*id),
        removed == (if entries(*old(shard)).contains_key(*id) {
            Some((*id, entries(*old(shard))[*id]))
        } else {
            None
        }),
{
    shard.remove(id)
}

/// `DashMap::iter`, of which the keys are kept: every client that has an entry comes once, and nobody
/// else does. Nothing is claimed of the order.
#[verifier::external_body]
pub(crate) fn ids(shard: &ShardMap) -> (ids: Vec<usize>)
    ensures
        ids@.no_duplicates(),
        ids@.to_set() == entries(*shard).dom(),
{
    shard.iter().map(|item| *item.key()).collect()
}

/// `UnboundedSender::send` of `Ok(message)` on the sender that `DashMap::get` finds: the message is
/// handed to the client's channel, which the sender goes on to belong to; all other entries stay as
/// they are. Whether the channel takes the message is up to the receiving end, which may be gone:
/// nothing is claimed of that.
#[verifier::external_body]
pub(crate) fn send_in(shard: &mut ShardMap, id: usize, message: Message)
    requires
        entries(*old(shard)).contains_key(id),
    ensures
        entries(*final(shard)) == entries(*old(shard)).insert(id, entries(*final(shard))[id]),
        same_channel(entries(*old(shard))[id], entries(*final(shard))[id]),
        handed(entries(*final(shard))[id]) == handed(entries(*old(shard))[id]).push(message),
{
    let _ = shard.get(&id).map(|sender| sender.send(Ok(message)));
}

} // verus!
