//! The registry of connected clients, split over a fixed number of shards.

use crate::channel::{
    apart, feeds, handed, open_channel, same_channel, ClientReceiver, ClientSender,
};
use crate::shard_map::{self, entries, ShardMap};
use vstd::prelude::*;
use warp::ws::Message;

verus! {

/// The most connections that are admitted at one time.
pub const MAX_CONNECTIONS: usize = 500_000;

/// The number of shards.
pub const SHARD_COUNT: usize = 128;

/// The bits of a client id that select its shard.
pub const SHARD_MASK: usize = SHARD_COUNT - 1;

/// Below this many connections a broadcast takes the path for few clients.
pub const SMALL_BROADCAST_LIMIT: usize = 1000;

/// The shard that a client belongs to.
pub open spec fn shard_of(client_id: usize) -> int {
    client_id as int % SHARD_COUNT as int
}

/// `message` has been broadcast: it has been handed to the channel of every client exactly once, and
/// nothing else has changed.
pub open spec fn is_broadcast(
    before: Map<usize, ClientSender>,
    message: Message,
    after: Map<usize, ClientSender>,
) -> bool {
    &&& after.dom() == before.dom()
    &&& forall|id: usize|
        #![trigger before.contains_key(id)]
        #![trigger after[id]]
        before.contains_key(id) ==> same_channel(before[id], after[id]) && handed(after[id])
            == handed(before[id]).push(message)
}

/// `messages` have been broadcast in this order: each has been handed to the channel of every client
/// exactly once, and nothing else has changed.
pub open spec fn are_broadcast(
    before: Map<usize, ClientSender>,
    messages: Seq<Message>,
    after: Map<usize, ClientSender>,
) -> bool {
    &&& after.dom() == before.dom()
    &&& forall|id: usize|
        #![trigger before.contains_key(id)]
        #![trigger after[id]]
        before.contains_key(id) ==> same_channel(before[id], after[id]) && handed(after[id])
            == handed(before[id]) + messages
}

/// The connected clients and, for each shard, a count of them.
pub struct ClientStore {
    shards: Vec<ShardMap>,
    counts: Vec<usize>,
}

impl View for ClientStore {
    type V = Map<usize, ClientSender>;

    /// The registered clients and their senders.
    closed spec fn view(&self) -> Map<usize, ClientSender> {
        Map::new(
            |id: usize| entries(self.shards@[shard_of(id)]).contains_key(id),
            |id: usize| entries(self.shards@[shard_of(id)])[id],
        )
    }
}

impl ClientStore {
    /// Every client stands in its own shard.
    pub closed spec fn wf(&self) -> bool {
        &&& self.shards@.len() == SHARD_COUNT
        &&& self.counts@.len() == SHARD_COUNT
        &&& forall|s: int, id: usize|
            0 <= s < SHARD_COUNT && #[trigger] entries(self.shards@[s]).contains_key(id)
                ==> shard_of(id) == s
    }

    /// The counts of the shards, in order.
    pub closed spec fn shard_counts(&self) -> Seq<usize> {
        self.counts@
    }

    /// There is a count for every shard.
    pub proof fn lemma_shard_counts(&self)
        requires
            self.wf(),
        ensures
            self.shard_counts().len() == SHARD_COUNT,
    {
    }

    /// A store without clients.
    pub fn new() -> (store: Self)
        ensures
            store.wf(),
            store@ == Map::<usize, ClientSender>::empty(),
            store.shard_counts() == Seq::new(SHARD_COUNT as nat, |s: int| 0usize),
    {
        let mut shards: Vec<ShardMap> = Vec::with_capacity(SHARD_COUNT);
        let mut counts: Vec<usize> = Vec::with_capacity(SHARD_COUNT);
        for s in 0..SHARD_COUNT
            invariant
                shards@.len() == s,
                counts@.len() == s,
                forall|t: int| 0 <= t < s ==> counts@[t] == 0,
                forall|t: int|
                    0 <= t < s ==> entries(#[trigger] shards@[t]) == Map::<
                        usize,
                        ClientSender,
                    >::empty(),
        {
            shards.push(shard_map::new_shard(MAX_CONNECTIONS / SHARD_COUNT));
            counts.push(0);
        }
        let store = ClientStore { shards, counts };
        assert(store@ =~= Map::<usize, ClientSender>::empty());
        store
    }

    /// The index of the shard that a client belongs to.
    fn shard_index(client_id: usize) -> (index: usize)
        ensures
            index == shard_of(client_id),
            index < SHARD_COUNT,
    {
        let index: usize = client_id & SHARD_MASK;
        assert(client_id & 127 == client_id % 128) by (bit_vector);
        index
    }

    /// Registers a client under `client_id`, in place of the one that was registered under it, and
    /// counts it in its shard.
    pub fn insert(&mut self, client_id: usize, sender: ClientSender)
        requires
            old(self).wf(),
        ensures
            final(self).wf(),
            final(self)@ == old(self)@.insert(client_id, sender),
            old(self).shard_counts().len() == final(self).shard_counts().len() == SHARD_COUNT,
            final(self).shard_counts() == old(self).shard_counts().update(
                shard_of(client_id),
                old(self).shard_counts()[shard_of(client_id)].wrapping_add(1),
            ),
    {
        let shard_idx = Self::shard_index(client_id);
        shard_map::insert(&mut self.shards[shard_idx], client_id, sender);
        self.counts[shard_idx] = self.counts[shard_idx].wrapping_add(1);
        assert(self@ =~= old(self)@.insert(client_id, sender));
    }

    /// Removes a client; says whether it was registered. Its shard's count goes down only if so.
    pub fn remove(&mut self, client_id: &usize) -> (removed: bool)
        requires
            old(self).wf(),
        ensures
            final(self).wf(),
            removed == old(self)@.contains_key(*client_id),
            final(self)@ == old(self)@.remove(*client_id),
            old(self).shard_counts().len() == final(self).shard_counts().len() == SHARD_COUNT,
            final(self).shard_counts() == if removed {
                old(self).shard_counts().update(
                    shard_of(*client_id),
                    old(self).shard_counts()[shard_of(*client_id)].wrapping_sub(1),
                )
            } else {
                old(self).shard_counts()
            },
    {
        let shard_idx = Self::shard_index(*client_id);
        let removed = shard_map::remove(&mut self.shards[shard_idx], client_id).is_some();
        if removed {
            self.counts[shard_idx] = self.counts[shard_idx].wrapping_sub(1);
        }
        assert(self@ =~= old(self)@.remove(*client_id));
        removed
    }

    /// The count of one shard.
    pub fn shard_count(&self, shard_idx: usize) -> (count: usize)
        requires
            self.wf(),
            shard_idx < SHARD_COUNT,
        ensures
            count == self.shard_counts()[shard_idx as int],
    {
        self.counts[shard_idx]
    }

    /// A new channel, which is none of those of the clients.
    pub fn open_channel(&self) -> (pair: (ClientSender, ClientReceiver))
        requires
            self.wf(),
        ensures
            is_new_channel(pair.0, pair.1, self@),
    {
        open_channel(self.shards.as_slice())
    }

    /// Hands `msg` to every client. The connection count selects the path.
    pub fn broadcast(&mut self, msg: Message, conn_count: usize)
        requires
            old(self).wf(),
        ensures
            final(self).wf(),
            is_broadcast(old(self)@, msg, final(self)@),
            final(self).shard_counts() == old(self).shard_counts(),
    {
        if conn_count < SMALL_BROADCAST_LIMIT {
            self.broadcast_small(msg)
        } else {
            self.broadcast_large(msg)
        }
    }

    /// Hands `msg` to every client, one after the other.
    pub fn broadcast_small(&mut self, msg: Message)
        requires
            old(self).wf(),
        ensures
            final(self).wf(),
            is_broadcast(old(self)@, msg, final(self)@),
            final(self).shard_counts() == old(self).shard_counts(),
    {
        for s in 0..SHARD_COUNT
            invariant
                old(self).wf(),
                self.shards@.len() == SHARD_COUNT,
                self.counts@ == old(self).counts@,
                forall|t: int|
                    #![trigger self.shards@[t]]
                    0 <= t < s ==> is_broadcast(
                        entries(old(self).shards@[t]),
                        msg,
                        entries(self.shards@[t]),
                    ),
                forall|t: int|
                    s <= t < SHARD_COUNT ==> #[trigger] self.shards@[t] == old(self).shards@[t],
        {
            Self::broadcast_shard(&mut self.shards[s], &msg);
        }
        proof {
            assert(self@.dom() =~= old(self)@.dom());
            assert forall|id: usize| #[trigger] old(self)@.contains_key(id) implies same_channel(
                old(self)@[id],
                self@[id],
            ) && handed(self@[id]) == handed(old(self)@[id]).push(msg) by {
                let s = shard_of(id);
                assert(is_broadcast(
                    entries(old(self).shards@[s]),
                    msg,
                    entries(self.shards@[s]),
                ));
            }
        }
    }

    /// Hands `msg` to the clients of one shard.
    fn broadcast_shard(shard: &mut ShardMap, msg: &Message)
        ensures
            is_broadcast(entries(*old(shard)), *msg, entries(*final(shard))),
    {
        let ids = shard_map::ids(shard);
        let ghost all = ids@;
        let ghost before = entries(*shard);
        for i in 0..ids.len()
            invariant
                ids@ == all,
                before == entries(*old(shard)),
                all.no_duplicates(),
                all.to_set() == before.dom(),
                entries(*shard).dom() == before.dom(),
                forall|k: int|
                    0 <= k < i ==> same_channel(
                        before[#[trigger] all[k]],
                        entries(*shard)[all[k]],
                    ) && handed(entries(*shard)[all[k]]) == handed(before[all[k]]).push(*msg),
                forall|k: int|
                    i <= k < all.len() ==> entries(*shard)[#[trigger] all[k]] == before[all[k]],
        {
            shard_map::send_in(shard, ids[i], msg.clone());
        }
        assert forall|id: usize| #[trigger] before.contains_key(id) implies same_channel(
            before[id],
            entries(*shard)[id],
        ) && handed(entries(*shard)[id]) == handed(before[id]).push(*msg) by {
            let k = choose|k: int| 0 <= k < all.len() && all[k] == id;
        }
    }

    /// Hands `msg` to every client.
    pub fn broadcast_large(&mut self, msg: Message)
        requires
            old(self).wf(),
        ensures
            final(self).wf(),
            is_broadcast(old(self)@, msg, final(self)@),
            final(self).shard_counts() == old(self).shard_counts(),
    {
        self.broadcast_small(msg)
    }
}

/// `sender` and `receiver` are the ends of a channel that nothing was sent through yet, and that none
/// of `clients` uses.
pub open spec fn is_new_channel(
    sender: ClientSender,
    receiver: ClientReceiver,
    clients: Map<usize, ClientSender>,
) -> bool {
    &&& handed(sender) == Seq::<Message>::empty()
    &&& feeds(sender, receiver)
    &&& forall|id: usize|
        #![trigger clients.contains_key(id)]
        #![trigger clients[id]]
        clients.contains_key(id) ==> apart(clients[id], sender)
}

/// To broadcast nothing changes nothing that a client could tell.
pub proof fn law_no_broadcast(clients: Map<usize, ClientSender>)
    ensures
        are_broadcast(clients, Seq::<Message>::empty(), clients),
{
}

/// A broadcast after others comes after them at every client.
pub proof fn law_broadcast_follows(
    before: Map<usize, ClientSender>,
    messages: Seq<Message>,
    between: Map<usize, ClientSender>,
    message: Message,
    after: Map<usize, ClientSender>,
)
    requires
        are_broadcast(before, messages, between),
        is_broadcast(between, message, after),
    ensures
        are_broadcast(before, messages.push(message), after),
{
    assert forall|id: usize| #[trigger] before.contains_key(id) implies same_channel(
        before[id],
        after[id],
    ) && handed(after[id]) == handed(before[id]) + messages.push(message) by {
        assert((handed(before[id]) + messages).push(message) =~= handed(before[id])
            + messages.push(message));
    }
}

/// How a message is broadcast makes no difference: whichever way it was done, the same clients are
/// registered, and the same has been handed to the channel of each.
pub proof fn law_broadcasts_agree(
    before: Map<usize, ClientSender>,
    message: Message,
    a: Map<usize, ClientSender>,
    b: Map<usize, ClientSender>,
)
    requires
        is_broadcast(before, message, a),
        is_broadcast(before, message, b),
    ensures
        a.dom() == b.dom(),
        forall|id: usize| #[trigger]
            before.contains_key(id) ==> same_channel(a[id], b[id]) && handed(a[id]) == handed(b[id]),
{
}

/// Two series of broadcasts reach every client one after the other.
pub proof fn law_broadcasts_follow(
    before: Map<usize, ClientSender>,
    first: Seq<Message>,
    between: Map<usize, ClientSender>,
    second: Seq<Message>,
    after: Map<usize, ClientSender>,
)
    requires
        are_broadcast(before, first, between),
        are_broadcast(between, second, after),
    ensures
        are_broadcast(before, first + second, after),
{
    assert forall|id: usize| #[trigger] before.contains_key(id) implies same_channel(
        before[id],
        after[id],
    ) && handed(after[id]) == handed(before[id]) + (first + second) by {
        assert((handed(before[id]) + first) + second =~= handed(before[id]) + (first + second));
    }
}

/// A broadcast reaches whoever receives on the channel of a registered client: the message is the
/// last that was handed to the channel, after what was handed to it before.
pub proof fn law_broadcast_reaches_receiver(
    before: Map<usize, ClientSender>,
    message: Message,
    after: Map<usize, ClientSender>,
    id: usize,
    receiver: ClientReceiver,
)
    requires
        is_broadcast(before, message, after),
        before.contains_key(id),
        feeds(before[id], receiver),
    ensures
        after.contains_key(id),
        feeds(after[id], receiver),
        handed(after[id]) == handed(before[id]).push(message),
{
}

/// Broadcasts reach nobody but the clients: whoever receives on the channel of none of them receives
/// on the channel of none of them afterwards.
pub proof fn law_broadcast_reaches_only_clients(
    before: Map<usize, ClientSender>,
    messages: Seq<Message>,
    after: Map<usize, ClientSender>,
    receiver: ClientReceiver,
)
    requires
        are_broadcast(before, messages, after),
        forall|id: usize| #[trigger] before.contains_key(id) ==> !feeds(before[id], receiver),
    ensures
        forall|id: usize| #[trigger] after.contains_key(id) ==> !feeds(after[id], receiver),
{
}

} // verus!
