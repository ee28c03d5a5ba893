//! The registry: the connected clients, the number of connections, and the ids to come.

use crate::channel::{ClientReceiver, ClientSender};
use crate::clients::{is_new_channel, shard_of, ClientStore, MAX_CONNECTIONS, SHARD_COUNT};
use crate::errors::ApiError;
use vstd::prelude::*;

verus! {

/// The state of the registry.
pub ghost struct RegistryState {
    /// The registered clients and their senders.
    pub clients: Map<usize, ClientSender>,
    /// The counts of the shards.
    pub counts: Seq<usize>,
    /// The id of the next client.
    pub next_client_id: usize,
    /// The number of connections that have been admitted and have not ended.
    pub active: usize,
}

/// The registry before the first connection.
pub open spec fn initial() -> RegistryState {
    RegistryState {
        clients: Map::empty(),
        counts: Seq::new(SHARD_COUNT as nat, |s: int| 0usize),
        next_client_id: 1,
        active: 0,
    }
}

/// A further connection is admitted.
pub open spec fn after_admission(state: RegistryState) -> RegistryState {
    RegistryState { active: (state.active + 1) as usize, ..state }
}

/// The next client is registered with its sender.
pub open spec fn after_registration(state: RegistryState, sender: ClientSender) -> RegistryState {
    let id = state.next_client_id;
    RegistryState {
        clients: state.clients.insert(id, sender),
        counts: state.counts.update(shard_of(id), state.counts[shard_of(id)].wrapping_add(1)),
        next_client_id: id.wrapping_add(1),
        ..state
    }
}

/// A client has left, and its connection with it.
pub open spec fn after_departure(state: RegistryState, id: usize) -> RegistryState {
    RegistryState {
        clients: state.clients.remove(id),
        counts: if state.clients.contains_key(id) {
            state.counts.update(shard_of(id), state.counts[shard_of(id)].wrapping_sub(1))
        } else {
            state.counts
        },
        active: state.active.wrapping_sub(1),
        ..state
    }
}

/// How busy the service is.
pub struct StatsResponse {
    /// The number of connections.
    pub active: usize,
    /// The most connections that are admitted.
    pub max: usize,
}

/// The connected clients, the number of connections, and the ids to come.
pub struct Registry {
    clients: ClientStore,
    next_client_id: usize,
    active: usize,
}

impl View for Registry {
    type V = RegistryState;

    closed spec fn view(&self) -> RegistryState {
        RegistryState {
            clients: self.clients@,
            counts: self.clients.shard_counts(),
            next_client_id: self.next_client_id,
            active: self.active,
        }
    }
}

impl Registry {
    /// The client store is well formed.
    pub closed spec fn wf(&self) -> bool {
        self.clients.wf()
    }

    /// There is a count for every shard.
    pub proof fn lemma_counts(&self)
        requires
            self.wf(),
        ensures
            self@.counts.len() == SHARD_COUNT,
    {
        self.clients.lemma_shard_counts();
    }

    /// A registry without connections.
    pub fn new() -> (registry: Self)
        ensures
            registry.wf(),
            registry@ == initial(),
    {
        Registry { clients: ClientStore::new(), next_client_id: 1, active: 0 }
    }

    /// The connected clients.
    pub fn clients(&self) -> (clients: &ClientStore)
        requires
            self.wf(),
        ensures
            clients.wf(),
            clients@ == self@.clients,
            clients.shard_counts() == self@.counts,
    {
        &self.clients
    }

    /// The connected clients, to hand messages to.
    pub fn clients_mut(&mut self) -> (clients: &mut ClientStore)
        requires
            old(self).wf(),
        ensures
            clients.wf(),
            clients@ == old(self)@.clients,
            clients.shard_counts() == old(self)@.counts,
            final(clients).wf() ==> final(self).wf(),
            final(self)@ == (RegistryState {
                clients: final(clients)@,
                counts: final(clients).shard_counts(),
                ..old(self)@
            }),
    {
        &mut self.clients
    }

    /// The number of connections.
    pub fn active(&self) -> (active: usize)
        ensures
            active == self@.active,
    {
        self.active
    }

    /// The number of connections, and the most that are admitted.
    pub fn stats(&self) -> (stats: StatsResponse)
        ensures
            stats == (StatsResponse { active: self@.active, max: MAX_CONNECTIONS }),
    {
        StatsResponse { active: self.active, max: MAX_CONNECTIONS }
    }

    /// Admits a further connection, unless there are as many as are admitted at one time.
    pub fn accept(&mut self) -> (verdict: Result<(), ApiError>)
        requires
            old(self).wf(),
        ensures
            final(self).wf(),
            verdict is Ok <==> old(self)@.active < MAX_CONNECTIONS,
            verdict matches Err(error) ==> error is TooManyConnections,
            final(self)@ == if verdict is Ok {
                after_admission(old(self)@)
            } else {
                old(self)@
            },
    {
        if self.active >= MAX_CONNECTIONS {
            return Err(ApiError::TooManyConnections);
        }
        self.active = self.active + 1;
        Ok(())
    }

    /// Registers the next client with a channel of its own; gives its id and the end of the channel
    /// that its messages come out of.
    pub fn register(&mut self) -> (registered: (usize, ClientReceiver))
        requires
            old(self).wf(),
        ensures
            final(self).wf(),
            old(self)@.counts.len() == final(self)@.counts.len() == SHARD_COUNT,
            registered.0 == old(self)@.next_client_id,
            is_new_channel(
                final(self)@.clients[registered.0],
                registered.1,
                old(self)@.clients,
            ),
            final(self)@ == after_registration(
                old(self)@,
                final(self)@.clients[registered.0],
            ),
    {
        let client_id = self.next_client_id;
        self.next_client_id = client_id.wrapping_add(1);
        let (sender, receiver) = self.clients.open_channel();
        self.clients.insert(client_id, sender);
        (client_id, receiver)
    }

    /// Takes a client out, and counts its connection as ended; gives the number of connections that
    /// are left.
    pub fn unregister(&mut self, client_id: usize) -> (remaining: usize)
        requires
            old(self).wf(),
        ensures
            final(self).wf(),
            old(self)@.counts.len() == final(self)@.counts.len() == SHARD_COUNT,
            final(self)@ == after_departure(old(self)@, client_id),
            remaining == final(self)@.active,
    {
        self.clients.remove(&client_id);
        self.active = self.active.wrapping_sub(1);
        self.active
    }
}

/// A connection that comes and goes leaves nothing behind but the id that it used.
pub proof fn law_departure_undoes_connection(state: RegistryState, sender: ClientSender)
    requires
        state.active < MAX_CONNECTIONS,
        state.counts.len() == SHARD_COUNT,
        !state.clients.contains_key(state.next_client_id),
    ensures
        after_departure(
            after_registration(after_admission(state), sender),
            state.next_client_id,
        ) == (RegistryState { next_client_id: state.next_client_id.wrapping_add(1), ..state }),
{
    let id = state.next_client_id;
    let after = after_departure(after_registration(after_admission(state), sender), id);
    assert(after.clients =~= state.clients);
    assert(after.counts =~= state.counts);
}

} // verus!
