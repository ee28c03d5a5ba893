//! All connections together: what holds of the registry whatever the sessions do, and in whatever
//! order they do it.

use crate::channel::{apart, feeds, handed, same_channel, ClientReceiver, ClientSender};
use crate::clients::{are_broadcast, MAX_CONNECTIONS, SHARD_COUNT};
use crate::registry::{
    after_admission, after_departure, after_registration, initial, RegistryState,
};
use crate::session::{session_step, SessionAction, SessionEvent, SessionPhase};
use crate::tally::{
    clients_in_shard, counts_exact, law_empty_store_is_tallied, law_insert_keeps_tally, law_remove_keeps_tally,
};
use vstd::prelude::*;
use warp::ws::Message;

verus! {

/// The registry and all sessions.
pub ghost struct System {
    pub registry: RegistryState,
    pub sessions: Map<int, SessionPhase>,
}

/// The connections that have been admitted and have not ended.
pub open spec fn live(sessions: Map<int, SessionPhase>) -> Set<int> {
    sessions.dom().filter(|k: int| sessions[k] is Admitted || sessions[k] is Open)
}

/// Some session is open for the client `id`.
pub open spec fn is_open(sessions: Map<int, SessionPhase>, id: usize) -> bool {
    exists|k: int| #[trigger] sessions.contains_key(k) && sessions[k] == SessionPhase::Open(id)
}

/// Every client has a channel of its own.
pub open spec fn channels_apart(clients: Map<usize, ClientSender>) -> bool {
    forall|a: usize, b: usize|
        #![trigger clients.contains_key(a), clients.contains_key(b)]
        clients.contains_key(a) && clients.contains_key(b) && a != b ==> apart(
            clients[a],
            clients[b],
        )
}

/// The registry tells the truth about the sessions: it counts those that are under way, never more
/// than are admitted; the clients are those of the open sessions, each under an id of its own that
/// was handed out before and with a channel of its own; and the counts of the shards are exact.
pub open spec fn consistent(system: System) -> bool {
    &&& system.sessions.dom().finite()
    &&& system.registry.active == live(system.sessions).len()
    &&& system.registry.active <= MAX_CONNECTIONS
    &&& 1 <= system.registry.next_client_id
    &&& forall|id: usize| #[trigger]
        system.registry.clients.contains_key(id) <==> is_open(system.sessions, id)
    &&& forall|j: int, k: int|
        #![trigger system.sessions.contains_key(j), system.sessions.contains_key(k)]
        system.sessions.contains_key(j) && system.sessions.contains_key(k) && j != k
            && system.sessions[j] is Open ==> system.sessions[j] != system.sessions[k]
    &&& forall|id: usize| #[trigger]
        system.registry.clients.contains_key(id) ==> 1 <= id < system.registry.next_client_id
    &&& channels_apart(system.registry.clients)
    &&& counts_exact(system.registry.clients, system.registry.counts)
}

/// A new request arrives.
pub open spec fn arrival(before: System, k: int, after: System) -> bool {
    &&& !before.sessions.contains_key(k)
    &&& after.registry == before.registry
    &&& after.sessions == before.sessions.insert(k, SessionPhase::Requested)
}

/// Something happens to the session `k`.
pub open spec fn step(
    before: System,
    k: int,
    event: SessionEvent,
    after: System,
    action: SessionAction,
) -> bool {
    &&& before.sessions.contains_key(k)
    &&& after.sessions == before.sessions.insert(k, after.sessions[k])
    &&& session_step(
        before.sessions[k],
        before.registry,
        event,
        after.sessions[k],
        after.registry,
        action,
    )
}

/// Messages are broadcast, in this order.
pub open spec fn delivery(before: System, messages: Seq<Message>, after: System) -> bool {
    &&& after.sessions == before.sessions
    &&& are_broadcast(before.registry.clients, messages, after.registry.clients)
    &&& after.registry == (RegistryState {
        clients: after.registry.clients,
        ..before.registry
    })
}

/// Before the first request.
pub open spec fn start() -> System {
    System { registry: initial(), sessions: Map::empty() }
}

/// The registry is consistent before the first request.
pub proof fn law_starts_consistent()
    ensures
        consistent(start()),
{
    let sessions = Map::<int, SessionPhase>::empty();
    assert(live(sessions) =~= Set::empty());
    law_empty_store_is_tallied();
}

/// The arrival of a request keeps the registry consistent.
pub proof fn law_arrival_keeps_consistent(before: System, k: int, after: System)
    requires
        consistent(before),
        arrival(before, k, after),
    ensures
        consistent(after),
{
    assert(live(after.sessions) =~= live(before.sessions));
    lemma_same_open(before, k, after);
}

/// Where a session was not open before and is not after, the open sessions are the same.
proof fn lemma_same_open(before: System, k: int, after: System)
    requires
        after.sessions == before.sessions.insert(k, after.sessions[k]),
        before.sessions.contains_key(k) ==> before.sessions[k] !is Open || before.sessions[k]
            == after.sessions[k],
        after.sessions[k] !is Open || (before.sessions.contains_key(k) && before.sessions[k]
            == after.sessions[k]),
    ensures
        forall|id: usize| #[trigger] is_open(after.sessions, id) == is_open(before.sessions, id),
{
    assert forall|id: usize| #[trigger]
        is_open(after.sessions, id) == is_open(before.sessions, id) by {
        if is_open(before.sessions, id) {
            let j = choose|j: int| #[trigger]
                before.sessions.contains_key(j) && before.sessions[j] == SessionPhase::Open(id);
            assert(after.sessions.contains_key(j) && after.sessions[j] == SessionPhase::Open(id));
        }
        if is_open(after.sessions, id) {
            let j = choose|j: int| #[trigger]
                after.sessions.contains_key(j) && after.sessions[j] == SessionPhase::Open(id);
            assert(before.sessions.contains_key(j) && before.sessions[j] == SessionPhase::Open(id));
        }
    }
}

proof fn lemma_admission_keeps_consistent(before: System, k: int, after: System)
    requires
        consistent(before),
        before.sessions.contains_key(k),
        before.sessions[k] is Requested,
        before.registry.active < MAX_CONNECTIONS,
        after.sessions == before.sessions.insert(k, SessionPhase::Admitted),
        after.registry == after_admission(before.registry),
    ensures
        consistent(after),
{
    assert(live(after.sessions) =~= live(before.sessions).insert(k));
    assert(!live(before.sessions).contains(k));
    lemma_same_open(before, k, after);
}

proof fn lemma_registration_keeps_consistent(before: System, k: int, after: System)
    requires
        consistent(before),
        before.sessions.contains_key(k),
        before.sessions[k] is Admitted,
        before.registry.next_client_id < usize::MAX,
        after.sessions == before.sessions.insert(
            k,
            SessionPhase::Open(before.registry.next_client_id),
        ),
        after.registry == after_registration(
            before.registry,
            after.registry.clients[before.registry.next_client_id],
        ),
        forall|id: usize| #[trigger]
            before.registry.clients.contains_key(id) ==> apart(
                before.registry.clients[id],
                after.registry.clients[before.registry.next_client_id],
            ),
    ensures
        consistent(after),
{
    let id = before.registry.next_client_id;
    let sender = after.registry.clients[id];
    assert(!before.registry.clients.contains_key(id));
    assert(live(after.sessions) =~= live(before.sessions));
    law_insert_keeps_tally(before.registry.clients, before.registry.counts, id, sender);
    assert(after.registry.clients == before.registry.clients.insert(id, sender));
    assert forall|other: usize| #[trigger]
        after.registry.clients.contains_key(other) <==> is_open(after.sessions, other) by {
        if other == id {
            assert(after.sessions.contains_key(k));
        } else {
            assert(before.registry.clients.contains_key(other) <==> is_open(
                before.sessions,
                other,
            ));
            if is_open(before.sessions, other) {
                let j = choose|j: int| #[trigger]
                    before.sessions.contains_key(j) && before.sessions[j] == SessionPhase::Open(
                        other,
                    );
                assert(after.sessions.contains_key(j) && after.sessions[j] == SessionPhase::Open(
                    other,
                ));
            }
            if is_open(after.sessions, other) {
                let j = choose|j: int| #[trigger]
                    after.sessions.contains_key(j) && after.sessions[j] == SessionPhase::Open(
                        other,
                    );
                assert(before.sessions.contains_key(j) && before.sessions[j]
                    == SessionPhase::Open(other));
            }
        }
    }
    assert forall|j: int, l: int|
        #![trigger after.sessions.contains_key(j), after.sessions.contains_key(l)]
        after.sessions.contains_key(j) && after.sessions.contains_key(l) && j != l
            && after.sessions[j] is Open implies after.sessions[j] != after.sessions[l] by {
        assert(before.sessions.contains_key(j) && before.sessions.contains_key(l));
        assert(!is_open(before.sessions, id)) by {
            assert(before.registry.clients.contains_key(id) <==> is_open(before.sessions, id));
        }
        if j == k {
            assert(before.sessions[l] != SessionPhase::Open(id));
        } else if l == k {
            assert(before.sessions[j] != SessionPhase::Open(id));
        }
    }
}

proof fn lemma_departure_keeps_consistent(before: System, k: int, id: usize, after: System)
    requires
        consistent(before),
        before.sessions.contains_key(k),
        before.sessions[k] == SessionPhase::Open(id),
        after.sessions == before.sessions.insert(k, SessionPhase::Closed),
        after.registry == after_departure(before.registry, id),
    ensures
        consistent(after),
{
    assert(is_open(before.sessions, id));
    assert(before.registry.clients.contains_key(id));
    assert(live(before.sessions).contains(k));
    assert(live(after.sessions) =~= live(before.sessions).remove(k));
    law_remove_keeps_tally(before.registry.clients, before.registry.counts, id);
    assert forall|other: usize| #[trigger]
        after.registry.clients.contains_key(other) <==> is_open(after.sessions, other) by {
        assert(before.registry.clients.contains_key(other) <==> is_open(before.sessions, other));
        if is_open(before.sessions, other) && other != id {
            let j = choose|j: int| #[trigger]
                before.sessions.contains_key(j) && before.sessions[j] == SessionPhase::Open(other);
            assert(after.sessions.contains_key(j) && after.sessions[j] == SessionPhase::Open(
                other,
            ));
        }
        if is_open(after.sessions, other) {
            let j = choose|j: int| #[trigger]
                after.sessions.contains_key(j) && after.sessions[j] == SessionPhase::Open(other);
            assert(j != k);
            assert(before.sessions.contains_key(j) && before.sessions[j] == SessionPhase::Open(
                other,
            ));
            assert(before.sessions[k] != before.sessions[j]);
        }
    }
}

/// Whatever happens to a session keeps the registry consistent, as long as there is an id left for a
/// client that is taken in.
pub proof fn law_step_keeps_consistent(
    before: System,
    k: int,
    event: SessionEvent,
    after: System,
    action: SessionAction,
)
    requires
        consistent(before),
        step(before, k, event, after, action),
        action is Serve ==> before.registry.next_client_id < usize::MAX,
    ensures
        consistent(after),
{
    match (before.sessions[k], event) {
        (SessionPhase::Requested, SessionEvent::Requested) => {
            if before.registry.active >= MAX_CONNECTIONS {
                assert(live(after.sessions) =~= live(before.sessions));
                lemma_same_open(before, k, after);
            } else {
                lemma_admission_keeps_consistent(before, k, after);
            }
        },
        (SessionPhase::Admitted, SessionEvent::Upgraded) => {
            lemma_registration_keeps_consistent(before, k, after);
        },
        (SessionPhase::Open(id), SessionEvent::SocketError) => {
            lemma_departure_keeps_consistent(before, k, id, after);
        },
        (SessionPhase::Open(id), SessionEvent::Ended) => {
            lemma_departure_keeps_consistent(before, k, id, after);
        },
        _ => {
            assert(after.sessions =~= before.sessions);
            assert(after == before);
        },
    }
}

/// Broadcasts keep the registry consistent.
pub proof fn law_delivery_keeps_consistent(
    before: System,
    messages: Seq<Message>,
    after: System,
)
    requires
        consistent(before),
        delivery(before, messages, after),
    ensures
        consistent(after),
{
    assert forall|s: int| 0 <= s < SHARD_COUNT implies #[trigger] after.registry.counts[s]
        == clients_in_shard(after.registry.clients, s).len() by {
        assert(clients_in_shard(after.registry.clients, s) =~= clients_in_shard(
            before.registry.clients,
            s,
        ));
    }
}

/// What happens to one session leaves the clients of all others as they are.
pub proof fn law_step_leaves_other_clients(
    before: System,
    k: int,
    event: SessionEvent,
    after: System,
    action: SessionAction,
    id: usize,
)
    requires
        consistent(before),
        step(before, k, event, after, action),
        before.registry.clients.contains_key(id),
        before.sessions[k] != SessionPhase::Open(id),
    ensures
        after.registry.clients.contains_key(id),
        after.registry.clients[id] == before.registry.clients[id],
{
}

/// A request is refused for want of room if and only if as many connections are under way as are
/// admitted at one time.
pub proof fn law_refused_only_when_full(
    before: System,
    k: int,
    after: System,
    action: SessionAction,
)
    requires
        consistent(before),
        before.sessions.contains_key(k),
        before.sessions[k] is Requested,
        step(before, k, SessionEvent::Requested, after, action),
    ensures
        action is Reject <==> live(before.sessions).len() == MAX_CONNECTIONS,
{
}

/// There are never more clients than connections.
pub proof fn law_clients_are_connections(system: System)
    requires
        consistent(system),
    ensures
        system.registry.clients.dom().len() <= system.registry.active,
{
    let sessions = system.sessions;
    let clients = system.registry.clients;
    let open = sessions.dom().filter(|k: int| sessions[k] is Open);
    let id_of = |k: int| sessions[k]->Open_0;
    assert(open.map(id_of) =~= clients.dom()) by {
        assert forall|id: usize| #[trigger] clients.contains_key(id) implies open.map(
            id_of,
        ).contains(id) by {
            assert(is_open(sessions, id));
            let k = choose|k: int| #[trigger]
                sessions.contains_key(k) && sessions[k] == SessionPhase::Open(id);
            assert(open.contains(k) && id_of(k) == id);
        }
        assert forall|id: usize| #[trigger] open.map(id_of).contains(id) implies clients.contains_key(
            id,
        ) by {
            let k = choose|k: int| open.contains(k) && id_of(k) == id;
            assert(sessions.contains_key(k) && sessions[k] == SessionPhase::Open(id));
            assert(is_open(sessions, id));
        }
    }
    vstd::set_lib::lemma_map_size_bound(open, clients.dom(), id_of);
    vstd::set_lib::lemma_len_subset(open, live(sessions));
}

/// Once every connection was refused or has ended, nobody is registered and none is counted.
pub proof fn law_ends_empty(system: System)
    requires
        consistent(system),
        forall|k: int| #[trigger]
            system.sessions.contains_key(k) ==> system.sessions[k] is Requested
                || system.sessions[k] is Closed,
    ensures
        system.registry.active == 0,
        system.registry.clients =~= Map::empty(),
{
    assert(live(system.sessions) =~= Set::empty());
    assert forall|id: usize| !(#[trigger] system.registry.clients.contains_key(id)) by {
        if is_open(system.sessions, id) {
            let k = choose|k: int| #[trigger]
                system.sessions.contains_key(k) && system.sessions[k] == SessionPhase::Open(id);
        }
    }
}

/// One thing that happens.
pub ghost enum Move {
    /// A request arrives, as the session with this number.
    Arrival(int),
    /// Something happens to the session with this number, which answers with an action.
    Session(int, SessionEvent, SessionAction),
    /// Messages are broadcast, in this order.
    Delivery(Seq<Message>),
}

/// The move leads from the one state to the other.
pub open spec fn happens(before: System, one: Move, after: System) -> bool {
    match one {
        Move::Arrival(k) => arrival(before, k, after),
        Move::Session(k, event, action) => step(before, k, event, after, action),
        Move::Delivery(messages) => delivery(before, messages, after),
    }
}

/// `moves` lead through `states`, from the start.
pub open spec fn is_run(states: Seq<System>, moves: Seq<Move>) -> bool {
    &&& states.len() == moves.len() + 1
    &&& states[0] == start()
    &&& forall|i: int|
        0 <= i < moves.len() ==> happens(states[i], #[trigger] moves[i], states[i + 1])
}

/// The ids of the clients that were taken in over the given moves, in order.
pub open spec fn ids_given(moves: Seq<Move>) -> Seq<usize>
    decreases moves.len(),
{
    if moves.len() == 0 {
        Seq::empty()
    } else {
        let earlier = ids_given(moves.drop_last());
        match moves.last() {
            Move::Session(k, event, SessionAction::Serve { client_id, receiver }) => earlier.push(
                client_id,
            ),
            _ => earlier,
        }
    }
}

/// The messages that were broadcast over the given moves, in order.
pub open spec fn broadcast_in(moves: Seq<Move>) -> Seq<Message>
    decreases moves.len(),
{
    if moves.len() == 0 {
        Seq::empty()
    } else {
        let earlier = broadcast_in(moves.drop_last());
        match moves.last() {
            Move::Delivery(messages) => earlier + messages,
            _ => earlier,
        }
    }
}

/// Whatever happens, in whatever order, the clients that are taken in get the ids one, two, three and
/// so on: no id is given twice, and none is left out. Ids are machine integers, so this holds as long
/// as they last; and as long as they do, the registry is consistent.
pub proof fn law_ids_are_consecutive(states: Seq<System>, moves: Seq<Move>)
    requires
        is_run(states, moves),
        ids_given(moves).len() < usize::MAX,
    ensures
        ids_given(moves) == Seq::new(ids_given(moves).len(), |i: int| (i + 1) as usize),
        states.last().registry.next_client_id == ids_given(moves).len() + 1,
        consistent(states.last()),
    decreases moves.len(),
{
    if moves.len() == 0 {
        law_starts_consistent();
    } else {
        let before = states.drop_last();
        assert(is_run(before, moves.drop_last()));
        law_ids_are_consecutive(before, moves.drop_last());
        let last = moves.len() - 1;
        match moves.last() {
            Move::Arrival(k) => {
                law_arrival_keeps_consistent(states[last], k, states[last + 1]);
            },
            Move::Session(k, event, action) => {
                law_step_keeps_consistent(states[last], k, event, states[last + 1], action);
            },
            Move::Delivery(messages) => {
                law_delivery_keeps_consistent(states[last], messages, states[last + 1]);
            },
        }
    }
}

/// The beginning of a run is a run, and is consistent as long as ids last.
pub proof fn law_beginning_is_a_run(states: Seq<System>, moves: Seq<Move>, n: int)
    requires
        is_run(states, moves),
        ids_given(moves).len() < usize::MAX,
        0 <= n <= moves.len(),
    ensures
        is_run(states.take(n + 1), moves.take(n)),
        ids_given(moves.take(n)).len() <= ids_given(moves).len(),
        consistent(states[n]),
        states[n].registry.next_client_id == ids_given(moves.take(n)).len() + 1,
    decreases moves.len(),
{
    if n == moves.len() {
        assert(moves.take(n) =~= moves);
        law_ids_are_consecutive(states, moves);
    } else {
        let before = states.drop_last();
        let earlier = moves.drop_last();
        assert(is_run(before, earlier));
        law_beginning_is_a_run(before, earlier, n);
        assert(earlier.take(n) =~= moves.take(n));
    }
}

/// The next id never goes down.
proof fn lemma_ids_grow(states: Seq<System>, moves: Seq<Move>, i: int, j: int)
    requires
        is_run(states, moves),
        ids_given(moves).len() < usize::MAX,
        0 <= i <= j < states.len(),
    ensures
        states[i].registry.next_client_id <= states[j].registry.next_client_id,
    decreases j - i,
{
    if i < j {
        lemma_ids_grow(states, moves, i, j - 1);
        law_beginning_is_a_run(states, moves, j - 1);
        law_beginning_is_a_run(states, moves, j);
    }
}

/// A client that leaves does not come back: an id that was given out before, and under which nobody is
/// registered, is not used again.
pub proof fn law_ids_are_not_reused(
    states: Seq<System>,
    moves: Seq<Move>,
    i: int,
    j: int,
    id: usize,
)
    requires
        is_run(states, moves),
        ids_given(moves).len() < usize::MAX,
        0 <= i <= j < states.len(),
        id < states[i].registry.next_client_id,
        !states[i].registry.clients.contains_key(id),
    ensures
        id < states[j].registry.next_client_id,
        !states[j].registry.clients.contains_key(id),
    decreases j - i,
{
    if i < j {
        law_ids_are_not_reused(states, moves, i, j - 1, id);
        law_beginning_is_a_run(states, moves, j - 1);
        law_beginning_is_a_run(states, moves, j);
    }
}

/// The client `id` is registered in the states from the `i`th to the `j`th.
pub open spec fn stays(states: Seq<System>, i: int, j: int, id: usize) -> bool {
    forall|m: int| i <= m <= j ==> (#[trigger] states[m]).registry.clients.contains_key(id)
}

/// A client that is registered has been so ever since it was taken in.
pub proof fn law_client_stays_until_it_leaves(
    states: Seq<System>,
    moves: Seq<Move>,
    i: int,
    j: int,
    k: int,
    event: SessionEvent,
    client_id: usize,
    receiver: ClientReceiver,
)
    requires
        is_run(states, moves),
        ids_given(moves).len() < usize::MAX,
        0 <= i < j < states.len(),
        moves[i] == Move::Session(k, event, SessionAction::Serve { client_id, receiver }),
        states[j].registry.clients.contains_key(client_id),
    ensures
        stays(states, i + 1, j, client_id),
{
    law_beginning_is_a_run(states, moves, i);
    law_beginning_is_a_run(states, moves, i + 1);
    assert forall|m: int| i + 1 <= m <= j implies (
    #[trigger] states[m]).registry.clients.contains_key(client_id) by {
        if !states[m].registry.clients.contains_key(client_id) {
            lemma_ids_grow(states, moves, i + 1, m);
            law_ids_are_not_reused(states, moves, m, j, client_id);
        }
    }
}

/// As long as a client is registered, exactly what is broadcast is handed to its channel.
proof fn lemma_registered_client_gets_broadcasts(
    states: Seq<System>,
    moves: Seq<Move>,
    i: int,
    j: int,
    id: usize,
)
    requires
        is_run(states, moves),
        ids_given(moves).len() < usize::MAX,
        0 <= i <= j < states.len(),
        stays(states, i, j, id),
    ensures
        same_channel(states[i].registry.clients[id], states[j].registry.clients[id]),
        handed(states[j].registry.clients[id]) == handed(states[i].registry.clients[id])
            + broadcast_in(moves.subrange(i, j)),
    decreases j - i,
{
    let sent = moves.subrange(i, j);
    let first = states[i].registry.clients[id];
    if i < j {
        lemma_registered_client_gets_broadcasts(states, moves, i, j - 1, id);
        law_beginning_is_a_run(states, moves, j - 1);
        let before = states[j - 1];
        let after = states[j];
        assert(sent.drop_last() =~= moves.subrange(i, j - 1));
        match moves[j - 1] {
            Move::Delivery(messages) => {
                assert(handed(first) + broadcast_in(sent) =~= (handed(first) + broadcast_in(
                    moves.subrange(i, j - 1),
                )) + messages);
            },
            Move::Session(k, event, action) => {
                if before.sessions[k] != SessionPhase::Open(id) {
                    law_step_leaves_other_clients(before, k, event, after, action, id);
                }
            },
            Move::Arrival(k) => {},
        }
    }
}

/// A subscriber gets what is broadcast while it is connected, exactly once and in order, and nothing
/// else: whatever else happens, as long as its client is registered, the messages that have been
/// handed to the channel which feeds its receiver are those that were broadcast since it was taken
/// in; and no other client's channel feeds the receiver.
pub proof fn law_subscriber_gets_exactly_the_broadcasts(
    states: Seq<System>,
    moves: Seq<Move>,
    i: int,
    j: int,
    k: int,
    event: SessionEvent,
    client_id: usize,
    receiver: ClientReceiver,
)
    requires
        is_run(states, moves),
        ids_given(moves).len() < usize::MAX,
        0 <= i < j < states.len(),
        moves[i] == Move::Session(k, event, SessionAction::Serve { client_id, receiver }),
        states[j].registry.clients.contains_key(client_id),
    ensures
        feeds(states[j].registry.clients[client_id], receiver),
        handed(states[j].registry.clients[client_id]) == broadcast_in(moves.subrange(i + 1, j)),
        forall|other: usize| #[trigger]
            states[j].registry.clients.contains_key(other) && other != client_id ==> !feeds(
                states[j].registry.clients[other],
                receiver,
            ),
{
    law_beginning_is_a_run(states, moves, i);
    law_beginning_is_a_run(states, moves, j);
    law_client_stays_until_it_leaves(states, moves, i, j, k, event, client_id, receiver);
    lemma_registered_client_gets_broadcasts(states, moves, i + 1, j, client_id);
}

} // verus!
