//! What the operations of the library promise to those who call them: statements about single calls,
//! and about several calls together, that hold for all arguments.

use crate::auth::{
    check_token, is_entry, keys_in_force, keys_of_variable, law_listed_keys_are_the_entries,
    listed_keys, load_api_keys, new_token_cache, uses_development_keys, validate_token, ApiKeys,
};
use crate::batch::{
    BroadcastTask, Collected, Phase, TaskAction, TaskEvent, BATCH_SIZE, BATCH_TIMEOUT_MS,
    IDLE_PAUSE_US,
};
use crate::broadcaster::{
    is_dispatch, law_delivery_keeps_order, live_frames, Broadcaster, Dispatch, SendProgress, WaitOutcome,
    BROADCAST_CHANNEL_CAPACITY, MAX_PARALLEL_BROADCASTS, SEND_TIMEOUT_MS,
};
use crate::channel::{feeds, handed, ClientReceiver, ClientSender};
use crate::clients::{ClientStore, MAX_CONNECTIONS, SHARD_COUNT};
use crate::clock::{nanos, since, whole_millis};
use crate::errors::{handle_errors, ApiError, ErrorReply};
use crate::json::{escaped, law_plain_text_is_written_as_it_is, law_text_is_read_back, text_of};
use crate::message::{are_ages_of, is_age_of, ClientMessage, MESSAGE_TTL_MS};
use crate::payload::{binary, content};
use crate::publish::{
    message_at, payload_of, publish_message, publish_message_at, publish_response, written_json,
    PostData, PublishResponse,
};
use crate::queue::{attempts, capacity, drains_into, queued, TrySend};
use crate::registry::{Registry, StatsResponse};
use crate::server::{health, listen_port, HealthResponse, DEFAULT_PORT};
use crate::session::{Session, SessionAction, SessionEvent, SessionPhase};
use crate::text::{decimal, is_decimal, law_number_is_read_by_digits, law_number_starts_with_a_digit};
use crate::token_map::{cached, TokenCache};
use flume::Receiver;
use std::time::Instant;
use vstd::hash_map::StringHashMap;
use vstd::prelude::*;
use vstd::string::to_string_from_display_ensures;
use vstd::utf8::encode_utf8;
use warp::ws::Message;

verus! {

/// The limits of the service.
pub proof fn law_limits()
    ensures
        MAX_CONNECTIONS == 500_000,
        SHARD_COUNT == 128,
        BROADCAST_CHANNEL_CAPACITY == 50_000,
        MAX_PARALLEL_BROADCASTS == 8,
        SEND_TIMEOUT_MS == 50,
        MESSAGE_TTL_MS == 2000,
        BATCH_SIZE == 250,
        BATCH_TIMEOUT_MS == 10,
        IDLE_PAUSE_US == 500,
        DEFAULT_PORT == 3030,
{
}

// The broadcast task.

/// A new task collects, and has nothing.
pub proof fn law_new_task_collects(task: BroadcastTask)
    requires
        call_ensures(BroadcastTask::new, (), task),
    ensures
        task@.phase is Collecting,
        task@.buffer.len() == 0,
{
}

/// A message that comes while the task collects is put after those that came before. The task goes on
/// collecting as long as there are fewer than two hundred and fifty, and not any longer.
pub proof fn law_received_message_is_collected(
    task: &mut BroadcastTask,
    message: ClientMessage,
    action: TaskAction,
)
    requires
        call_ensures(
            BroadcastTask::broadcast_task,
            (task, TaskEvent::Received(message)),
            action,
        ),
        old(task)@.phase is Collecting,
    ensures
        final(task)@.buffer == old(task)@.buffer.push(message),
        old(task)@.buffer.len() < 249 ==> action is Receive && final(task)@.phase is Collecting,
        old(task)@.buffer.len() >= 249 ==> action is CountConnections && final(task)@.phase is Counting,
{
}

/// A batch that has messages when its time is up, or when no more can come, goes on to delivery as it
/// is: none is held back.
pub proof fn law_batch_with_messages_goes_on(
    task: &mut BroadcastTask,
    event: TaskEvent,
    action: TaskAction,
)
    requires
        call_ensures(BroadcastTask::broadcast_task, (task, event), action),
        event is TimedOut || event is Closed,
        old(task)@.phase is Collecting,
        old(task)@.buffer.len() > 0,
    ensures
        action is CountConnections,
        final(task)@.phase is Counting,
        final(task)@.buffer == old(task)@.buffer,
{
}

/// A batch without messages is not delivered: the task rests when its time is up, and starts over when
/// no more can come.
pub proof fn law_batch_without_messages_is_given_up(
    task: &mut BroadcastTask,
    event: TaskEvent,
    action: TaskAction,
)
    requires
        call_ensures(BroadcastTask::broadcast_task, (task, event), action),
        event is TimedOut || event is Closed,
        old(task)@.phase is Collecting,
        old(task)@.buffer.len() == 0,
    ensures
        event is TimedOut ==> action is Pause && final(task)@.phase is Pausing,
        event is Closed ==> action is StartBatch && final(task)@.phase is Collecting,
        final(task)@.buffer.len() == 0,
{
}

/// A batch that is counted is settled at once, whatever the number of connections: it is given out for
/// delivery to all of them as it is, or dropped if there are none.
pub proof fn law_counted_batch_is_settled(
    task: &mut BroadcastTask,
    count: usize,
    action: TaskAction,
)
    requires
        call_ensures(
            BroadcastTask::broadcast_task,
            (task, TaskEvent::Connections(count)),
            action,
        ),
        old(task)@.phase is Counting,
    ensures
        count > 0 ==> action == TaskAction::Deliver(count) && final(task)@.phase is Delivering
            && final(task)@.buffer == old(task)@.buffer,
        count == 0 ==> action is StartBatch && final(task)@.phase is Collecting
            && final(task)@.buffer.len() == 0,
{
}

/// A message that comes while the task collects is given out for delivery when the time is up and
/// anybody is connected, after all that came before it.
pub proof fn law_message_is_given_out_when_time_is_up(
    first: &mut BroadcastTask,
    message: ClientMessage,
    first_action: TaskAction,
    second: &mut BroadcastTask,
    second_action: TaskAction,
    third: &mut BroadcastTask,
    count: usize,
    third_action: TaskAction,
)
    requires
        call_ensures(
            BroadcastTask::broadcast_task,
            (first, TaskEvent::Received(message)),
            first_action,
        ),
        call_ensures(BroadcastTask::broadcast_task, (second, TaskEvent::TimedOut), second_action),
        call_ensures(
            BroadcastTask::broadcast_task,
            (third, TaskEvent::Connections(count)),
            third_action,
        ),
        old(first)@.phase is Collecting,
        final(first)@ == old(second)@,
        final(second)@ == old(third)@,
        count > 0,
    ensures
        third_action == TaskAction::Deliver(count),
        final(third)@.buffer == old(first)@.buffer.push(message),
{
}

/// After a delivery, and after a rest, the task starts over with nothing.
pub proof fn law_task_starts_over(task: &mut BroadcastTask, event: TaskEvent, action: TaskAction)
    requires
        call_ensures(BroadcastTask::broadcast_task, (task, event), action),
        (old(task)@.phase is Delivering && event is Delivered) || (old(task)@.phase is Pausing
            && event is Resumed),
    ensures
        action is StartBatch,
        final(task)@.phase is Collecting,
        final(task)@.buffer.len() == 0,
{
}

/// What the task does not wait for leaves it as it is.
pub proof fn law_task_ignores_strays(task: &mut BroadcastTask, event: TaskEvent, action: TaskAction)
    requires
        call_ensures(BroadcastTask::broadcast_task, (task, event), action),
        event is Received || event is Closed || event is TimedOut ==> old(task)@.phase !is Collecting,
        event is Resumed ==> old(task)@.phase !is Pausing,
        event is Connections ==> old(task)@.phase !is Counting,
        event is Delivered ==> old(task)@.phase !is Delivering,
    ensures
        action is Ignore,
        final(task)@ == old(task)@,
{
}

/// The batch that is handed out is the batch that was collected.
pub proof fn law_batch_is_what_was_collected<'a>(task: &'a BroadcastTask, batch: &'a [ClientMessage])
    requires
        call_ensures(BroadcastTask::batch, (task,), batch),
    ensures
        batch@ == task@.buffer,
{
}

/// Collecting takes a message in after what is in the buffer, counts it, and goes on as long as fewer
/// have been counted than are wanted; without a message, it ends with what was counted.
pub proof fn law_collecting_counts_new_messages(
    buffer: &mut Vec<ClientMessage>,
    count: usize,
    received: Option<ClientMessage>,
    batch_size: usize,
    collected: Collected,
)
    requires
        call_ensures(
            BroadcastTask::collect_batch,
            (buffer, count, received, batch_size),
            collected,
        ),
        count < batch_size,
    ensures
        received matches Some(message) ==> final(buffer)@ == old(buffer)@.push(message)
            && collected == if count + 1 < batch_size {
            Collected::More((count + 1) as usize)
        } else {
            Collected::Done((count + 1) as usize)
        },
        received is None ==> final(buffer)@ == old(buffer)@ && collected == Collected::Done(count),
{
}

/// A batch takes more if and only if fewer have been counted than are wanted.
pub proof fn law_batch_takes_more_until_full(count: usize, batch_size: usize, collected: Collected)
    requires
        call_ensures(BroadcastTask::batch_progress, (count, batch_size), collected),
    ensures
        count < batch_size ==> collected == Collected::More(count),
        count >= batch_size ==> collected == Collected::Done(count),
{
}

// The sessions.

/// A connection is at first only asked for.
pub proof fn law_new_session_is_requested(session: Session)
    requires
        call_ensures(Session::new, (), session),
    ensures
        session.phase is Requested,
{
}

/// A request is admitted, and counted, if and only if fewer than five hundred thousand connections are
/// under way. Nobody is registered or touched by it.
pub proof fn law_request_is_admitted_while_there_is_room(
    session: &mut Session,
    registry: &mut Registry,
    action: SessionAction,
)
    requires
        call_ensures(Session::handle_ws, (session, SessionEvent::Requested, registry), action),
        old(registry).wf(),
        old(session).phase is Requested,
    ensures
        old(registry)@.active < 500_000 ==> action is Upgrade && final(session).phase is Admitted
            && final(registry)@.active == old(registry)@.active + 1,
        old(registry)@.active >= 500_000 ==> action == SessionAction::Reject(
            ApiError::TooManyConnections,
        ) && final(session).phase is Closed && final(registry)@.active == old(registry)@.active,
        final(registry)@.clients == old(registry)@.clients,
        final(registry)@.counts == old(registry)@.counts,
        final(registry)@.next_client_id == old(registry)@.next_client_id,
{
}

/// An admitted connection that is upgraded is registered under the next id, with a new channel that
/// leads to the receiver which the session is given and which no other client's channel leads to, and
/// counted in its shard. Everybody else stays as they are.
pub proof fn law_upgraded_connection_is_registered(
    session: &mut Session,
    registry: &mut Registry,
    action: SessionAction,
)
    requires
        call_ensures(Session::handle_ws, (session, SessionEvent::Upgraded, registry), action),
        old(registry).wf(),
        old(session).phase is Admitted,
    ensures
        ({
            let id = old(registry)@.next_client_id;
            &&& action matches SessionAction::Serve { client_id, receiver }
            &&& client_id == id
            &&& final(session).phase == SessionPhase::Open(id)
            &&& final(registry)@.clients.contains_key(id)
            &&& feeds(final(registry)@.clients[id], receiver)
            &&& handed(final(registry)@.clients[id]) == Seq::<Message>::empty()
            &&& forall|other: usize| #[trigger]
                old(registry)@.clients.contains_key(other) && other != id ==> !feeds(
                    final(registry)@.clients[other],
                    receiver,
                )
            &&& forall|other: usize|
                #![trigger final(registry)@.clients.contains_key(other)]
                #![trigger final(registry)@.clients[other]]
                other != id ==> final(registry)@.clients.contains_key(other)
                    == old(registry)@.clients.contains_key(other) && final(registry)@.clients[other]
                    == old(registry)@.clients[other]
            &&& final(registry)@.active == old(registry)@.active
            &&& final(registry)@.next_client_id == id.wrapping_add(1)
            &&& forall|s: int|
                0 <= s < 128 ==> #[trigger] final(registry)@.counts[s] == if s == id as int % 128 {
                    old(registry)@.counts[s].wrapping_add(1)
                } else {
                    old(registry)@.counts[s]
                }
        }),
{
    old(registry).lemma_counts();
}

/// A frame from a client has no effect: the session stays open, whatever the client and whoever else
/// is connected, and nobody's registration changes and nobody is handed anything.
pub proof fn law_frame_has_no_effect(
    session: &mut Session,
    registry: &mut Registry,
    action: SessionAction,
)
    requires
        call_ensures(Session::handle_ws, (session, SessionEvent::Frame, registry), action),
        old(registry).wf(),
        old(session).phase is Open,
    ensures
        action is Listen,
        final(session).phase == old(session).phase,
        final(registry)@ == old(registry)@,
{
}

/// When the socket of an open session ends or fails, the session is closed, its client is taken out,
/// and one connection less is counted. Everybody else stays as they are.
pub proof fn law_session_ends_with_its_socket(
    session: &mut Session,
    event: SessionEvent,
    registry: &mut Registry,
    action: SessionAction,
    id: usize,
)
    requires
        call_ensures(Session::handle_ws, (session, event, registry), action),
        old(registry).wf(),
        old(session).phase == SessionPhase::Open(id),
        event is SocketError || event is Ended,
    ensures
        final(session).phase is Closed,
        final(registry)@.active == old(registry)@.active.wrapping_sub(1),
        action == (SessionAction::Finish { remaining: final(registry)@.active }),
        !final(registry)@.clients.contains_key(id),
        forall|other: usize|
            #![trigger final(registry)@.clients.contains_key(other)]
            #![trigger final(registry)@.clients[other]]
            other != id ==> final(registry)@.clients.contains_key(other)
                == old(registry)@.clients.contains_key(other) && final(registry)@.clients[other]
                == old(registry)@.clients[other],
        final(registry)@.next_client_id == old(registry)@.next_client_id,
        forall|s: int|
            0 <= s < 128 ==> #[trigger] final(registry)@.counts[s] == if s == id as int % 128
                && old(registry)@.clients.contains_key(id) {
                old(registry)@.counts[s].wrapping_sub(1)
            } else {
                old(registry)@.counts[s]
            },
{
    old(registry).lemma_counts();
}

/// What a session does not wait for leaves it and the registry as they are.
pub proof fn law_session_ignores_strays(
    session: &mut Session,
    event: SessionEvent,
    registry: &mut Registry,
    action: SessionAction,
)
    requires
        call_ensures(Session::handle_ws, (session, event, registry), action),
        old(registry).wf(),
        event is Requested ==> old(session).phase !is Requested,
        event is Upgraded ==> old(session).phase !is Admitted,
        event is Frame || event is SocketError || event is Ended ==> old(session).phase !is Open,
    ensures
        action is Ignore,
        final(session).phase == old(session).phase,
        final(registry)@ == old(registry)@,
{
}

/// A client leaves the registry only when its own socket ends or fails.
pub proof fn law_client_leaves_only_with_its_socket(
    session: &mut Session,
    event: SessionEvent,
    registry: &mut Registry,
    action: SessionAction,
    id: usize,
)
    requires
        call_ensures(Session::handle_ws, (session, event, registry), action),
        old(registry).wf(),
        old(registry)@.clients.contains_key(id),
        !final(registry)@.clients.contains_key(id),
    ensures
        old(session).phase == SessionPhase::Open(id),
        event is SocketError || event is Ended,
{
}

/// Whatever happens to a session, nobody is handed a message because of it.
pub proof fn law_sessions_send_nothing(
    session: &mut Session,
    event: SessionEvent,
    registry: &mut Registry,
    action: SessionAction,
    id: usize,
)
    requires
        call_ensures(Session::handle_ws, (session, event, registry), action),
        old(registry).wf(),
        final(registry)@.clients.contains_key(id),
    ensures
        final(registry)@.clients[id] == old(registry)@.clients[id] || handed(
            final(registry)@.clients[id],
        ) == Seq::<Message>::empty(),
{
}

// The registry.

/// A new registry knows nobody, counts nothing, and gives out ids from one on.
pub proof fn law_new_registry_is_empty(registry: Registry)
    requires
        call_ensures(Registry::new, (), registry),
    ensures
        registry.wf(),
        forall|id: usize| !(#[trigger] registry@.clients.contains_key(id)),
        registry@.active == 0,
        registry@.next_client_id == 1,
        forall|s: int| 0 <= s < 128 ==> #[trigger] registry@.counts[s] == 0,
{
}

/// The registry tells how many connections are under way, and how many at most may be.
pub proof fn law_stats_are_true(registry: &Registry, active: usize, stats: StatsResponse)
    requires
        call_ensures(Registry::active, (registry,), active),
        call_ensures(Registry::stats, (registry,), stats),
    ensures
        active == registry@.active,
        stats.active == registry@.active,
        stats.max == 500_000,
{
}

/// A connection is accepted, and counted, if and only if there is room; nothing else changes.
pub proof fn law_connections_are_limited(registry: &mut Registry, verdict: Result<(), ApiError>)
    requires
        call_ensures(Registry::accept, (registry,), verdict),
        old(registry).wf(),
    ensures
        old(registry)@.active < 500_000 ==> verdict is Ok && final(registry)@.active
            == old(registry)@.active + 1,
        old(registry)@.active >= 500_000 ==> verdict == Err::<(), ApiError>(
            ApiError::TooManyConnections,
        ) && final(registry)@.active == old(registry)@.active,
        final(registry)@.clients == old(registry)@.clients,
        final(registry)@.counts == old(registry)@.counts,
        final(registry)@.next_client_id == old(registry)@.next_client_id,
{
}

/// A client is registered under the next id, with a new channel that leads to the receiver which is
/// given out; nobody else is touched.
pub proof fn law_registration_adds_one_client(
    registry: &mut Registry,
    registered: (usize, ClientReceiver),
    other: usize,
)
    requires
        call_ensures(Registry::register, (registry,), registered),
        old(registry).wf(),
    ensures
        registered.0 == old(registry)@.next_client_id,
        final(registry)@.clients.contains_key(registered.0),
        feeds(final(registry)@.clients[registered.0], registered.1),
        handed(final(registry)@.clients[registered.0]) == Seq::<Message>::empty(),
        other != registered.0 ==> final(registry)@.clients.contains_key(other)
            == old(registry)@.clients.contains_key(other) && final(registry)@.clients[other]
            == old(registry)@.clients[other],
        final(registry)@.next_client_id == registered.0.wrapping_add(1),
        final(registry)@.active == old(registry)@.active,
{
}

/// A client that leaves is taken out, and one connection less is counted; nobody else is touched.
pub proof fn law_departure_removes_one_client(
    registry: &mut Registry,
    client_id: usize,
    remaining: usize,
    other: usize,
)
    requires
        call_ensures(Registry::unregister, (registry, client_id), remaining),
        old(registry).wf(),
    ensures
        !final(registry)@.clients.contains_key(client_id),
        remaining == final(registry)@.active,
        final(registry)@.active == old(registry)@.active.wrapping_sub(1),
        other != client_id ==> final(registry)@.clients.contains_key(other)
            == old(registry)@.clients.contains_key(other) && final(registry)@.clients[other]
            == old(registry)@.clients[other],
        final(registry)@.next_client_id == old(registry)@.next_client_id,
{
}

/// The clients that the registry lends are its clients, with its counts.
pub proof fn law_registry_lends_its_clients<'a>(registry: &'a Registry, clients: &'a ClientStore)
    requires
        call_ensures(Registry::clients, (registry,), clients),
    ensures
        clients@ == registry@.clients,
        clients.shard_counts() == registry@.counts,
{
}

// The client store.

/// A new store has no clients, and all its counts are zero.
pub proof fn law_new_store_is_empty(store: ClientStore)
    requires
        call_ensures(ClientStore::new, (), store),
    ensures
        store.wf(),
        forall|id: usize| !(#[trigger] store@.contains_key(id)),
        forall|s: int| 0 <= s < 128 ==> #[trigger] store.shard_counts()[s] == 0,
{
}

/// A client is registered with its sender, in place of the one under its id; nobody else is touched;
/// the count of its shard, and no other, goes up by one.
pub proof fn law_insert_adds_one_client(
    store: &mut ClientStore,
    client_id: usize,
    sender: ClientSender,
    other: usize,
    s: int,
)
    requires
        call_ensures(ClientStore::insert, (store, client_id, sender), ()),
        old(store).wf(),
        0 <= s < 128,
    ensures
        final(store)@.contains_key(client_id),
        final(store)@[client_id] == sender,
        other != client_id ==> final(store)@.contains_key(other) == old(store)@.contains_key(other)
            && final(store)@[other] == old(store)@[other],
        final(store).shard_counts()[s] == if s == client_id as int % 128 {
            old(store).shard_counts()[s].wrapping_add(1)
        } else {
            old(store).shard_counts()[s]
        },
{
    old(store).lemma_shard_counts();
}

/// A client that is removed is not registered any more, and it is told whether it was; nobody else is
/// touched; the count of its shard, and no other, goes down by one if it was registered.
pub proof fn law_remove_takes_one_client_out(
    store: &mut ClientStore,
    client_id: &usize,
    removed: bool,
    other: usize,
    s: int,
)
    requires
        call_ensures(ClientStore::remove, (store, client_id), removed),
        old(store).wf(),
        0 <= s < 128,
    ensures
        removed == old(store)@.contains_key(*client_id),
        !final(store)@.contains_key(*client_id),
        other != client_id ==> final(store)@.contains_key(other) == old(store)@.contains_key(other)
            && final(store)@[other] == old(store)@[other],
        final(store).shard_counts()[s] == if removed && s == *client_id as int % 128 {
            old(store).shard_counts()[s].wrapping_sub(1)
        } else {
            old(store).shard_counts()[s]
        },
{
    old(store).lemma_shard_counts();
}

/// The count that is given for a shard is the count of the shard.
pub proof fn law_shard_count_is_true(store: &ClientStore, shard_idx: usize, count: usize)
    requires
        call_ensures(ClientStore::shard_count, (store, shard_idx), count),
        store.wf(),
        shard_idx < 128,
    ensures
        count == store.shard_counts()[shard_idx as int],
{
}

/// A broadcast hands the message to every client exactly once, after what it was handed before, on the
/// channel that it has, whatever its id and whatever the number of connections. Nobody comes, goes, or
/// is counted otherwise.
pub proof fn law_broadcast_serves_every_client(
    store: &mut ClientStore,
    msg: Message,
    conn_count: usize,
    id: usize,
    receiver: ClientReceiver,
)
    requires
        call_ensures(ClientStore::broadcast, (store, msg, conn_count), ()),
        old(store).wf(),
    ensures
        final(store).wf(),
        final(store)@.contains_key(id) == old(store)@.contains_key(id),
        old(store)@.contains_key(id) ==> handed(final(store)@[id]) == handed(old(store)@[id]).push(
            msg,
        ) && feeds(final(store)@[id], receiver) == feeds(old(store)@[id], receiver),
        final(store).shard_counts() == old(store).shard_counts(),
{
    assert(final(store)@.contains_key(id) == final(store)@.dom().contains(id));
}

/// The same holds of the broadcast for few connections.
pub proof fn law_small_broadcast_serves_every_client(
    store: &mut ClientStore,
    msg: Message,
    id: usize,
    receiver: ClientReceiver,
)
    requires
        call_ensures(ClientStore::broadcast_small, (store, msg), ()),
        old(store).wf(),
    ensures
        final(store).wf(),
        final(store)@.contains_key(id) == old(store)@.contains_key(id),
        old(store)@.contains_key(id) ==> handed(final(store)@[id]) == handed(old(store)@[id]).push(
            msg,
        ) && feeds(final(store)@[id], receiver) == feeds(old(store)@[id], receiver),
        final(store).shard_counts() == old(store).shard_counts(),
{
    assert(final(store)@.contains_key(id) == final(store)@.dom().contains(id));
}

/// The same holds of the broadcast for many connections.
pub proof fn law_large_broadcast_serves_every_client(
    store: &mut ClientStore,
    msg: Message,
    id: usize,
    receiver: ClientReceiver,
)
    requires
        call_ensures(ClientStore::broadcast_large, (store, msg), ()),
        old(store).wf(),
    ensures
        final(store).wf(),
        final(store)@.contains_key(id) == old(store)@.contains_key(id),
        old(store)@.contains_key(id) ==> handed(final(store)@[id]) == handed(old(store)@[id]).push(
            msg,
        ) && feeds(final(store)@[id], receiver) == feeds(old(store)@[id], receiver),
        final(store).shard_counts() == old(store).shard_counts(),
{
    assert(final(store)@.contains_key(id) == final(store)@.dom().contains(id));
}

/// A new channel leads to its receiver, nothing was sent through it, and no client's channel leads to
/// a receiver of it.
pub proof fn law_new_channel_is_nobodys(
    store: &ClientStore,
    pair: (ClientSender, ClientReceiver),
    id: usize,
)
    requires
        call_ensures(ClientStore::open_channel, (store,), pair),
        store.wf(),
    ensures
        feeds(pair.0, pair.1),
        handed(pair.0) == Seq::<Message>::empty(),
        store@.contains_key(id) ==> !feeds(store@[id], pair.1),
{
}

// Delivery.

/// A message expires once it is older than two thousand whole milliseconds.
pub proof fn law_message_expires_after_two_seconds(age_ms: u128, expired: bool)
    requires
        call_ensures(ClientMessage::is_expired_at_age, (age_ms,), expired),
    ensures
        expired <==> age_ms > 2000,
{
}

/// Whether a message has expired is judged by the time from its timestamp to a reading of the clock.
pub proof fn law_expiry_goes_by_the_timestamp(message: &ClientMessage, expired: bool)
    requires
        call_ensures(ClientMessage::is_expired, (message,), expired),
    ensures
        exists|now: Instant|
            expired <==> nanos(#[trigger] since(now, message.timestamp)) / 1_000_000 > 2000,
{
    let now = choose|now: Instant|
        expired == (whole_millis(#[trigger] since(now, message.timestamp))
            > MESSAGE_TTL_MS);
    assert(expired <==> nanos(since(now, message.timestamp)) / 1_000_000 > 2000);
}

/// A copy of a message is the message.
pub proof fn law_message_is_copied_whole(message: &ClientMessage, copy: ClientMessage)
    requires
        call_ensures(ClientMessage::clone, (message,), copy),
    ensures
        copy.data == message.data,
        copy.timestamp == message.timestamp,
{
}

/// With up to a thousand connections there is one broadcast at a time, with up to ten thousand there
/// are four, and with more there are eight.
pub proof fn law_parallelism_by_connections(conn_count: usize, count: usize)
    requires
        call_ensures(Broadcaster::parallel_count, (conn_count,), count),
    ensures
        count == 1 <==> conn_count <= 1_000,
        count == 4 <==> 1_000 < conn_count <= 10_000,
        count == 8 <==> conn_count > 10_000,
{
}

/// Of a single message, the binary message with its payload is deliverable, unless it is older than
/// two thousand milliseconds; of none, nothing is.
pub proof fn law_single_message_is_deliverable_while_young(
    messages: &[ClientMessage],
    ages: &[u128],
    frames: Vec<Message>,
)
    requires
        call_ensures(Broadcaster::valid_messages, (messages, ages), frames),
        messages@.len() == ages@.len(),
        messages@.len() <= 1,
    ensures
        frames@ == if messages@.len() == 1 && ages@[0] <= 2000 {
            seq![binary(content(*messages@[0].data))]
        } else {
            Seq::<Message>::empty()
        },
{
    reveal_with_fuel(live_frames, 2);
}

/// What is deliverable of two runs of messages together is what is deliverable of the first, and then
/// what is deliverable of the second.
pub proof fn law_deliverable_messages_keep_their_order(
    first: &[ClientMessage],
    first_ages: &[u128],
    first_frames: Vec<Message>,
    second: &[ClientMessage],
    second_ages: &[u128],
    second_frames: Vec<Message>,
    both: &[ClientMessage],
    both_ages: &[u128],
    both_frames: Vec<Message>,
)
    requires
        first@.len() == first_ages@.len(),
        second@.len() == second_ages@.len(),
        both@ == first@ + second@,
        both_ages@ == first_ages@ + second_ages@,
        call_ensures(Broadcaster::valid_messages, (first, first_ages), first_frames),
        call_ensures(Broadcaster::valid_messages, (second, second_ages), second_frames),
        call_ensures(Broadcaster::valid_messages, (both, both_ages), both_frames),
    ensures
        both_frames@ == first_frames@ + second_frames@,
{
    law_delivery_keeps_order(first@, first_ages@, second@, second_ages@);
}

/// With up to a thousand connections, every client is handed all deliverable messages of a batch, in
/// order, each once, and nothing else; with more, all of them are left for a parallel broadcast, and
/// nobody is handed anything yet. Where nothing is deliverable, nothing happens. Nobody comes or goes.
pub proof fn law_batch_is_delivered(
    messages: &[ClientMessage],
    ages: &[u128],
    frames: Vec<Message>,
    clients: &mut ClientStore,
    conn_count: usize,
    dispatch: Dispatch,
    id: usize,
    receiver: ClientReceiver,
)
    requires
        call_ensures(
            Broadcaster::process_aged_messages,
            (messages, ages, clients, conn_count),
            dispatch,
        ),
        call_ensures(Broadcaster::valid_messages, (messages, ages), frames),
        messages@.len() == ages@.len(),
        old(clients).wf(),
    ensures
        final(clients).wf(),
        final(clients)@.contains_key(id) == old(clients)@.contains_key(id),
        final(clients).shard_counts() == old(clients).shard_counts(),
        dispatch is Idle <==> frames@.len() == 0,
        dispatch is Sent <==> frames@.len() > 0 && conn_count <= 1_000,
        dispatch matches Dispatch::Parallel { limit, messages: due } ==> due@ == frames@ && limit
            == (if conn_count > 10_000 {
            8int
        } else {
            4int
        }),
        old(clients)@.contains_key(id) ==> feeds(final(clients)@[id], receiver) == feeds(
            old(clients)@[id],
            receiver,
        ),
        old(clients)@.contains_key(id) ==> handed(final(clients)@[id]) == if conn_count <= 1_000 {
            handed(old(clients)@[id]) + frames@
        } else {
            handed(old(clients)@[id])
        },
{
    assert(final(clients)@.contains_key(id) == final(clients)@.dom().contains(id));
    if frames@.len() == 0 {
        assert(handed(old(clients)@[id]) + frames@ =~= handed(old(clients)@[id]));
    }
}

/// `age` is the time in whole milliseconds from the message's timestamp to a reading of the clock.
pub open spec fn is_judged_by_its_timestamp(message: ClientMessage, age: u128) -> bool {
    exists|now: Instant| age == nanos(#[trigger] since(now, message.timestamp)) / 1_000_000
}

/// What is due is handed to every client with up to a thousand connections, and left for a parallel
/// broadcast with more. Nobody comes or goes, and everybody keeps their channel.
pub open spec fn is_handed_on(
    due: Seq<Message>,
    conn_count: usize,
    dispatch: Dispatch,
    before: Map<usize, ClientSender>,
    after: Map<usize, ClientSender>,
) -> bool {
    &&& dispatch is Idle <==> due.len() == 0
    &&& dispatch is Sent <==> due.len() > 0 && conn_count <= 1_000
    &&& dispatch matches Dispatch::Parallel { limit, messages } ==> messages@ == due && limit == (
    if conn_count > 10_000 {
        8int
    } else {
        4int
    })
    &&& after.dom() == before.dom()
    &&& forall|id: usize, receiver: ClientReceiver|
        #![trigger feeds(after[id], receiver)]
        before.contains_key(id) ==> feeds(after[id], receiver) == feeds(before[id], receiver)
    &&& forall|id: usize| #[trigger]
        before.contains_key(id) ==> handed(after[id])
            == if conn_count <= 1_000 {
            handed(before[id]) + due
        } else {
            handed(before[id])
        }
}

/// A batch is delivered by the ages of its messages, each of which is the time from the message's
/// timestamp to a reading of the clock.
pub proof fn law_batch_is_judged_by_its_timestamps(
    messages: &[ClientMessage],
    clients: &mut ClientStore,
    conn_count: usize,
    dispatch: Dispatch,
)
    requires
        call_ensures(
            Broadcaster::process_messages,
            (messages, clients, conn_count),
            dispatch,
        ),
        old(clients).wf(),
    ensures
        final(clients).wf(),
        final(clients).shard_counts() == old(clients).shard_counts(),
        exists|ages: Seq<u128>|
            #![trigger live_frames(messages@, ages)]
            ages.len() == messages@.len() && (forall|k: int|
                0 <= k < ages.len() ==> is_judged_by_its_timestamp(
                    messages@[k],
                    #[trigger] ages[k],
                )) && is_handed_on(
                live_frames(messages@, ages),
                conn_count,
                dispatch,
                old(clients)@,
                final(clients)@,
            ),
{
    let before = old(clients)@;
    let after = final(clients)@;
    let ages = choose|ages: Seq<u128>|
        are_ages_of(ages, messages@) && is_dispatch(
            before,
            #[trigger] live_frames(messages@, ages),
            conn_count,
            dispatch,
            after,
        );
    let due = live_frames(messages@, ages);
    assert forall|k: int| 0 <= k < ages.len() implies is_judged_by_its_timestamp(
        messages@[k],
        #[trigger] ages[k],
    ) by {
        assert(is_age_of(ages[k], messages@[k]));
        let now = choose|now: Instant|
            ages[k] == whole_millis(#[trigger] since(now, messages@[k].timestamp));
        assert(ages[k] == nanos(since(now, messages@[k].timestamp)) / 1_000_000);
    }
    assert forall|id: usize| #[trigger] before.contains_key(id) implies handed(after[id]) == (if conn_count <= 1_000 {
        handed(before[id]) + due
    } else {
        handed(before[id])
    }) by {
        if due.len() == 0 {
            assert(handed(before[id]) + due =~= handed(before[id]));
        }
    }
}

// Publishing.

/// The queue of a new broadcaster is empty, holds fifty thousand messages at most, and leads to the
/// end that is given out.
pub proof fn law_new_broadcaster_has_an_empty_queue(made: (Broadcaster, Receiver<ClientMessage>))
    requires
        call_ensures(Broadcaster::new, (), made),
    ensures
        attempts(made.0.tx).len() == 0,
        queued(made.0.tx).len() == 0,
        capacity(made.0.tx) == Some(50_000usize),
        drains_into(made.0.tx, made.1),
{
}

/// Every message that is sent is handed to the queue, once and as it is. The publisher is done if the
/// queue took it or nobody receives any more, and is told which; otherwise the message waits.
pub proof fn law_sent_message_is_handed_to_the_queue(
    broadcaster: &mut Broadcaster,
    message: ClientMessage,
    progress: SendProgress,
    receiver: Receiver<ClientMessage>,
)
    requires
        call_ensures(Broadcaster::send, (broadcaster, message), progress),
    ensures
        ({
            let outcome = attempts(final(broadcaster).tx).last().1;
            &&& attempts(final(broadcaster).tx) == attempts(old(broadcaster).tx).push(
                (message, outcome),
            )
            &&& progress == SendProgress::Finished(true) <==> outcome is Sent
            &&& progress == SendProgress::Waiting(message) <==> outcome is Full
            &&& progress == SendProgress::Finished(false) <==> outcome is Disconnected
            &&& queued(final(broadcaster).tx) == if outcome is Sent {
                queued(old(broadcaster).tx).push(message)
            } else {
                queued(old(broadcaster).tx)
            }
        }),
        capacity(final(broadcaster).tx) == capacity(old(broadcaster).tx),
        drains_into(final(broadcaster).tx, receiver) == drains_into(old(broadcaster).tx, receiver),
{
}

/// What follows from an attempt to put a message into the queue: it is settled unless the queue was
/// full, and then it is the message that came back which waits.
pub proof fn law_attempt_is_settled_unless_full(outcome: TrySend, progress: SendProgress)
    requires
        call_ensures(Broadcaster::after_try_send, (outcome,), progress),
    ensures
        outcome is Sent ==> progress == SendProgress::Finished(true),
        outcome is Disconnected ==> progress == SendProgress::Finished(false),
        outcome matches TrySend::Full(back) ==> progress == SendProgress::Waiting(back),
{
}

/// A wait is a success if and only if the queue took the message.
pub proof fn law_wait_succeeds_if_the_queue_took_it(outcome: WaitOutcome, taken: bool)
    requires
        call_ensures(Broadcaster::after_wait, (outcome,), taken),
    ensures
        taken <==> outcome == WaitOutcome::Sent,
{
}

/// `payload` is the JSON object whose one member `message` is `text`: a reader gets the whole text back
/// from it; the text stands in it with nothing changed but what has to be escaped; and a text without
/// quotes, backslashes and control characters stands in it letter for letter.
pub open spec fn carries(payload: Seq<u8>, text: Seq<char>) -> bool {
    &&& text_of("message"@, payload) == text
    &&& payload == encode_utf8("{\"message\":\""@ + escaped(text) + "\"}"@)
    &&& (forall|i: int|
        0 <= i < text.len() ==> #[trigger] text[i] != '"' && text[i] != '\\' && text[i] as int
            >= 0x20) ==> payload == encode_utf8("{\"message\":\""@ + text + "\"}"@)
}

proof fn lemma_payload_carries(text: Seq<char>)
    ensures
        carries(payload_of(text), text),
{
    law_text_is_read_back("message"@, text);
    reveal_strlit("message");
    law_plain_text_is_written_as_it_is("message"@);
    reveal_strlit("{\"message\":\"");
    reveal_strlit("{\"");
    reveal_strlit("\":\"");
    assert("{\""@ + "message"@ + "\":\""@ =~= "{\"message\":\""@);
    if forall|i: int|
        0 <= i < text.len() ==> #[trigger] text[i] != '"' && text[i] != '\\' && text[i] as int
            >= 0x20 {
        law_plain_text_is_written_as_it_is(text);
    }
}

/// The message for a posted text carries the whole text, and the instant of its publication.
pub proof fn law_message_carries_the_posted_text(
    data: PostData,
    now: Instant,
    message: Result<ClientMessage, ApiError>,
)
    requires
        call_ensures(message_at, (data, now), message),
    ensures
        message is Ok,
        carries(content(*message->Ok_0.data), data.message@),
        message->Ok_0.timestamp == now,
{
    lemma_payload_carries(data.message@);
}

/// Publishing a text at an instant hands exactly one message to the queue, which carries the whole
/// text and the instant.
pub proof fn law_posted_text_is_handed_to_the_queue_at(
    data: PostData,
    now: Instant,
    broadcaster: &mut Broadcaster,
    progress: Result<SendProgress, ApiError>,
)
    requires
        call_ensures(publish_message_at, (data, now, broadcaster), progress),
    ensures
        progress is Ok,
        ({
            let (message, outcome) = attempts(final(broadcaster).tx).last();
            &&& attempts(final(broadcaster).tx) == attempts(old(broadcaster).tx).push(
                (message, outcome),
            )
            &&& carries(content(*message.data), data.message@)
            &&& message.timestamp == now
            &&& progress->Ok_0 == SendProgress::Finished(true) <==> outcome is Sent
            &&& progress->Ok_0 == SendProgress::Waiting(message) <==> outcome is Full
            &&& progress->Ok_0 == SendProgress::Finished(false) <==> outcome is Disconnected
        }),
{
    lemma_payload_carries(data.message@);
}

/// Publishing a text hands exactly one message to the queue, which carries the whole text.
pub proof fn law_posted_text_is_handed_to_the_queue(
    data: PostData,
    broadcaster: &mut Broadcaster,
    progress: Result<SendProgress, ApiError>,
)
    requires
        call_ensures(publish_message, (data, broadcaster), progress),
    ensures
        progress is Ok,
        ({
            let (message, outcome) = attempts(final(broadcaster).tx).last();
            &&& attempts(final(broadcaster).tx) == attempts(old(broadcaster).tx).push(
                (message, outcome),
            )
            &&& carries(content(*message.data), data.message@)
            &&& progress->Ok_0 == SendProgress::Finished(true) <==> outcome is Sent
            &&& progress->Ok_0 == SendProgress::Waiting(message) <==> outcome is Full
            &&& progress->Ok_0 == SendProgress::Finished(false) <==> outcome is Disconnected
        }),
{
    lemma_payload_carries(data.message@);
}

/// What was written is kept as it is, and a failure to write becomes a failure of the service, in the
/// words of the failure.
pub proof fn law_written_json_is_kept(
    written: Result<Vec<u8>, serde_json::Error>,
    bytes: Result<Vec<u8>, ApiError>,
)
    requires
        call_ensures(written_json, (written,), bytes),
    ensures
        written is Ok <==> bytes is Ok,
        written is Ok ==> bytes->Ok_0@ == written->Ok_0@,
        bytes is Err ==> bytes->Err_0 is Internal && to_string_from_display_ensures(
            &written->Err_0,
            bytes->Err_0->Internal_0,
        ),
{
}

/// A publisher is told of success whether the queue took the message or not.
pub proof fn law_publisher_is_told_of_success(taken: bool, response: PublishResponse)
    requires
        call_ensures(publish_response, (taken,), response),
    ensures
        response.success,
{
}

// Keys and tokens.

/// Every entry of the list that a variable names is a key to publish with, and every such key is an
/// entry; where there is no entry, there is no key in production, and outside it there are the two
/// development keys.
pub proof fn law_emit_keys_are_the_entries(
    emit_variable: Option<&str>,
    subscribe_variable: Option<&str>,
    production: bool,
    cache: &mut TokenCache,
    keys: ApiKeys,
)
    requires
        call_ensures(
            load_api_keys,
            (emit_variable, subscribe_variable, production, cache),
            keys,
        ),
    ensures
        are_keys_for(
            emit_variable,
            production,
            set!["emit-dev-key-1"@, "emit-dev-key-2"@],
            keys.emit_keys@,
        ),
{
    lemma_keys_in_force(
        emit_variable,
        production,
        set!["emit-dev-key-1"@, "emit-dev-key-2"@],
        keys.emit_keys@,
    );
}

/// The same holds of the keys to subscribe with, which are also exactly what is in the cache, each with
/// a flag that is set.
pub proof fn law_subscribe_keys_are_the_entries(
    emit_variable: Option<&str>,
    subscribe_variable: Option<&str>,
    production: bool,
    cache: &mut TokenCache,
    keys: ApiKeys,
    token: Seq<char>,
)
    requires
        call_ensures(
            load_api_keys,
            (emit_variable, subscribe_variable, production, cache),
            keys,
        ),
    ensures
        are_keys_for(
            subscribe_variable,
            production,
            set!["subscribe-dev-key-1"@, "subscribe-dev-key-2"@],
            keys.subscribe_keys@,
        ),
        cached(*final(cache)).contains_key(token) <==> keys.subscribe_keys@.contains(token),
        cached(*final(cache)).contains_key(token) ==> cached(*final(cache))[token],
{
    lemma_keys_in_force(
        subscribe_variable,
        production,
        set!["subscribe-dev-key-1"@, "subscribe-dev-key-2"@],
        keys.subscribe_keys@,
    );
}

/// `variable` is set to a list with at least one entry.
pub open spec fn names_a_key(variable: Option<&str>) -> bool {
    variable matches Some(list) && exists|a: int, b: int| #[trigger] is_entry(list@, a, b)
}

/// `keys` are the entries of the list that `variable` is set to, if it has any; otherwise they are the
/// development keys outside production, and none in it.
pub open spec fn are_keys_for(
    variable: Option<&str>,
    production: bool,
    development: Set<Seq<char>>,
    keys: Set<Seq<char>>,
) -> bool {
    if names_a_key(variable) {
        &&& forall|a: int, b: int| #[trigger]
            is_entry(variable->Some_0@, a, b) ==> keys.contains(variable->Some_0@.subrange(a, b))
        &&& forall|key: Seq<char>| #[trigger]
            keys.contains(key) ==> exists|a: int, b: int| #[trigger]
                is_entry(variable->Some_0@, a, b) && key == variable->Some_0@.subrange(a, b)
    } else {
        forall|key: Seq<char>| #[trigger]
            keys.contains(key) <==> !production && development.contains(key)
    }
}

proof fn lemma_named_keys(variable: Option<&str>)
    ensures
        names_a_key(variable) <==> keys_of_variable(variable)
            != Set::<Seq<char>>::empty(),
{
    if let Some(list) = variable {
        law_listed_keys_are_the_entries(list@);
        if names_a_key(variable) {
            let (a, b) = choose|a: int, b: int| #[trigger] is_entry(list@, a, b);
            assert(listed_keys(list@).contains(list@.subrange(a, b)));
        } else {
            assert forall|key: Seq<char>| !(#[trigger] listed_keys(list@).contains(key)) by {
                if listed_keys(list@).contains(key) {
                    let (a, b) = choose|a: int, b: int|
                        is_entry(list@, a, b) && key == #[trigger] list@.subrange(a, b);
                    assert(is_entry(list@, a, b));
                }
            }
            assert(listed_keys(list@) =~= Set::empty());
        }
    }
}

proof fn lemma_keys_in_force(
    variable: Option<&str>,
    production: bool,
    development: Set<Seq<char>>,
    keys: Set<Seq<char>>,
)
    requires
        keys == keys_in_force(variable, production, development),
    ensures
        are_keys_for(variable, production, development, keys),
{
    lemma_named_keys(variable);
    if names_a_key(variable) {
        let list = variable->Some_0@;
        law_listed_keys_are_the_entries(list);
        assert forall|a: int, b: int| #[trigger] is_entry(list, a, b) implies keys.contains(
            list.subrange(a, b),
        ) by {
            assert(listed_keys(list).contains(list.subrange(a, b)));
        }
        assert forall|key: Seq<char>| #[trigger] keys.contains(key) implies exists|a: int, b: int|
            #[trigger] is_entry(list, a, b) && key == list.subrange(a, b) by {
            assert(listed_keys(list).contains(key));
            let (a, b) = choose|a: int, b: int|
                is_entry(list, a, b) && key == #[trigger] list.subrange(a, b);
            assert(is_entry(list, a, b));
        }
    }
}

/// Development keys are in use if and only if, outside production, one of the variables names no key.
pub proof fn law_development_keys_stand_in(
    emit_variable: Option<&str>,
    subscribe_variable: Option<&str>,
    production: bool,
    used: bool,
)
    requires
        call_ensures(
            uses_development_keys,
            (emit_variable, subscribe_variable, production),
            used,
        ),
    ensures
        used <==> !production && !(names_a_key(emit_variable) && names_a_key(subscribe_variable)),
{
    lemma_named_keys(emit_variable);
    lemma_named_keys(subscribe_variable);
}

/// A copy of the keys grants what the keys grant.
pub proof fn law_keys_are_copied_whole(keys: &ApiKeys, copy: ApiKeys)
    requires
        call_ensures(ApiKeys::clone, (keys,), copy),
    ensures
        copy.emit_keys@ == keys.emit_keys@,
        copy.subscribe_keys@ == keys.subscribe_keys@,
{
}

/// A new cache holds nothing.
pub proof fn law_new_cache_is_empty(cache: TokenCache, token: Seq<char>)
    requires
        call_ensures(new_token_cache, (), cache),
    ensures
        !cached(cache).contains_key(token),
{
}

/// A publisher is let in if and only if the token in the header, behind `Bearer ` or alone, is a key to
/// publish with; otherwise the request is unauthorized.
pub proof fn law_publisher_needs_an_emit_key(
    header: &str,
    keys: &ApiKeys,
    verdict: Result<(), ApiError>,
    token: Seq<char>,
)
    requires
        call_ensures(check_token, (header, keys), verdict),
        header@ == "Bearer "@ + token || (header@ == token && !"Bearer "@.is_prefix_of(token)),
    ensures
        verdict is Ok <==> keys.emit_keys@.contains(token),
        verdict is Err ==> verdict->Err_0 is Unauthorized,
{
    if header@ == "Bearer "@ + token {
        assert("Bearer "@.is_prefix_of(header@));
        assert(header@.skip("Bearer "@.len() as int) =~= token);
    }
}

/// A subscriber is let in if and only if the query has a `token` that is cached or a key to subscribe
/// with; otherwise the request is unauthorized. A token that is let in is cached from then on; no other
/// token is affected.
pub proof fn law_subscriber_needs_a_key_or_a_cached_token(
    query: &StringHashMap<String>,
    keys: &ApiKeys,
    cache: &mut TokenCache,
    verdict: Result<(), ApiError>,
    other: Seq<char>,
)
    requires
        call_ensures(validate_token, (query, keys, cache), verdict),
    ensures
        ({
            let token = query@["token"@]@;
            &&& verdict is Ok <==> query@.contains_key("token"@) && (cached(
                *old(cache),
            ).contains_key(token) || keys.subscribe_keys@.contains(token))
            &&& verdict is Err ==> verdict->Err_0 is Unauthorized
            &&& verdict is Ok ==> cached(*final(cache)).contains_key(token)
            &&& verdict is Ok && !cached(*old(cache)).contains_key(token) ==> cached(
                *final(cache),
            )[token]
            &&& verdict is Err || other != token ==> cached(*final(cache)).contains_key(other)
                == cached(*old(cache)).contains_key(other)
            &&& cached(*old(cache)).contains_key(other) ==> cached(*final(cache)).contains_key(
                other,
            ) && cached(*final(cache))[other] == cached(*old(cache))[other]
        }),
{
}

// Refusals, port and health.

/// Every refusal is answered with a JSON object by its cause: a missing route before anything else,
/// then a missing authorization, too many connections, and any failure, whatever it was.
pub proof fn law_refusal_is_answered_by_its_cause(
    not_found: bool,
    cause: Option<&ApiError>,
    reply: ErrorReply,
)
    requires
        call_ensures(handle_errors, (not_found, cause), reply),
    ensures
        reply.content_type@ == "application/json"@,
        not_found ==> reply.status == 404 && reply.body@ == encode_utf8(
            "{\"error\":\"Not Found\"}"@,
        ),
        !not_found && cause is Some && cause->Some_0 is Unauthorized ==> reply.status == 401
            && reply.body@ == encode_utf8("{\"error\":\"Unauthorized\"}"@),
        !not_found && cause is Some && cause->Some_0 is TooManyConnections ==> reply.status
            == 503 && reply.body@ == encode_utf8("{\"error\":\"Too Many Connections\"}"@),
        !not_found && cause is Some && cause->Some_0 is Internal ==> reply.status == 500
            && reply.body@ == encode_utf8("{\"error\":\"Internal Error\"}"@),
        !not_found && cause is None ==> reply.status == 500 && reply.body@ == encode_utf8(
            "{\"error\":\"Internal Error\"}"@,
        ),
{
}

/// Every error is put into words, a failure together with what is known of it.
pub proof fn law_error_is_put_into_words(error: &ApiError, message: String)
    requires
        call_ensures(ApiError::message, (error,), message),
    ensures
        *error is Unauthorized ==> message@ == "Unauthorized"@,
        *error is TooManyConnections ==> message@ == "Too many connections"@,
        *error matches ApiError::Internal(cause) ==> message@ == "Internal server error: "@
            + cause@,
{
}

/// The port is the default one unless the variable is set to a number that fits: digits, after a plus
/// sign or not.
pub proof fn law_port_is_the_default_without_a_number(variable: Option<&str>, port: u16)
    requires
        call_ensures(listen_port, (variable,), port),
        variable matches Some(text) ==> !is_decimal(text@) && !(text@.len() > 0 && text@[0] == '+'
            && is_decimal(text@.skip(1))),
    ensures
        port == 3030,
{
}

/// A single digit, after a plus sign or not, is the port of this number.
pub proof fn law_port_of_one_digit(variable: Option<&str>, port: u16, digit: char)
    requires
        call_ensures(listen_port, (variable,), port),
        '0' <= digit <= '9',
        variable is Some,
        variable->Some_0@ == seq![digit] || variable->Some_0@ == seq!['+', digit],
    ensures
        port == digit as int - '0' as int,
{
    law_number_starts_with_a_digit(digit);
}

/// A further digit makes the port ten times as large and adds its value, as long as the number fits;
/// the port is the default one if it does not.
pub proof fn law_port_by_digits(
    shorter: &str,
    shorter_port: u16,
    longer: &str,
    longer_port: u16,
    digit: char,
)
    requires
        call_ensures(listen_port, (Some(shorter),), shorter_port),
        call_ensures(listen_port, (Some(longer),), longer_port),
        '0' <= digit <= '9',
        is_decimal(shorter@) || (shorter@.len() > 0 && shorter@[0] == '+' && is_decimal(
            shorter@.skip(1),
        )),
        longer@ == shorter@.push(digit),
        shorter_port != 3030,
    ensures
        longer_port == if shorter_port * 10 + (digit as int - '0' as int) <= 65_535 {
            shorter_port * 10 + (digit as int - '0' as int)
        } else {
            3030
        },
{
    law_number_is_read_by_digits(shorter@, digit);
    if shorter@[0] == '+' {
        assert(shorter@ != seq!['+']) by {
            assert(seq!['+'].skip(1).len() == 0);
        }
    }
}

/// Digits are the port with the number that they stand for in decimal notation, after a plus sign or
/// not, as long as it fits; the port is the default one if it does not.
pub proof fn law_port_is_the_decimal_number(text: &str, port: u16, digits: Seq<char>)
    requires
        call_ensures(listen_port, (Some(text),), port),
        is_decimal(digits),
        text@ == digits || text@ == seq!['+'] + digits,
    ensures
        port == if decimal(digits) <= 65_535 {
            decimal(digits)
        } else {
            3030
        },
{
    if text@ == seq!['+'] + digits {
        assert(text@.skip(1) =~= digits);
    } else {
        assert('0' <= text@[0] <= '9');
    }
}

/// The service says that it is well.
pub proof fn law_service_is_well(response: HealthResponse)
    requires
        call_ensures(health, (), response),
    ensures
        response.status@ == "ok"@,
{
}

} // verus!
