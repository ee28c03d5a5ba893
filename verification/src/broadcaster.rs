//! The broadcaster: takes published messages in and brings them to every client.

use crate::channel::{handed, same_channel, ClientSender};
use crate::clients::{are_broadcast, law_broadcast_follows, law_no_broadcast, ClientStore};
use crate::message::{are_ages_of, is_age_of, ClientMessage, MESSAGE_TTL_MS};
use crate::payload::{self, binary, content};
use crate::queue::{self, attempts, capacity, drains_into, queued, same_queue, TrySend};
use flume::{Receiver, Sender};
use vstd::prelude::*;
use warp::ws::Message;

verus! {

/// The number of published messages that may wait for the broadcaster.
pub const BROADCAST_CHANNEL_CAPACITY: usize = 50_000;

/// The number of broadcasts that are under way at one time, at most.
pub const MAX_PARALLEL_BROADCASTS: usize = 8;

/// How long a publisher waits for room in the queue, in milliseconds.
pub const SEND_TIMEOUT_MS: u64 = 50;

/// The WebSocket message that a published message is delivered as.
pub open spec fn frame(message: ClientMessage) -> Message {
    binary(content(*message.data))
}

/// What is delivered of `messages`, in order, when they have the given ages in whole milliseconds:
/// those that have not expired.
pub open spec fn live_frames(messages: Seq<ClientMessage>, ages: Seq<u128>) -> Seq<Message>
    decreases messages.len(),
{
    if messages.len() == 0 {
        Seq::empty()
    } else {
        let earlier = live_frames(messages.drop_last(), ages);
        if ages[messages.len() - 1] > MESSAGE_TTL_MS {
            earlier
        } else {
            earlier.push(frame(messages.last()))
        }
    }
}

/// What is delivered of two runs of messages is what is delivered of the first, and then what is
/// delivered of the second: the order is kept, and messages do not influence each other.
pub proof fn law_delivery_keeps_order(
    a: Seq<ClientMessage>,
    a_ages: Seq<u128>,
    b: Seq<ClientMessage>,
    b_ages: Seq<u128>,
)
    requires
        a.len() == a_ages.len(),
        b.len() == b_ages.len(),
    ensures
        live_frames(a + b, a_ages + b_ages) == live_frames(a, a_ages) + live_frames(b, b_ages),
    decreases b.len(),
{
    if b.len() == 0 {
        assert(a + b =~= a);
        assert(a_ages + b_ages =~= a_ages);
    } else {
        let b_start = b.drop_last();
        law_delivery_keeps_order(a, a_ages, b_start, b_ages.drop_last());
        lemma_ages_beyond(a + b_start, a_ages + b_ages.drop_last(), a_ages + b_ages);
        lemma_ages_beyond(b_start, b_ages.drop_last(), b_ages);
        assert((a + b).drop_last() =~= a + b_start);
        assert((a + b).last() == b.last());
        assert((a_ages + b_ages)[(a + b).len() - 1] == b_ages[b.len() - 1]);
        if b_ages[b.len() - 1] <= MESSAGE_TTL_MS {
            assert(live_frames(a, a_ages) + live_frames(b_start, b_ages).push(frame(b.last()))
                =~= (live_frames(a, a_ages) + live_frames(b_start, b_ages)).push(frame(b.last())));
        }
    }
}

/// Ages beyond those of the messages do not matter.
proof fn lemma_ages_beyond(messages: Seq<ClientMessage>, ages: Seq<u128>, more: Seq<u128>)
    requires
        messages.len() <= ages.len(),
        ages.is_prefix_of(more),
    ensures
        live_frames(messages, ages) == live_frames(messages, more),
    decreases messages.len(),
{
    if messages.len() > 0 {
        lemma_ages_beyond(messages.drop_last(), ages, more);
        assert(ages[messages.len() - 1] == more[messages.len() - 1]);
    }
}

/// A message that has not expired is delivered.
pub proof fn law_live_message_is_delivered(messages: Seq<ClientMessage>, ages: Seq<u128>, i: int)
    requires
        messages.len() <= ages.len(),
        0 <= i < messages.len(),
        ages[i] <= MESSAGE_TTL_MS,
    ensures
        live_frames(messages, ages).contains(frame(messages[i])),
    decreases messages.len(),
{
    let earlier = live_frames(messages.drop_last(), ages);
    if i < messages.len() - 1 {
        law_live_message_is_delivered(messages.drop_last(), ages, i);
        let j = choose|j: int| 0 <= j < earlier.len() && earlier[j] == frame(messages[i]);
        assert(live_frames(messages, ages)[j] == frame(messages[i]));
    } else {
        assert(live_frames(messages, ages)[earlier.len() as int] == frame(messages[i]));
    }
}

/// Nothing is delivered but messages that have not expired.
pub proof fn law_only_live_messages_are_delivered(
    messages: Seq<ClientMessage>,
    ages: Seq<u128>,
    j: int,
)
    requires
        messages.len() <= ages.len(),
        0 <= j < live_frames(messages, ages).len(),
    ensures
        exists|i: int|
            0 <= i < messages.len() && ages[i] <= MESSAGE_TTL_MS && live_frames(messages, ages)[j]
                == frame(#[trigger] messages[i]),
    decreases messages.len(),
{
    let earlier = live_frames(messages.drop_last(), ages);
    if j < earlier.len() {
        law_only_live_messages_are_delivered(messages.drop_last(), ages, j);
        let i = choose|i: int|
            0 <= i < messages.drop_last().len() && ages[i] <= MESSAGE_TTL_MS && earlier[j] == frame(
                #[trigger] messages.drop_last()[i],
            );
        assert(live_frames(messages, ages)[j] == frame(messages[i]));
    } else {
        assert(live_frames(messages, ages)[j] == frame(messages[messages.len() - 1]));
    }
}

/// A batch in which everything has expired is not broadcast at all.
pub proof fn law_expired_batch_is_idle(
    messages: Seq<ClientMessage>,
    ages: Seq<u128>,
    before: Map<usize, ClientSender>,
    conn_count: usize,
    dispatch: Dispatch,
    after: Map<usize, ClientSender>,
)
    requires
        messages.len() == ages.len(),
        forall|i: int| 0 <= i < ages.len() ==> #[trigger] ages[i] > MESSAGE_TTL_MS,
        is_dispatch(before, live_frames(messages, ages), conn_count, dispatch, after),
    ensures
        dispatch is Idle,
        after == before,
{
    if live_frames(messages, ages).len() > 0 {
        law_only_live_messages_are_delivered(messages, ages, 0);
    }
}

/// Once all that is due for a batch is done, its deliverable messages have been broadcast, each once;
/// with few connections, in order. Gives the order in which they were.
pub proof fn law_batch_is_broadcast(
    before: Map<usize, ClientSender>,
    frames: Seq<Message>,
    conn_count: usize,
    dispatch: Dispatch,
    between: Map<usize, ClientSender>,
    after: Map<usize, ClientSender>,
) -> (order: Seq<Message>)
    requires
        is_dispatch(before, frames, conn_count, dispatch, between),
        is_completed(dispatch, between, after),
    ensures
        are_broadcast(before, order, after),
        order.to_multiset() == frames.to_multiset(),
        parallelism(conn_count) == 1 ==> order == frames,
{
    if frames.len() == 0 {
        law_no_broadcast(before);
        assert(frames =~= Seq::<Message>::empty());
        frames
    } else if parallelism(conn_count) == 1 {
        frames
    } else {
        choose|order: Seq<Message>| #[trigger]
            are_broadcast(between, order, after) && order.to_multiset() == frames.to_multiset()
    }
}

/// What a client is handed of a batch, once all that is due for the batch is done, are its
/// deliverable messages, each exactly once; with few connections, they come in order.
pub proof fn law_batch_reaches_client(
    before: Map<usize, ClientSender>,
    frames: Seq<Message>,
    conn_count: usize,
    dispatch: Dispatch,
    between: Map<usize, ClientSender>,
    after: Map<usize, ClientSender>,
    id: usize,
)
    requires
        is_dispatch(before, frames, conn_count, dispatch, between),
        is_completed(dispatch, between, after),
        before.contains_key(id),
    ensures
        after.contains_key(id),
        same_channel(before[id], after[id]),
        handed(before[id]).is_prefix_of(handed(after[id])),
        news(before[id], after[id]).to_multiset() == frames.to_multiset(),
        parallelism(conn_count) == 1 ==> news(before[id], after[id]) == frames,
{
    let order = law_batch_is_broadcast(before, frames, conn_count, dispatch, between, after);
    assert(news(before[id], after[id]) =~= order);
}

/// The number of connections changes nothing about what is delivered: of the same batch, a client is
/// handed the same messages, and the same clients are served, whatever the number.
pub proof fn law_connection_count_changes_no_delivery(
    before: Map<usize, ClientSender>,
    frames: Seq<Message>,
    a_count: usize,
    a_dispatch: Dispatch,
    a_between: Map<usize, ClientSender>,
    a_after: Map<usize, ClientSender>,
    b_count: usize,
    b_dispatch: Dispatch,
    b_between: Map<usize, ClientSender>,
    b_after: Map<usize, ClientSender>,
)
    requires
        is_dispatch(before, frames, a_count, a_dispatch, a_between),
        is_completed(a_dispatch, a_between, a_after),
        is_dispatch(before, frames, b_count, b_dispatch, b_between),
        is_completed(b_dispatch, b_between, b_after),
    ensures
        a_after.dom() == b_after.dom(),
        forall|id: usize| #[trigger]
            before.contains_key(id) ==> news(before[id], a_after[id]).to_multiset() == news(
                before[id],
                b_after[id],
            ).to_multiset(),
{
    assert forall|id: usize| #[trigger] before.contains_key(id) implies news(
        before[id],
        a_after[id],
    ).to_multiset() == news(before[id], b_after[id]).to_multiset() by {
        law_batch_reaches_client(before, frames, a_count, a_dispatch, a_between, a_after, id);
        law_batch_reaches_client(before, frames, b_count, b_dispatch, b_between, b_after, id);
    }
}

/// More connections never lower the number of broadcasts under way, which is between one and
/// `MAX_PARALLEL_BROADCASTS`.
pub proof fn law_parallelism_grows(a: usize, b: usize)
    requires
        a <= b,
    ensures
        1 <= parallelism(a) <= parallelism(b) <= MAX_PARALLEL_BROADCASTS,
{
}

/// The number of broadcasts that may be under way at one time, by number of connections.
pub open spec fn parallelism(conn_count: usize) -> usize {
    if conn_count > 10_000 {
        MAX_PARALLEL_BROADCASTS
    } else if conn_count > 1_000 {
        4
    } else {
        1
    }
}

/// What is done with a batch of messages.
pub enum Dispatch {
    /// Nothing in the batch is deliverable.
    Idle,
    /// The messages were broadcast, one after the other.
    Sent,
    /// The messages are to be broadcast, `limit` of them at one time.
    Parallel { limit: usize, messages: Vec<Message> },
}

/// What is due for the deliverable messages `frames` is done, or left to be done: nothing if there
/// are none, a broadcast of each in turn if there are few connections; otherwise all of them are
/// left for a parallel broadcast.
pub open spec fn is_dispatch(
    before: Map<usize, ClientSender>,
    frames: Seq<Message>,
    conn_count: usize,
    dispatch: Dispatch,
    after: Map<usize, ClientSender>,
) -> bool {
    if frames.len() == 0 {
        dispatch is Idle && after == before
    } else if parallelism(conn_count) == 1 {
        dispatch is Sent && are_broadcast(before, frames, after)
    } else {
        &&& dispatch matches Dispatch::Parallel { limit, messages }
        &&& limit == parallelism(conn_count)
        &&& messages@ == frames
        &&& after == before
    }
}

/// What was left to be done for a batch is done: the messages for a parallel broadcast have been
/// broadcast, in any order.
pub open spec fn is_completed(
    dispatch: Dispatch,
    before: Map<usize, ClientSender>,
    after: Map<usize, ClientSender>,
) -> bool {
    match dispatch {
        Dispatch::Parallel { limit, messages } => exists|order: Seq<Message>| #[trigger]
            are_broadcast(before, order, after) && order.to_multiset() == messages@.to_multiset(),
        _ => after == before,
    }
}

/// What has been handed to a channel from one time to another.
pub open spec fn news(before: ClientSender, after: ClientSender) -> Seq<Message> {
    handed(after).skip(handed(before).len() as int)
}

/// How far a publisher has come with a message.
pub enum SendProgress {
    /// It is settled whether the message was taken.
    Finished(bool),
    /// The queue is full: the message has yet to be put into it, within `SEND_TIMEOUT_MS`.
    Waiting(ClientMessage),
}

/// How the wait for room in the queue ended.
pub enum WaitOutcome {
    /// The queue took the message.
    Sent,
    /// Nobody receives any more.
    Closed,
    /// There was no room in time.
    TimedOut,
}

/// How far a publisher has come once an attempt to put a message into the queue had this outcome.
pub open spec fn progress_of(outcome: TrySend) -> SendProgress {
    match outcome {
        TrySend::Sent => SendProgress::Finished(true),
        TrySend::Full(message) => SendProgress::Waiting(message),
        TrySend::Disconnected(_) => SendProgress::Finished(false),
    }
}

/// One attempt to put `message` into the queue leads from one state of the handle to the other, and
/// `progress` is what follows from its outcome: the message is in the queue if and only if it is
/// settled that it was taken, and it is this message that waits otherwise.
pub open spec fn is_send(
    before: Sender<ClientMessage>,
    message: ClientMessage,
    after: Sender<ClientMessage>,
    progress: SendProgress,
) -> bool {
    &&& same_queue(before, after)
    &&& attempts(after) == attempts(before).push((message, attempts(after).last().1))
    &&& progress == progress_of(attempts(after).last().1)
    &&& match progress {
        SendProgress::Finished(true) => queued(after) == queued(before).push(message),
        SendProgress::Finished(false) => queued(after) == queued(before),
        SendProgress::Waiting(waiting) => queued(after) == queued(before) && waiting == message,
    }
}

/// The publishers' end of the broadcaster.
pub struct Broadcaster {
    /// The way into the queue.
    pub tx: Sender<ClientMessage>,
}

impl Broadcaster {
    /// A broadcaster with an empty queue, and the end of the queue that is to be drained.
    pub fn new() -> (made: (Self, Receiver<ClientMessage>))
        ensures
            attempts(made.0.tx) == (Seq::<(ClientMessage, TrySend)>::empty()),
            queued(made.0.tx) == Seq::<ClientMessage>::empty(),
            capacity(made.0.tx) == Some(BROADCAST_CHANNEL_CAPACITY),
            drains_into(made.0.tx, made.1),
    {
        let (tx, rx) = queue::bounded(BROADCAST_CHANNEL_CAPACITY);
        (Broadcaster { tx }, rx)
    }

    /// Tries to put a message into the queue without waiting: settled with `true` if the queue took
    /// it, with `false` if nobody receives any more; otherwise the message waits for room.
    pub fn send(&mut self, message: ClientMessage) -> (progress: SendProgress)
        ensures
            is_send(old(self).tx, message, final(self).tx, progress),
    {
        let outcome = queue::try_send(&mut self.tx, message);
        assert(attempts(self.tx).drop_last() =~= attempts(old(self).tx));
        Self::after_try_send(outcome)
    }

    /// How far a publisher has come after an attempt to put a message into the queue.
    pub fn after_try_send(outcome: TrySend) -> (progress: SendProgress)
        ensures
            progress == progress_of(outcome),
    {
        match outcome {
            TrySend::Sent => SendProgress::Finished(true),
            TrySend::Full(message) => SendProgress::Waiting(message),
            TrySend::Disconnected(_) => SendProgress::Finished(false),
        }
    }

    /// Whether the queue took the message, after a wait for room.
    pub fn after_wait(outcome: WaitOutcome) -> (taken: bool)
        ensures
            taken == (outcome is Sent),
    {
        match outcome {
            WaitOutcome::Sent => true,
            WaitOutcome::Closed => false,
            WaitOutcome::TimedOut => false,
        }
    }

    /// The number of broadcasts that may be under way at one time.
    pub fn parallel_count(conn_count: usize) -> (count: usize)
        ensures
            count == parallelism(conn_count),
    {
        if conn_count > 10_000 {
            MAX_PARALLEL_BROADCASTS
        } else if conn_count > 1_000 {
            4
        } else {
            1
        }
    }

    /// The deliverable ones of `messages`, given their ages in whole milliseconds.
    pub fn valid_messages(messages: &[ClientMessage], ages: &[u128]) -> (frames: Vec<Message>)
        requires
            messages@.len() == ages@.len(),
        ensures
            frames@ == live_frames(messages@, ages@),
    {
        let mut frames: Vec<Message> = Vec::new();
        for i in 0..messages.len()
            invariant
                messages@.len() == ages@.len(),
                frames@ == live_frames(messages@.take(i as int), ages@),
        {
            if !ClientMessage::is_expired_at_age(ages[i]) {
                let data = payload::to_vec(&messages[i].data);
                frames.push(payload::binary_message(data));
            }
            assert(messages@.take(i + 1).drop_last() == messages@.take(i as int));
        }
        assert(messages@.take(messages@.len() as int) == messages@);
        frames
    }

    /// Delivers what is deliverable of a batch, given the ages of its messages.
    pub fn process_aged_messages(
        messages: &[ClientMessage],
        ages: &[u128],
        clients: &mut ClientStore,
        conn_count: usize,
    ) -> (dispatch: Dispatch)
        requires
            messages@.len() == ages@.len(),
            old(clients).wf(),
        ensures
            final(clients).wf(),
            final(clients).shard_counts() == old(clients).shard_counts(),
            is_dispatch(
                old(clients)@,
                live_frames(messages@, ages@),
                conn_count,
                dispatch,
                final(clients)@,
            ),
    {
        let frames = Self::valid_messages(messages, ages);
        if frames.len() == 0 {
            return Dispatch::Idle;
        }
        let limit = Self::parallel_count(conn_count);
        if limit == 1 {
            let ghost due = frames@;
            proof {
                law_no_broadcast(clients@);
            }
            for message in it: frames
                invariant
                    it.seq() == due,
                    clients.wf(),
                    clients.shard_counts() == old(clients).shard_counts(),
                    are_broadcast(old(clients)@, due.take(it.index() as int), clients@),
            {
                let ghost between = clients@;
                let ghost sent = due.take(it.index() as int);
                clients.broadcast(message, conn_count);
                proof {
                    law_broadcast_follows(old(clients)@, sent, between, message, clients@);
                    assert(sent.push(message) =~= due.take(it.index() + 1));
                }
            }
            assert(due.take(due.len() as int) =~= due);
            Dispatch::Sent
        } else {
            Dispatch::Parallel { limit, messages: frames }
        }
    }

    /// Delivers what is deliverable of a batch by now.
    pub fn process_messages(
        messages: &[ClientMessage],
        clients: &mut ClientStore,
        conn_count: usize,
    ) -> (dispatch: Dispatch)
        requires
            old(clients).wf(),
        ensures
            final(clients).wf(),
            final(clients).shard_counts() == old(clients).shard_counts(),
            exists|ages: Seq<u128>|
                are_ages_of(ages, messages@) && is_dispatch(
                    old(clients)@,
                    #[trigger] live_frames(messages@, ages),
                    conn_count,
                    dispatch,
                    final(clients)@,
                ),
    {
        let mut ages: Vec<u128> = Vec::new();
        for i in 0..messages.len()
            invariant
                ages@.len() == i,
                forall|k: int| 0 <= k < i ==> is_age_of(#[trigger] ages@[k], messages@[k]),
        {
            ages.push(messages[i].age_ms());
        }
        Self::process_aged_messages(messages, ages.as_slice(), clients, conn_count)
    }
}

/// What a publisher is answered: whether the queue took the message, at once or after a wait that
/// ended so.
pub open spec fn answer(progress: SendProgress, wait: WaitOutcome) -> bool {
    match progress {
        SendProgress::Finished(taken) => taken,
        SendProgress::Waiting(_) => wait is Sent,
    }
}

/// The messages went to `send` one after the other, and led the handle from state to state, with the
/// given progress each.
pub open spec fn is_send_series(
    handles: Seq<Sender<ClientMessage>>,
    messages: Seq<ClientMessage>,
    progress: Seq<SendProgress>,
) -> bool {
    &&& handles.len() == messages.len() + 1
    &&& progress.len() == messages.len()
    &&& forall|n: int|
        0 <= n < messages.len() ==> is_send(
            handles[n],
            #[trigger] messages[n],
            handles[n + 1],
            progress[n],
        )
}

/// The messages that were answered with `true`, in the order of the calls.
pub open spec fn accepted(
    messages: Seq<ClientMessage>,
    progress: Seq<SendProgress>,
    waits: Seq<WaitOutcome>,
) -> Seq<ClientMessage>
    decreases messages.len(),
{
    if messages.len() == 0 {
        Seq::empty()
    } else {
        let n = messages.len() - 1;
        let earlier = accepted(messages.drop_last(), progress, waits);
        if answer(progress[n], waits[n]) {
            earlier.push(messages[n])
        } else {
            earlier
        }
    }
}

/// The messages that went into the queue, in order, over a series of attempts, each with the end of
/// the wait that followed if the queue was full: those that it took at once, and those that it gave
/// back first and took after the wait.
pub open spec fn went_in(
    attempts: Seq<(ClientMessage, TrySend)>,
    waits: Seq<WaitOutcome>,
) -> Seq<ClientMessage>
    decreases attempts.len(),
{
    if attempts.len() == 0 {
        Seq::empty()
    } else {
        let n = attempts.len() - 1;
        let earlier = went_in(attempts.drop_last(), waits);
        match attempts[n].1 {
            TrySend::Sent => earlier.push(attempts[n].0),
            TrySend::Full(back) => if waits[n] is Sent {
                earlier.push(back)
            } else {
                earlier
            },
            TrySend::Disconnected(_) => earlier,
        }
    }
}

/// Of a series of messages, each settled before the next is sent, those that were answered with
/// `true` are what went into the queue, in the order of the calls, each once and unchanged. The queue
/// stays the same one, and so does the number of messages that it holds at most.
pub proof fn law_accepted_messages_went_in(
    handles: Seq<Sender<ClientMessage>>,
    messages: Seq<ClientMessage>,
    progress: Seq<SendProgress>,
    waits: Seq<WaitOutcome>,
)
    requires
        is_send_series(handles, messages, progress),
        messages.len() <= waits.len(),
    ensures
        attempts(handles[0]).is_prefix_of(attempts(handles.last())),
        attempts(handles.last()).len() == attempts(handles[0]).len() + messages.len(),
        went_in(attempts(handles.last()).skip(attempts(handles[0]).len() as int), waits)
            == accepted(messages, progress, waits),
        same_queue(handles[0], handles.last()),
    decreases messages.len(),
{
    if messages.len() > 0 {
        let n = messages.len() - 1;
        let before = attempts(handles[n]).skip(attempts(handles[0]).len() as int);
        let after = attempts(handles[n + 1]).skip(attempts(handles[0]).len() as int);
        assert(is_send(handles[n], messages[n], handles[n + 1], progress[n]));
        law_accepted_messages_went_in(
            handles.drop_last(),
            messages.drop_last(),
            progress.drop_last(),
            waits,
        );
        lemma_progress_beyond(messages.drop_last(), progress.drop_last(), progress, waits);
        assert(after.drop_last() =~= before);
    }
}

/// Progress beyond that of the messages does not matter.
proof fn lemma_progress_beyond(
    messages: Seq<ClientMessage>,
    progress: Seq<SendProgress>,
    more: Seq<SendProgress>,
    waits: Seq<WaitOutcome>,
)
    requires
        messages.len() <= progress.len(),
        progress.is_prefix_of(more),
    ensures
        accepted(messages, progress, waits) == accepted(messages, more, waits),
    decreases messages.len(),
{
    if messages.len() > 0 {
        lemma_progress_beyond(messages.drop_last(), progress, more, waits);
    }
}

} // verus!
