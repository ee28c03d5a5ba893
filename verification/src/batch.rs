//! The broadcast task: gathers published messages into batches and decides what becomes of each.
//!
//! The task itself neither waits nor receives. It is told what happened and answers with what to do
//! next.

use crate::message::ClientMessage;
use vstd::prelude::*;

verus! {

/// The most messages in a batch.
pub const BATCH_SIZE: usize = 250;

/// How long a batch may take to fill, in milliseconds.
pub const BATCH_TIMEOUT_MS: u64 = 10;

/// How long the task rests after a batch that nothing came in for, in microseconds.
pub const IDLE_PAUSE_US: u64 = 500;

/// What the task is waiting for.
pub enum Phase {
    /// Messages for the batch.
    Collecting,
    /// The end of a rest.
    Pausing,
    /// The number of connections.
    Counting,
    /// The delivery of the batch.
    Delivering,
}

/// What happened.
pub enum TaskEvent {
    /// A message came out of the queue.
    Received(ClientMessage),
    /// The queue is closed and empty.
    Closed,
    /// `BATCH_TIMEOUT_MS` have passed since the batch was started.
    TimedOut,
    /// The rest is over.
    Resumed,
    /// There are this many connections.
    Connections(usize),
    /// The batch has been delivered.
    Delivered,
}

/// What to do next.
pub enum TaskAction {
    /// Start the clock for a new batch and receive.
    StartBatch,
    /// Receive further; the clock goes on.
    Receive,
    /// Rest for `IDLE_PAUSE_US`.
    Pause,
    /// Find out how many connections there are.
    CountConnections,
    /// Deliver the messages of the batch to this many connections.
    Deliver(usize),
    /// Nothing: the task was not waiting for this.
    Ignore,
}

/// How a batch stands, and how many messages it has taken in since it was begun.
pub enum Collected {
    /// It takes more.
    More(usize),
    /// It does not: it has as many as it takes, or no more can come.
    Done(usize),
}

/// How a batch stands that takes `batch_size` messages and has taken in `count`.
pub open spec fn progress(count: usize, batch_size: usize) -> Collected {
    if count < batch_size {
        Collected::More(count)
    } else {
        Collected::Done(count)
    }
}

/// What becomes of the buffer, and how the batch stands, when `received` comes for a batch that has
/// taken in `count` messages: a message is taken in and counted; the news that no more can come
/// ends the batch.
pub open spec fn collect(
    buffer: Seq<ClientMessage>,
    count: usize,
    received: Option<ClientMessage>,
    batch_size: usize,
) -> (Seq<ClientMessage>, Collected) {
    match received {
        Some(message) => (buffer.push(message), progress((count + 1) as usize, batch_size)),
        None => (buffer, Collected::Done(count)),
    }
}

/// What is in the buffer, and how many messages were taken in, when a batch has been collected from a
/// queue that yields `incoming` and is closed then.
pub open spec fn collect_all(
    buffer: Seq<ClientMessage>,
    collected: Collected,
    incoming: Seq<ClientMessage>,
    batch_size: usize,
) -> (Seq<ClientMessage>, usize)
    decreases incoming.len(),
{
    match collected {
        Collected::Done(count) => (buffer, count),
        Collected::More(count) => if incoming.len() == 0 {
            (buffer, collect(buffer, count, None, batch_size).1->Done_0)
        } else {
            let (next, standing) = collect(buffer, count, Some(incoming.first()), batch_size);
            collect_all(next, standing, incoming.drop_first(), batch_size)
        },
    }
}

/// A batch takes in the first messages that come, in order and after what is in the buffer already,
/// up to its size; only the new ones count.
pub proof fn law_batch_takes_up_to_its_size(
    buffer: Seq<ClientMessage>,
    incoming: Seq<ClientMessage>,
    batch_size: usize,
)
    ensures
        ({
            let taken = if incoming.len() < batch_size {
                incoming.len() as int
            } else {
                batch_size as int
            };
            collect_all(buffer, progress(0, batch_size), incoming, batch_size) == (
                buffer + incoming.take(taken),
                taken as usize,
            )
        }),
{
    lemma_collect_all(buffer, 0, incoming, batch_size);
}

proof fn lemma_collect_all(
    buffer: Seq<ClientMessage>,
    count: usize,
    incoming: Seq<ClientMessage>,
    batch_size: usize,
)
    requires
        count <= batch_size,
    ensures
        ({
            let taken = if incoming.len() < batch_size - count {
                incoming.len() as int
            } else {
                batch_size - count
            };
            collect_all(buffer, progress(count, batch_size), incoming, batch_size) == (
                buffer + incoming.take(taken),
                (count + taken) as usize,
            )
        }),
    decreases incoming.len(),
{
    if count == batch_size || incoming.len() == 0 {
    } else {
        let rest = incoming.drop_first();
        lemma_collect_all(
            buffer.push(incoming.first()),
            (count + 1) as usize,
            rest,
            batch_size,
        );
        let taken = if incoming.len() < batch_size - count {
            incoming.len() as int
        } else {
            batch_size - count
        };
        assert(buffer.push(incoming.first()) + rest.take(taken - 1) =~= buffer + incoming.take(
            taken,
        ));
    }
}

/// The state of the task: what it waits for, and the messages of the batch.
pub ghost struct TaskState {
    pub phase: Phase,
    pub buffer: Seq<ClientMessage>,
}

/// The state in which a new batch is started.
pub open spec fn fresh() -> TaskState {
    TaskState { phase: Phase::Collecting, buffer: Seq::empty() }
}

/// What the task does next, and in which state, once a batch is complete: it rests after one that
/// ran out of time empty, starts over after one that was cut off empty, and otherwise asks for the
/// number of connections.
pub open spec fn after_batch(buffer: Seq<ClientMessage>, timed_out: bool) -> (
    TaskState,
    TaskAction,
) {
    if buffer.len() > 0 {
        (TaskState { phase: Phase::Counting, buffer }, TaskAction::CountConnections)
    } else if timed_out {
        (TaskState { phase: Phase::Pausing, buffer }, TaskAction::Pause)
    } else {
        (fresh(), TaskAction::StartBatch)
    }
}

/// The transitions of the task.
pub open spec fn transition(state: TaskState, event: TaskEvent) -> (TaskState, TaskAction) {
    match (state.phase, event) {
        (Phase::Collecting, TaskEvent::Received(message)) => {
            let buffer = state.buffer.push(message);
            if buffer.len() < BATCH_SIZE {
                (TaskState { phase: Phase::Collecting, buffer }, TaskAction::Receive)
            } else {
                after_batch(buffer, false)
            }
        },
        (Phase::Collecting, TaskEvent::Closed) => after_batch(state.buffer, false),
        (Phase::Collecting, TaskEvent::TimedOut) => after_batch(state.buffer, true),
        (Phase::Pausing, TaskEvent::Resumed) => (fresh(), TaskAction::StartBatch),
        (Phase::Counting, TaskEvent::Connections(count)) => if count == 0 {
            (fresh(), TaskAction::StartBatch)
        } else {
            (
                TaskState { phase: Phase::Delivering, buffer: state.buffer },
                TaskAction::Deliver(count),
            )
        },
        (Phase::Delivering, TaskEvent::Delivered) => (fresh(), TaskAction::StartBatch),
        _ => (state, TaskAction::Ignore),
    }
}

/// The broadcast task.
pub struct BroadcastTask {
    phase: Phase,
    buffer: Vec<ClientMessage>,
}

impl View for BroadcastTask {
    type V = TaskState;

    closed spec fn view(&self) -> TaskState {
        TaskState { phase: self.phase, buffer: self.buffer@ }
    }
}

impl BroadcastTask {
    /// A task that is about to start a batch.
    pub fn new() -> (task: Self)
        ensures
            task@ == fresh(),
            task_wf(task@),
    {
        BroadcastTask { phase: Phase::Collecting, buffer: Vec::with_capacity(BATCH_SIZE * 2) }
    }

    /// The messages of the batch.
    pub fn batch(&self) -> (batch: &[ClientMessage])
        ensures
            batch@ == self@.buffer,
    {
        self.buffer.as_slice()
    }

    /// How a batch stands that takes `batch_size` messages and has taken in `count`. One that has
    /// been begun has taken in none.
    pub fn batch_progress(count: usize, batch_size: usize) -> (collected: Collected)
        ensures
            collected == progress(count, batch_size),
    {
        if count < batch_size {
            Collected::More(count)
        } else {
            Collected::Done(count)
        }
    }

    /// Takes what the queue gave, a message or the news that it is closed, into a batch that takes
    /// more and has taken in `count` messages.
    pub fn collect_batch(
        buffer: &mut Vec<ClientMessage>,
        count: usize,
        received: Option<ClientMessage>,
        batch_size: usize,
    ) -> (collected: Collected)
        requires
            count < batch_size,
        ensures
            (final(buffer)@, collected) == collect(old(buffer)@, count, received, batch_size),
    {
        match received {
            Some(message) => {
                buffer.push(message);
                Self::batch_progress(count + 1, batch_size)
            },
            None => Collected::Done(count),
        }
    }

    /// Decides on a batch that is complete.
    fn finish_batch(&mut self, timed_out: bool) -> (action: TaskAction)
        requires
            old(self)@.phase is Collecting,
        ensures
            (final(self)@, action) == after_batch(old(self)@.buffer, timed_out),
    {
        if self.buffer.len() > 0 {
            self.phase = Phase::Counting;
            TaskAction::CountConnections
        } else if timed_out {
            self.phase = Phase::Pausing;
            TaskAction::Pause
        } else {
            self.start_batch()
        }
    }

    /// Empties the batch for a new one.
    fn start_batch(&mut self) -> (action: TaskAction)
        ensures
            final(self)@ == fresh(),
            action is StartBatch,
    {
        self.buffer.clear();
        self.phase = Phase::Collecting;
        TaskAction::StartBatch
    }

    /// Takes in what happened and decides what to do next. A batch starts with an empty buffer, so
    /// that the messages in it are those that it has taken in.
    pub fn broadcast_task(&mut self, event: TaskEvent) -> (action: TaskAction)
        requires
            task_wf(old(self)@),
        ensures
            task_wf(final(self)@),
            (final(self)@, action) == transition(old(self)@, event),
    {
        match (&self.phase, event) {
            (Phase::Collecting, TaskEvent::Received(message)) => {
                let count = self.buffer.len();
                match Self::collect_batch(&mut self.buffer, count, Some(message), BATCH_SIZE) {
                    Collected::More(_) => TaskAction::Receive,
                    Collected::Done(_) => self.finish_batch(false),
                }
            },
            (Phase::Collecting, TaskEvent::Closed) => {
                let count = self.buffer.len();
                Self::collect_batch(&mut self.buffer, count, None, BATCH_SIZE);
                self.finish_batch(false)
            },
            (Phase::Collecting, TaskEvent::TimedOut) => self.finish_batch(true),
            (Phase::Pausing, TaskEvent::Resumed) => self.start_batch(),
            (Phase::Counting, TaskEvent::Connections(count)) => {
                if count == 0 {
                    self.start_batch()
                } else {
                    self.phase = Phase::Delivering;
                    TaskAction::Deliver(count)
                }
            },
            (Phase::Delivering, TaskEvent::Delivered) => self.start_batch(),
            _ => TaskAction::Ignore,
        }
    }
}

/// What holds of the task between events: a batch that still takes messages is not full, a task
/// that rests has none, and one that is past collecting has at least one and no more than fit.
pub open spec fn task_wf(state: TaskState) -> bool {
    match state.phase {
        Phase::Collecting => state.buffer.len() < BATCH_SIZE,
        Phase::Pausing => state.buffer.len() == 0,
        Phase::Counting => 0 < state.buffer.len() <= BATCH_SIZE,
        Phase::Delivering => 0 < state.buffer.len() <= BATCH_SIZE,
    }
}

/// A new task is well formed, and stays so whatever happens.
pub proof fn law_task_stays_well_formed(state: TaskState, event: TaskEvent)
    requires
        task_wf(state),
    ensures
        task_wf(fresh()),
        task_wf(transition(state, event).0),
{
}

/// A batch is delivered only if it has messages, to somebody, and without a change to it.
pub proof fn law_delivers_only_to_somebody(state: TaskState, event: TaskEvent, count: usize)
    requires
        task_wf(state),
        transition(state, event).1 == TaskAction::Deliver(count),
    ensures
        count > 0,
        event == TaskEvent::Connections(count),
        0 < state.buffer.len() <= BATCH_SIZE,
        transition(state, event).0.buffer == state.buffer,
{
}

/// The task rests only when a batch ran out of time without a message.
pub proof fn law_rests_only_when_idle(state: TaskState, event: TaskEvent)
    requires
        transition(state, event).1 is Pause,
    ensures
        event is TimedOut,
        state.buffer.len() == 0,
{
}

/// A new batch starts without messages of the one before.
pub proof fn law_batch_starts_empty(state: TaskState, event: TaskEvent)
    requires
        transition(state, event).1 is StartBatch,
    ensures
        transition(state, event).0 == fresh(),
{
}

/// The messages of a batch that nobody is connected for are dropped.
pub proof fn law_batch_without_audience_is_dropped(state: TaskState)
    requires
        state.phase is Counting,
    ensures
        transition(state, TaskEvent::Connections(0)) == (fresh(), TaskAction::StartBatch),
{
}

/// The state after the given messages have come in one after the other.
pub open spec fn after_messages(state: TaskState, messages: Seq<ClientMessage>) -> TaskState
    decreases messages.len(),
{
    if messages.len() == 0 {
        state
    } else {
        transition(
            after_messages(state, messages.drop_last()),
            TaskEvent::Received(messages.last()),
        ).0
    }
}

/// A batch holds exactly the messages that came in since it was started, in the order in which they
/// came, and goes on to delivery as soon as it is full.
pub proof fn law_batch_holds_what_came_in(messages: Seq<ClientMessage>)
    requires
        messages.len() <= BATCH_SIZE,
    ensures
        after_messages(fresh(), messages).buffer == messages,
        after_messages(fresh(), messages).phase == if messages.len() < BATCH_SIZE {
            Phase::Collecting
        } else {
            Phase::Counting
        },
    decreases messages.len(),
{
    if messages.len() > 0 {
        law_batch_holds_what_came_in(messages.drop_last());
    }
}

/// The state after the given events, one after the other, from the start.
pub open spec fn after_events(events: Seq<TaskEvent>) -> TaskState
    decreases events.len(),
{
    if events.len() == 0 {
        fresh()
    } else {
        transition(after_events(events.drop_last()), events.last()).0
    }
}

/// The messages that the task took in over the given events: those that came while it collected.
pub open spec fn taken_in(events: Seq<TaskEvent>) -> Seq<ClientMessage>
    decreases events.len(),
{
    if events.len() == 0 {
        Seq::empty()
    } else {
        let earlier = taken_in(events.drop_last());
        match (after_events(events.drop_last()).phase, events.last()) {
            (Phase::Collecting, TaskEvent::Received(message)) => earlier.push(message),
            _ => earlier,
        }
    }
}

/// A batch that is settled.
pub ghost struct Settled {
    /// The messages of the batch.
    pub batch: Seq<ClientMessage>,
    /// Whether the batch was given out for delivery; it was dropped otherwise, for want of
    /// connections.
    pub delivered: bool,
}

/// The batches that were settled over the given events, in order.
pub open spec fn settled(events: Seq<TaskEvent>) -> Seq<Settled>
    decreases events.len(),
{
    if events.len() == 0 {
        Seq::empty()
    } else {
        let earlier = settled(events.drop_last());
        let state = after_events(events.drop_last());
        match (state.phase, transition(state, events.last()).1) {
            (Phase::Counting, TaskAction::Deliver(_)) => earlier.push(
                Settled { batch: state.buffer, delivered: true },
            ),
            (Phase::Counting, TaskAction::StartBatch) => earlier.push(
                Settled { batch: state.buffer, delivered: false },
            ),
            _ => earlier,
        }
    }
}

/// The messages of the given batches, joined together.
pub open spec fn joined(batches: Seq<Settled>) -> Seq<ClientMessage>
    decreases batches.len(),
{
    if batches.len() == 0 {
        Seq::empty()
    } else {
        joined(batches.drop_last()) + batches.last().batch
    }
}

/// The messages that wait for a batch of theirs to be settled.
pub open spec fn unsettled(state: TaskState) -> Seq<ClientMessage> {
    match state.phase {
        Phase::Collecting => state.buffer,
        Phase::Counting => state.buffer,
        Phase::Pausing => Seq::empty(),
        Phase::Delivering => Seq::empty(),
    }
}

/// Whatever happens, the settled batches joined together, and the messages that wait after them, are
/// the messages that the task took in, in order: none is lost, doubled, or shared between batches.
pub proof fn law_batches_partition_messages(events: Seq<TaskEvent>)
    ensures
        task_wf(after_events(events)),
        joined(settled(events)) + unsettled(after_events(events)) == taken_in(events),
    decreases events.len(),
{
    if events.len() > 0 {
        let earlier = events.drop_last();
        law_batches_partition_messages(earlier);
        let state = after_events(earlier);
        law_task_stays_well_formed(state, events.last());
        let before = settled(earlier);
        let after = settled(events);
        if after != before {
            assert(after.drop_last() =~= before);
        }
    }
}

/// The task asks for the delivery of a batch exactly when it settles the batch as delivered, and the
/// batch stays as it is for that.
pub proof fn law_delivery_settles_batch(events: Seq<TaskEvent>, event: TaskEvent)
    ensures
        transition(after_events(events), event).1 is Deliver <==> settled(events.push(event))
            == settled(events).push(
            Settled { batch: after_events(events).buffer, delivered: true },
        ),
        transition(after_events(events), event).1 is Deliver ==> after_events(
            events.push(event),
        ).buffer == after_events(events).buffer,
{
    law_batches_partition_messages(events);
    assert(events.push(event).drop_last() =~= events);
    let before = settled(events);
    let delivered = before.push(
        Settled { batch: after_events(events).buffer, delivered: true },
    );
    let dropped = before.push(Settled { batch: after_events(events).buffer, delivered: false });
    assert(delivered.last() != dropped.last());
}

} // verus!
