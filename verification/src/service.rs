//! The whole service: the connections and the broadcast task together, from the messages that come
//! out of the queue to what the subscribers get.

use crate::batch::{
    fresh, law_task_stays_well_formed, task_wf, transition, unsettled, Phase, TaskAction, TaskEvent,
    TaskState,
};
use crate::broadcaster::{
    frame, is_completed, is_dispatch, law_batch_is_broadcast, live_frames, parallelism, Dispatch,
};
use crate::channel::{feeds, handed, ClientReceiver, ClientSender};
use crate::clients::law_no_broadcast;
use crate::message::{are_ages_of, ClientMessage, MESSAGE_TTL_MS};
use crate::registry::RegistryState;
use crate::session::{SessionAction, SessionEvent};
use crate::system::{
    broadcast_in, delivery, happens, ids_given, is_run, law_beginning_is_a_run,
    law_client_stays_until_it_leaves, law_clients_are_connections,
    law_subscriber_gets_exactly_the_broadcasts, start, Move, System,
};
use crate::tally::lemma_ids_finite;
use vstd::prelude::*;
use warp::ws::Message;

verus! {

/// All connections, and the broadcast task.
pub ghost struct Service {
    pub system: System,
    pub task: TaskState,
}

/// One thing that happens.
pub ghost enum Step {
    /// To the connections.
    Connection(Move),
    /// To the broadcast task; where it gives out a batch, the messages have these ages.
    Task { event: TaskEvent, ages: Seq<u128> },
}

/// What is deliverable of a batch, by the ages of its messages, is delivered to the connected clients.
pub open spec fn delivers(
    before: System,
    batch: Seq<ClientMessage>,
    ages: Seq<u128>,
    conn_count: usize,
    after: System,
) -> bool {
    &&& are_ages_of(ages, batch)
    &&& exists|dispatch: Dispatch, between: Map<usize, ClientSender>|
        #![trigger is_completed(dispatch, between, after.registry.clients)]
        is_dispatch(
            before.registry.clients,
            live_frames(batch, ages),
            conn_count,
            dispatch,
            between,
        ) && is_completed(dispatch, between, after.registry.clients)
    &&& after.sessions == before.sessions
    &&& after.registry == (RegistryState { clients: after.registry.clients, ..before.registry })
}

/// The step leads from the one state to the other. What happens to the connections is an arrival or
/// concerns a session, and leaves the task alone. The task goes by its transitions; it is told the
/// number of connections as the registry has it; and nothing happens to the connections with it but
/// the delivery of a batch that it gives out.
pub open spec fn proceeds(before: Service, step: Step, after: Service) -> bool {
    match step {
        Step::Connection(one) => {
            &&& one !is Delivery
            &&& happens(before.system, one, after.system)
            &&& after.task == before.task
        },
        Step::Task { event, ages } => {
            &&& event matches TaskEvent::Connections(count) ==> count
                == before.system.registry.active
            &&& after.task == transition(before.task, event).0
            &&& match transition(before.task, event).1 {
                TaskAction::Deliver(count) => delivers(
                    before.system,
                    before.task.buffer,
                    ages,
                    count,
                    after.system,
                ),
                _ => after.system == before.system,
            }
        },
    }
}

/// `steps` lead through `states`, from the start.
pub open spec fn is_service_run(states: Seq<Service>, steps: Seq<Step>) -> bool {
    &&& states.len() == steps.len() + 1
    &&& states[0] == (Service { system: start(), task: fresh() })
    &&& forall|n: int|
        0 <= n < steps.len() ==> proceeds(states[n], #[trigger] steps[n], states[n + 1])
}

/// The ids of the clients that were taken in, in order.
pub open spec fn ids_taken(steps: Seq<Step>) -> Seq<usize>
    decreases steps.len(),
{
    if steps.len() == 0 {
        Seq::empty()
    } else {
        let earlier = ids_taken(steps.drop_last());
        match steps.last() {
            Step::Connection(
                Move::Session(k, event, SessionAction::Serve { client_id, receiver }),
            ) => earlier.push(client_id),
            _ => earlier,
        }
    }
}

/// The batch that is given out for delivery in a step, if there is one.
pub open spec fn batch_given_out(before: Service, step: Step) -> Seq<ClientMessage> {
    match step {
        Step::Task { event, ages } => if transition(before.task, event).1 is Deliver {
            before.task.buffer
        } else {
            Seq::empty()
        },
        _ => Seq::empty(),
    }
}

/// The message that the task takes in a step, if there is one.
pub open spec fn message_taken(before: Service, step: Step) -> Seq<ClientMessage> {
    match (before.task.phase, step) {
        (Phase::Collecting, Step::Task { event: TaskEvent::Received(message), ages }) => {
            seq![message]
        },
        _ => Seq::empty(),
    }
}

/// The messages of the batches that were given out from the `i`th state to the `j`th, joined together.
pub open spec fn given_out(states: Seq<Service>, steps: Seq<Step>, i: int, j: int) -> Seq<
    ClientMessage,
>
    decreases j - i,
{
    if j <= i {
        Seq::empty()
    } else {
        given_out(states, steps, i, j - 1) + batch_given_out(states[j - 1], steps[j - 1])
    }
}

/// The messages that the task took in from the `i`th state to the `j`th, in order.
pub open spec fn taken_out(states: Seq<Service>, steps: Seq<Step>, i: int, j: int) -> Seq<
    ClientMessage,
>
    decreases j - i,
{
    if j <= i {
        Seq::empty()
    } else {
        taken_out(states, steps, i, j - 1) + message_taken(states[j - 1], steps[j - 1])
    }
}

/// The WebSocket messages that published messages are delivered as.
pub open spec fn frames(messages: Seq<ClientMessage>) -> Seq<Message> {
    messages.map_values(|message: ClientMessage| frame(message))
}

/// The step gives out no batch for many connections, and none in which a message has expired.
pub open spec fn is_calm(before: Service, step: Step) -> bool {
    match step {
        Step::Task { event, ages } => match transition(before.task, event).1 {
            TaskAction::Deliver(count) => {
                &&& parallelism(count) == 1
                &&& forall|k: int| 0 <= k < ages.len() ==> #[trigger] ages[k] <= MESSAGE_TTL_MS
            },
            _ => true,
        },
        _ => true,
    }
}

/// Where nothing has expired, everything is deliverable.
proof fn lemma_all_live(messages: Seq<ClientMessage>, ages: Seq<u128>)
    requires
        messages.len() <= ages.len(),
        forall|k: int| 0 <= k < ages.len() ==> #[trigger] ages[k] <= MESSAGE_TTL_MS,
    ensures
        live_frames(messages, ages) == frames(messages),
    decreases messages.len(),
{
    if messages.len() > 0 {
        lemma_all_live(messages.drop_last(), ages);
    }
}

/// `messages` are what a step of the service broadcasts, in order.
spec fn is_broadcast_of(before: Service, step: Step, after: Service, messages: Seq<Message>) -> bool {
    &&& delivery(before.system, messages, after.system)
    &&& is_calm(before, step) ==> messages == frames(batch_given_out(before, step))
}

/// What a step of the service is for the connections.
spec fn move_of(before: Service, step: Step, after: Service) -> Move {
    match step {
        Step::Connection(one) => one,
        Step::Task { event, ages } => Move::Delivery(
            choose|messages: Seq<Message>| is_broadcast_of(before, step, after, messages),
        ),
    }
}

proof fn lemma_move_of(before: Service, step: Step, after: Service)
    requires
        proceeds(before, step, after),
    ensures
        happens(before.system, move_of(before, step, after), after.system),
        move_of(before, step, after) matches Move::Delivery(messages) ==> is_broadcast_of(
            before,
            step,
            after,
            messages,
        ),
{
    if let Step::Task { event, ages } = step {
        match transition(before.task, event).1 {
            TaskAction::Deliver(count) => {
                let due = live_frames(before.task.buffer, ages);
                let (dispatch, between) = choose|
                    dispatch: Dispatch,
                    between: Map<usize, ClientSender>,
                |
                    #![trigger is_completed(dispatch, between, after.system.registry.clients)]
                    is_dispatch(
                        before.system.registry.clients,
                        due,
                        count,
                        dispatch,
                        between,
                    ) && is_completed(dispatch, between, after.system.registry.clients);
                let order = law_batch_is_broadcast(
                    before.system.registry.clients,
                    due,
                    count,
                    dispatch,
                    between,
                    after.system.registry.clients,
                );
                if is_calm(before, step) {
                    lemma_all_live(before.task.buffer, ages);
                }
                assert(is_broadcast_of(before, step, after, order));
            },
            _ => {
                law_no_broadcast(before.system.registry.clients);
                assert(frames(Seq::<ClientMessage>::empty()) =~= Seq::<Message>::empty());
                assert(is_broadcast_of(before, step, after, Seq::<Message>::empty()));
            },
        }
    }
}

/// The connections of a run of the service.
spec fn systems(states: Seq<Service>) -> Seq<System> {
    states.map_values(|state: Service| state.system)
}

/// What happens to the connections over a run of the service.
spec fn moves_of(states: Seq<Service>, steps: Seq<Step>) -> Seq<Move> {
    Seq::new(steps.len(), |n: int| move_of(states[n], steps[n], states[n + 1]))
}

proof fn lemma_service_run(states: Seq<Service>, steps: Seq<Step>)
    requires
        is_service_run(states, steps),
    ensures
        is_run(systems(states), moves_of(states, steps)),
        ids_given(moves_of(states, steps)) == ids_taken(steps),
    decreases steps.len(),
{
    let moves = moves_of(states, steps);
    assert forall|n: int| 0 <= n < moves.len() implies happens(
        systems(states)[n],
        #[trigger] moves[n],
        systems(states)[n + 1],
    ) by {
        lemma_move_of(states[n], steps[n], states[n + 1]);
    }
    if steps.len() > 0 {
        lemma_service_run(states.drop_last(), steps.drop_last());
        assert(moves.drop_last() =~= moves_of(states.drop_last(), steps.drop_last()));
    }
}

/// The task stays well formed.
proof fn lemma_task_stays_well_formed(states: Seq<Service>, steps: Seq<Step>, n: int)
    requires
        is_service_run(states, steps),
        0 <= n < states.len(),
    ensures
        task_wf(states[n].task),
    decreases n,
{
    if n > 0 {
        lemma_task_stays_well_formed(states, steps, n - 1);
        if let Step::Task { event, ages } = steps[n - 1] {
            law_task_stays_well_formed(states[n - 1].task, event);
        }
    }
}

/// Where somebody is connected throughout, what is given out, and what waits after it, is what waited
/// before and what was taken in since.
proof fn lemma_nothing_is_dropped(states: Seq<Service>, steps: Seq<Step>, i: int, j: int)
    requires
        is_service_run(states, steps),
        0 <= i <= j < states.len(),
        forall|n: int| i <= n < j ==> (#[trigger] states[n]).system.registry.active > 0,
    ensures
        given_out(states, steps, i, j) + unsettled(states[j].task) == unsettled(states[i].task)
            + taken_out(states, steps, i, j),
    decreases j - i,
{
    if i < j {
        lemma_nothing_is_dropped(states, steps, i, j - 1);
        lemma_task_stays_well_formed(states, steps, j - 1);
        assert(given_out(states, steps, i, j) + unsettled(states[j].task) =~= given_out(
            states,
            steps,
            i,
            j - 1,
        ) + unsettled(states[j - 1].task) + message_taken(states[j - 1], steps[j - 1]));
        assert(unsettled(states[i].task) + taken_out(states, steps, i, j) =~= unsettled(
            states[i].task,
        ) + taken_out(states, steps, i, j - 1) + message_taken(states[j - 1], steps[j - 1]));
    } else {
        assert(given_out(states, steps, i, j) + unsettled(states[j].task) =~= unsettled(
            states[i].task,
        ) + taken_out(states, steps, i, j));
    }
}

/// What is broadcast are the frames of the batches that are given out.
proof fn lemma_given_out_is_broadcast(states: Seq<Service>, steps: Seq<Step>, i: int, j: int)
    requires
        is_service_run(states, steps),
        0 <= i <= j < states.len(),
        forall|n: int| i <= n < j ==> is_calm(states[n], #[trigger] steps[n]),
    ensures
        broadcast_in(moves_of(states, steps).subrange(i, j)) == frames(
            given_out(states, steps, i, j),
        ),
    decreases j - i,
{
    let moves = moves_of(states, steps).subrange(i, j);
    if i < j {
        lemma_given_out_is_broadcast(states, steps, i, j - 1);
        assert(moves.drop_last() =~= moves_of(states, steps).subrange(i, j - 1));
        lemma_move_of(states[j - 1], steps[j - 1], states[j]);
        let batch = batch_given_out(states[j - 1], steps[j - 1]);
        assert(frames(given_out(states, steps, i, j)) =~= frames(
            given_out(states, steps, i, j - 1),
        ) + frames(batch));
    }
}

/// From the queue to the subscriber, over any number of batches and however they are cut: as long as
/// there are few connections and no message expires before its batch is given out, what a connected
/// client has been handed are the messages of the batches that were given out since it was taken in,
/// joined together. These and the messages that wait after them are those that waited when it was
/// taken in and those that came out of the queue since: none is lost, doubled or reordered. The
/// channel feeds the client's receiver, and no batch holds more messages than fit.
pub proof fn law_subscriber_gets_what_comes_out_of_the_queue(
    states: Seq<Service>,
    steps: Seq<Step>,
    i: int,
    j: int,
    k: int,
    event: SessionEvent,
    client_id: usize,
    receiver: ClientReceiver,
)
    requires
        is_service_run(states, steps),
        ids_taken(steps).len() < usize::MAX,
        0 <= i < j < states.len(),
        steps[i] == Step::Connection(
            Move::Session(k, event, SessionAction::Serve { client_id, receiver }),
        ),
        states[j].system.registry.clients.contains_key(client_id),
        forall|n: int| i < n < j ==> is_calm(states[n], #[trigger] steps[n]),
    ensures
        feeds(states[j].system.registry.clients[client_id], receiver),
        handed(states[j].system.registry.clients[client_id]) == frames(
            given_out(states, steps, i + 1, j),
        ),
        given_out(states, steps, i + 1, j) + unsettled(states[j].task) == unsettled(
            states[i + 1].task,
        ) + taken_out(states, steps, i + 1, j),
        given_out(states, steps, i + 1, j).is_prefix_of(
            unsettled(states[i + 1].task) + taken_out(states, steps, i + 1, j),
        ),
        task_wf(states[j].task),
{
    let run = systems(states);
    let moves = moves_of(states, steps);
    lemma_service_run(states, steps);
    law_subscriber_gets_exactly_the_broadcasts(run, moves, i, j, k, event, client_id, receiver);
    lemma_given_out_is_broadcast(states, steps, i + 1, j);
    law_client_stays_until_it_leaves(run, moves, i, j, k, event, client_id, receiver);
    assert forall|n: int| i + 1 <= n < j implies (
    #[trigger] states[n]).system.registry.active > 0 by {
        law_beginning_is_a_run(run, moves, n);
        law_clients_are_connections(run[n]);
        lemma_ids_finite(run[n].registry.clients.dom());
    }
    lemma_nothing_is_dropped(states, steps, i + 1, j);
    lemma_task_stays_well_formed(states, steps, j);
}

} // verus!
