use bytes::Bytes;
use pulsecast::batch::{BroadcastTask, Collected, TaskAction, TaskEvent, BATCH_SIZE};
use pulsecast::message::ClientMessage;
use std::sync::Arc;
use std::time::Instant;

fn message(n: usize) -> ClientMessage {
    let data = n.to_string().into_bytes();
    ClientMessage { data: Arc::new(Bytes::from(data)), timestamp: Instant::now() }
}

fn batch_of(task: &BroadcastTask) -> Vec<String> {
    task.batch().iter().map(|m| String::from_utf8(m.data.to_vec()).unwrap()).collect()
}

#[test]
fn full_batch_goes_on_to_delivery() {
    let mut task = BroadcastTask::new();
    for n in 1..BATCH_SIZE {
        let action = task.broadcast_task(TaskEvent::Received(message(n)));
        assert!(matches!(action, TaskAction::Receive));
    }
    let action = task.broadcast_task(TaskEvent::Received(message(BATCH_SIZE)));
    assert!(matches!(action, TaskAction::CountConnections));
    assert_eq!(task.batch().len(), 250);
    assert_eq!(batch_of(&task), (1..=250).map(|n| n.to_string()).collect::<Vec<_>>());
    assert!(matches!(
        task.broadcast_task(TaskEvent::Connections(3)),
        TaskAction::Deliver(3)
    ));
    assert_eq!(task.batch().len(), 250);
    assert!(matches!(task.broadcast_task(TaskEvent::Delivered), TaskAction::StartBatch));
    assert!(task.batch().is_empty());
}

#[test]
fn batch_that_runs_out_of_time_is_delivered_as_it_is() {
    let mut task = BroadcastTask::new();
    task.broadcast_task(TaskEvent::Received(message(1)));
    task.broadcast_task(TaskEvent::Received(message(2)));
    assert!(matches!(
        task.broadcast_task(TaskEvent::TimedOut),
        TaskAction::CountConnections
    ));
    assert_eq!(batch_of(&task), vec!["1", "2"]);
    assert!(matches!(
        task.broadcast_task(TaskEvent::Connections(1)),
        TaskAction::Deliver(1)
    ));
}

#[test]
fn task_rests_after_a_batch_without_messages() {
    let mut task = BroadcastTask::new();
    assert!(matches!(task.broadcast_task(TaskEvent::TimedOut), TaskAction::Pause));
    assert!(matches!(task.broadcast_task(TaskEvent::Resumed), TaskAction::StartBatch));
    assert!(matches!(
        task.broadcast_task(TaskEvent::Received(message(1))),
        TaskAction::Receive
    ));
}

#[test]
fn closed_queue_starts_over_or_delivers_what_there_is() {
    let mut task = BroadcastTask::new();
    assert!(matches!(task.broadcast_task(TaskEvent::Closed), TaskAction::StartBatch));
    task.broadcast_task(TaskEvent::Received(message(1)));
    assert!(matches!(
        task.broadcast_task(TaskEvent::Closed),
        TaskAction::CountConnections
    ));
    assert_eq!(batch_of(&task), vec!["1"]);
}

#[test]
fn batch_without_connections_is_dropped() {
    let mut task = BroadcastTask::new();
    task.broadcast_task(TaskEvent::Received(message(1)));
    task.broadcast_task(TaskEvent::TimedOut);
    assert!(matches!(
        task.broadcast_task(TaskEvent::Connections(0)),
        TaskAction::StartBatch
    ));
    assert!(task.batch().is_empty());
}

#[test]
fn task_ignores_what_it_does_not_wait_for() {
    let mut task = BroadcastTask::new();
    task.broadcast_task(TaskEvent::Received(message(1)));
    assert!(matches!(task.broadcast_task(TaskEvent::Resumed), TaskAction::Ignore));
    assert!(matches!(task.broadcast_task(TaskEvent::Delivered), TaskAction::Ignore));
    assert!(matches!(
        task.broadcast_task(TaskEvent::Connections(0)),
        TaskAction::Ignore
    ));
    assert_eq!(batch_of(&task), vec!["1"]);
    task.broadcast_task(TaskEvent::TimedOut);
    assert!(matches!(
        task.broadcast_task(TaskEvent::Received(message(2))),
        TaskAction::Ignore
    ));
    assert_eq!(batch_of(&task), vec!["1"]);
}

/// Collects one batch from what is left in `incoming`, which is closed after its last message.
fn collect(buffer: &mut Vec<ClientMessage>, incoming: &mut Vec<ClientMessage>, size: usize) -> usize {
    let mut collected = BroadcastTask::batch_progress(0, size);
    loop {
        match collected {
            Collected::Done(count) => return count,
            Collected::More(count) => {
                let received = if incoming.is_empty() { None } else { Some(incoming.remove(0)) };
                collected = BroadcastTask::collect_batch(buffer, count, received, size);
            }
        }
    }
}

fn texts(messages: &[ClientMessage]) -> Vec<String> {
    messages.iter().map(|m| String::from_utf8(m.data.to_vec()).unwrap()).collect()
}

#[test]
fn only_new_messages_count_for_a_batch() {
    let mut buffer = vec![message(0)];
    let mut incoming = vec![message(1), message(2), message(3)];
    assert_eq!(collect(&mut buffer, &mut incoming, 2), 2);
    assert_eq!(texts(&buffer), vec!["0", "1", "2"]);
    assert_eq!(collect(&mut buffer, &mut incoming, 2), 1);
    assert_eq!(texts(&buffer), vec!["0", "1", "2", "3"]);
    assert_eq!(collect(&mut buffer, &mut incoming, 2), 0);
    assert_eq!(texts(&buffer), vec!["0", "1", "2", "3"]);
}

#[test]
fn batch_of_size_zero_takes_nothing() {
    let mut buffer = vec![message(0)];
    let mut incoming = vec![message(1)];
    assert_eq!(collect(&mut buffer, &mut incoming, 0), 0);
    assert_eq!(texts(&buffer), vec!["0"]);
    assert_eq!(incoming.len(), 1);
}

#[test]
fn collecting_stops_when_full_or_closed() {
    let mut buffer = Vec::new();
    assert!(matches!(
        BroadcastTask::collect_batch(&mut buffer, 0, Some(message(1)), 2),
        Collected::More(1)
    ));
    assert!(matches!(
        BroadcastTask::collect_batch(&mut buffer, 1, None, 2),
        Collected::Done(1)
    ));
    assert_eq!(buffer.len(), 1);
    assert!(matches!(
        BroadcastTask::collect_batch(&mut buffer, 1, Some(message(2)), 2),
        Collected::Done(2)
    ));
    assert_eq!(buffer.len(), 2);
}

#[test]
fn batches_joined_together_are_what_came_in() {
    let mut task = BroadcastTask::new();
    let mut delivered = Vec::new();
    let mut next = 0;
    for round in [3, 0, 250, 1] {
        for _ in 0..round {
            task.broadcast_task(TaskEvent::Received(message(next)));
            next += 1;
        }
        task.broadcast_task(TaskEvent::TimedOut);
        task.broadcast_task(TaskEvent::Resumed);
        if let TaskAction::Deliver(_) = task.broadcast_task(TaskEvent::Connections(2)) {
            delivered.extend(batch_of(&task));
        }
        task.broadcast_task(TaskEvent::Delivered);
    }
    assert_eq!(delivered, (0..254).map(|n| n.to_string()).collect::<Vec<_>>());
}
