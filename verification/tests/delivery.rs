use bytes::Bytes;
use pulsecast::broadcaster::{Broadcaster, Dispatch, SendProgress, WaitOutcome};
use pulsecast::channel::ClientReceiver;
use pulsecast::clients::ClientStore;
use pulsecast::message::{ClientMessage, MESSAGE_TTL_MS};
use pulsecast::queue::TrySend;
use std::sync::Arc;
use std::time::{Duration, Instant};
use tokio::sync::mpsc::unbounded_channel;
use warp::ws::Message;

fn message(data: &[u8]) -> ClientMessage {
    ClientMessage { data: Arc::new(Bytes::from(data.to_vec())), timestamp: Instant::now() }
}

fn payloads(frames: &[Message]) -> Vec<Vec<u8>> {
    frames.iter().map(|frame| frame.as_bytes().to_vec()).collect()
}

#[test]
fn message_expires_after_its_time_to_live() {
    assert_eq!(MESSAGE_TTL_MS, 2000);
    assert!(!ClientMessage::is_expired_at_age(0));
    assert!(!ClientMessage::is_expired_at_age(2000));
    assert!(ClientMessage::is_expired_at_age(2001));
    assert!(ClientMessage::is_expired_at_age(u128::MAX));
}

#[test]
fn fresh_message_is_not_expired_and_an_old_one_is() {
    let fresh = message(b"x");
    assert!(!fresh.is_expired());
    if let Some(past) = Instant::now().checked_sub(Duration::from_millis(2500)) {
        let old = ClientMessage { data: fresh.data.clone(), timestamp: past };
        assert!(old.is_expired());
    }
    if let Some(past) = Instant::now().checked_sub(Duration::from_millis(1000)) {
        let young = ClientMessage { data: fresh.data.clone(), timestamp: past };
        assert!(!young.is_expired());
    }
}

#[test]
fn clone_of_a_message_is_the_message() {
    let original = message(b"abc");
    let copy = original.clone();
    assert_eq!(copy.data, original.data);
    assert_eq!(copy.timestamp, original.timestamp);
}

#[test]
fn parallelism_grows_with_the_connections() {
    for (connections, count) in [
        (0, 1),
        (1, 1),
        (1_000, 1),
        (1_001, 4),
        (10_000, 4),
        (10_001, 8),
        (500_000, 8),
        (usize::MAX, 8),
    ] {
        assert_eq!(Broadcaster::parallel_count(connections), count);
    }
}

#[test]
fn expired_messages_are_left_out_and_the_order_is_kept() {
    let messages = [message(b"a"), message(b"b"), message(b"c"), message(b"d")];
    let frames = Broadcaster::valid_messages(&messages, &[0, 2001, 2000, 5000]);
    assert_eq!(payloads(&frames), vec![b"a".to_vec(), b"c".to_vec()]);
    assert!(frames.iter().all(|frame| frame.is_binary()));
    let first = Broadcaster::valid_messages(&messages[..2], &[0, 2001]);
    let second = Broadcaster::valid_messages(&messages[2..], &[2000, 5000]);
    assert_eq!(payloads(&frames), [payloads(&first), payloads(&second)].concat());
    assert!(Broadcaster::valid_messages(&[], &[]).is_empty());
}

fn received(receiver: &mut ClientReceiver) -> Vec<Vec<u8>> {
    let mut messages = Vec::new();
    while let Ok(item) = receiver.try_recv() {
        let message = item.unwrap();
        assert!(message.is_binary());
        messages.push(message.into_bytes());
    }
    messages
}

#[test]
fn batch_of_expired_messages_is_idle() {
    let mut store = ClientStore::new();
    let (sender, mut receiver) = unbounded_channel();
    store.insert(1, sender);
    let messages = [message(b"a"), message(b"b")];
    for connections in [1, 5_000, 50_000] {
        let dispatch =
            Broadcaster::process_aged_messages(&messages, &[2001, 9999], &mut store, connections);
        assert!(matches!(dispatch, Dispatch::Idle));
    }
    assert!(matches!(Broadcaster::process_messages(&[], &mut store, 1), Dispatch::Idle));
    assert!(received(&mut receiver).is_empty());
}

#[test]
fn batch_for_few_connections_is_broadcast_in_turn() {
    let mut store = ClientStore::new();
    let (sender, mut receiver) = unbounded_channel();
    let (other, mut other_receiver) = unbounded_channel();
    store.insert(1, sender);
    store.insert(2, other);
    let messages = [message(b"a"), message(b"b"), message(b"c")];
    let dispatch =
        Broadcaster::process_aged_messages(&messages, &[0, 3000, 10], &mut store, 1_000);
    assert!(matches!(dispatch, Dispatch::Sent));
    assert_eq!(received(&mut receiver), vec![b"a".to_vec(), b"c".to_vec()]);
    assert_eq!(received(&mut other_receiver), vec![b"a".to_vec(), b"c".to_vec()]);
    assert_eq!(store.shard_count(1), 1);
    assert_eq!(store.shard_count(2), 1);
}

#[test]
fn batch_for_many_connections_is_left_for_parallel_broadcast() {
    let mut store = ClientStore::new();
    let (sender, mut receiver) = unbounded_channel();
    store.insert(1, sender);
    let messages = [message(b"a"), message(b"b")];
    for (connections, expected) in [(1_001, 4), (10_001, 8)] {
        match Broadcaster::process_aged_messages(&messages, &[0, 0], &mut store, connections) {
            Dispatch::Parallel { limit, messages } => {
                assert_eq!(limit, expected);
                assert_eq!(payloads(&messages), vec![b"a".to_vec(), b"b".to_vec()]);
            }
            _ => panic!("not left for parallel broadcast"),
        }
        assert!(receiver.try_recv().is_err());
    }
}

#[test]
fn number_of_connections_changes_nothing_about_what_is_delivered() {
    for connections in [0, 1, 1_000, 1_001, 10_000, 10_001] {
        let mut store = ClientStore::new();
        let (sender, mut receiver) = unbounded_channel();
        store.insert(7, sender);
        let messages = [message(b"a"), message(b"b"), message(b"c")];
        let dispatch =
            Broadcaster::process_aged_messages(&messages, &[1, 2001, 2], &mut store, connections);
        if let Dispatch::Parallel { messages, .. } = dispatch {
            for frame in messages.into_iter().rev() {
                store.broadcast(frame, connections);
            }
        }
        let mut served = received(&mut receiver);
        served.sort();
        assert_eq!(served, vec![b"a".to_vec(), b"c".to_vec()]);
    }
}

#[test]
fn fresh_batch_is_delivered() {
    let mut store = ClientStore::new();
    let (sender, mut receiver) = unbounded_channel();
    store.insert(1, sender);
    let dispatch = Broadcaster::process_messages(&[message(b"now")], &mut store, 1);
    assert!(matches!(dispatch, Dispatch::Sent));
    assert_eq!(received(&mut receiver), vec![b"now".to_vec()]);
}

#[test]
fn timestamp_decides_whether_a_message_is_delivered() {
    let mut store = ClientStore::new();
    let (sender, mut receiver) = unbounded_channel();
    store.insert(1, sender);
    let now = Instant::now();
    if let (Some(old), Some(young)) = (
        now.checked_sub(Duration::from_millis(2001)),
        now.checked_sub(Duration::from_millis(500)),
    ) {
        let messages = [
            ClientMessage { timestamp: old, ..message(b"a") },
            ClientMessage { timestamp: young, ..message(b"b") },
            message(b"c"),
        ];
        Broadcaster::process_messages(&messages, &mut store, 1);
        assert_eq!(received(&mut receiver), vec![b"b".to_vec(), b"c".to_vec()]);
    }
}

#[test]
fn queue_of_a_new_broadcaster_is_empty_and_bounded() {
    let (broadcaster, receiver) = Broadcaster::new();
    assert_eq!(broadcaster.tx.capacity(), Some(50_000));
    assert!(receiver.is_empty());
}

#[test]
fn sent_message_comes_out_of_the_queue() {
    let (mut broadcaster, receiver) = Broadcaster::new();
    assert!(matches!(broadcaster.send(message(b"one")), SendProgress::Finished(true)));
    assert!(matches!(broadcaster.send(message(b"two")), SendProgress::Finished(true)));
    assert_eq!(receiver.try_recv().unwrap().data.as_ref(), &Bytes::from_static(b"one"));
    assert_eq!(receiver.try_recv().unwrap().data.as_ref(), &Bytes::from_static(b"two"));
    assert!(receiver.try_recv().is_err());
}

#[test]
fn message_waits_when_the_queue_is_full() {
    let (tx, receiver) = flume::bounded(1);
    let mut broadcaster = Broadcaster { tx };
    assert!(matches!(broadcaster.send(message(b"one")), SendProgress::Finished(true)));
    match broadcaster.send(message(b"two")) {
        SendProgress::Waiting(waiting) => {
            assert_eq!(waiting.data.as_ref(), &Bytes::from_static(b"two"))
        }
        SendProgress::Finished(_) => panic!("did not wait"),
    }
    assert_eq!(receiver.len(), 1);
}

#[test]
fn message_is_not_taken_when_nobody_receives() {
    let (mut broadcaster, receiver) = Broadcaster::new();
    drop(receiver);
    assert!(matches!(broadcaster.send(message(b"x")), SendProgress::Finished(false)));
}

#[test]
fn attempt_to_send_is_settled_or_waits() {
    assert!(matches!(
        Broadcaster::after_try_send(TrySend::Sent),
        SendProgress::Finished(true)
    ));
    assert!(matches!(
        Broadcaster::after_try_send(TrySend::Disconnected(message(b"x"))),
        SendProgress::Finished(false)
    ));
    match Broadcaster::after_try_send(TrySend::Full(message(b"x"))) {
        SendProgress::Waiting(waiting) => {
            assert_eq!(waiting.data.as_ref(), &Bytes::from_static(b"x"))
        }
        SendProgress::Finished(_) => panic!("did not wait"),
    }
}

#[test]
fn wait_succeeds_only_if_the_queue_took_the_message() {
    assert!(Broadcaster::after_wait(WaitOutcome::Sent));
    assert!(!Broadcaster::after_wait(WaitOutcome::Closed));
    assert!(!Broadcaster::after_wait(WaitOutcome::TimedOut));
}

#[test]
fn accepted_messages_are_what_went_into_the_queue() {
    let (tx, receiver) = flume::bounded(1);
    let mut broadcaster = Broadcaster { tx };
    let mut accepted = Vec::new();
    let mut came_out = Vec::new();
    for (n, room) in [(0u8, true), (1, true), (2, false), (3, true)] {
        let taken = match broadcaster.send(message(&[n])) {
            SendProgress::Finished(taken) => taken,
            SendProgress::Waiting(waiting) => {
                if room {
                    came_out.push(receiver.try_recv().unwrap().data.to_vec());
                    broadcaster.tx.send(waiting).unwrap();
                    Broadcaster::after_wait(WaitOutcome::Sent)
                } else {
                    Broadcaster::after_wait(WaitOutcome::TimedOut)
                }
            }
        };
        if taken {
            accepted.push(vec![n]);
        }
    }
    came_out.extend(receiver.try_iter().map(|m| m.data.to_vec()));
    assert_eq!(accepted, vec![vec![0], vec![1], vec![3]]);
    assert_eq!(came_out, accepted);
}
