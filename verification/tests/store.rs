use pulsecast::channel::{ClientReceiver, ClientSender};
use pulsecast::clients::{ClientStore, SHARD_COUNT};
use tokio::sync::mpsc::unbounded_channel;
use warp::ws::Message;

fn channel() -> (ClientSender, ClientReceiver) {
    unbounded_channel()
}

fn received(receiver: &mut ClientReceiver) -> Vec<Vec<u8>> {
    let mut messages = Vec::new();
    while let Ok(item) = receiver.try_recv() {
        let message = item.unwrap();
        assert!(message.is_binary());
        messages.push(message.into_bytes());
    }
    messages
}

#[test]
fn new_store_counts_nobody() {
    let mut store = ClientStore::new();
    for s in 0..SHARD_COUNT {
        assert_eq!(store.shard_count(s), 0);
    }
    store.broadcast(Message::binary(vec![1]), 0);
    for s in 0..SHARD_COUNT {
        assert_eq!(store.shard_count(s), 0);
    }
}

#[test]
fn clients_are_counted_in_the_shard_of_their_id() {
    let mut store = ClientStore::new();
    for (id, shard) in [(0, 0), (1, 1), (127, 127), (128, 0), (129, 1), (usize::MAX, 127)] {
        let before = store.shard_count(shard);
        store.insert(id, channel().0);
        assert_eq!(store.shard_count(shard), before + 1);
    }
    assert_eq!(store.shard_count(0), 2);
    assert_eq!(store.shard_count(1), 2);
    assert_eq!(store.shard_count(127), 2);
    assert_eq!(store.shard_count(2), 0);
}

#[test]
fn second_client_under_an_id_replaces_the_first_and_is_counted_too() {
    let mut store = ClientStore::new();
    let (first, mut first_receiver) = channel();
    let (second, mut second_receiver) = channel();
    store.insert(5, first);
    store.insert(5, second);
    assert_eq!(store.shard_count(5), 2);
    store.broadcast(Message::binary(vec![7]), 1);
    assert!(received(&mut first_receiver).is_empty());
    assert_eq!(received(&mut second_receiver), vec![vec![7]]);
    assert!(store.remove(&5));
    assert_eq!(store.shard_count(5), 1);
    assert!(!store.remove(&5));
    assert_eq!(store.shard_count(5), 1);
}

#[test]
fn remove_says_whether_the_client_was_there() {
    let mut store = ClientStore::new();
    store.insert(130, channel().0);
    assert!(!store.remove(&2));
    assert_eq!(store.shard_count(2), 1);
    assert!(store.remove(&130));
    assert_eq!(store.shard_count(2), 0);
    assert!(!store.remove(&130));
    assert_eq!(store.shard_count(2), 0);
}

#[test]
fn removed_client_gets_nothing() {
    let mut store = ClientStore::new();
    let (gone, mut gone_receiver) = channel();
    let (here, mut here_receiver) = channel();
    store.insert(1, gone);
    store.insert(129, here);
    assert!(store.remove(&1));
    store.broadcast(Message::binary(vec![9]), 2);
    assert!(received(&mut gone_receiver).is_empty());
    assert_eq!(received(&mut here_receiver), vec![vec![9]]);
}

fn broadcast_reaches_everybody(conn_count: usize) {
    let mut store = ClientStore::new();
    let mut receivers = Vec::new();
    for id in 1..=300 {
        let (sender, receiver) = channel();
        store.insert(id, sender);
        receivers.push(receiver);
    }
    store.broadcast(Message::binary(vec![1, 2, 3]), conn_count);
    for receiver in receivers.iter_mut() {
        assert_eq!(received(receiver), vec![vec![1, 2, 3]]);
    }
    let total: usize = (0..SHARD_COUNT).map(|s| store.shard_count(s)).sum();
    assert_eq!(total, 300);
}

#[test]
fn broadcast_below_the_limit_reaches_everybody_once() {
    broadcast_reaches_everybody(999);
}

#[test]
fn broadcast_from_the_limit_on_reaches_everybody_once() {
    broadcast_reaches_everybody(1000);
}

#[test]
fn new_channel_is_none_of_those_of_the_clients() {
    let mut store = ClientStore::new();
    let (first, mut first_receiver) = store.open_channel();
    store.insert(1, first);
    let (second, mut second_receiver) = store.open_channel();
    store.broadcast(Message::binary(vec![1]), 1);
    store.insert(2, second);
    store.broadcast(Message::binary(vec![2]), 2);
    assert_eq!(received(&mut first_receiver), vec![vec![1], vec![2]]);
    assert_eq!(received(&mut second_receiver), vec![vec![2]]);
}

#[test]
fn client_whose_receiver_is_gone_keeps_nobody_from_receiving() {
    for conn_count in [0, 5, 999, 1000] {
        let mut store = ClientStore::new();
        let (t1, mut r1) = channel();
        let (t2, r2) = channel();
        let (t3, mut r3) = channel();
        store.insert(1, t1);
        store.insert(2, t2);
        store.insert(129, t3);
        drop(r2);
        store.broadcast(Message::binary(vec![4]), conn_count);
        assert_eq!(received(&mut r1), vec![vec![4]]);
        assert_eq!(received(&mut r3), vec![vec![4]]);
        assert_eq!(store.shard_count(2), 1);
        assert_eq!(store.shard_count(1), 2);
    }
}

#[test]
fn broadcasts_arrive_in_order() {
    let mut store = ClientStore::new();
    let (sender, mut receiver) = channel();
    store.insert(1, sender);
    for i in 0..10 {
        store.broadcast(Message::binary(vec![i]), 1);
    }
    assert_eq!(received(&mut receiver), (0..10).map(|i| vec![i]).collect::<Vec<_>>());
}

#[test]
fn small_and_large_broadcast_have_the_same_effect() {
    let mut store = ClientStore::new();
    let (sender, mut receiver) = channel();
    let (other, mut other_receiver) = channel();
    store.insert(1, sender);
    store.insert(300, other);
    store.broadcast_small(Message::binary(vec![1]));
    let small = (received(&mut receiver), received(&mut other_receiver));
    store.broadcast_large(Message::binary(vec![1]));
    let large = (received(&mut receiver), received(&mut other_receiver));
    assert_eq!(small, (vec![vec![1]], vec![vec![1]]));
    assert_eq!(large, small);
    assert_eq!((store.shard_count(1), store.shard_count(44)), (1, 1));
}
