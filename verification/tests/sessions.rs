use pulsecast::channel::ClientReceiver;
use pulsecast::clients::{MAX_CONNECTIONS, SHARD_COUNT};
use pulsecast::errors::ApiError;
use pulsecast::registry::Registry;
use pulsecast::session::{Session, SessionAction, SessionEvent, SessionPhase};
use warp::ws::Message;

fn open(registry: &mut Registry) -> (Session, usize, ClientReceiver) {
    let mut session = Session::new();
    let action = session.handle_ws(SessionEvent::Requested, registry);
    assert!(matches!(action, SessionAction::Upgrade));
    match session.handle_ws(SessionEvent::Upgraded, registry) {
        SessionAction::Serve { client_id, receiver } => (session, client_id, receiver),
        _ => panic!("not served"),
    }
}

fn clients(registry: &Registry) -> usize {
    (0..SHARD_COUNT).map(|s| registry.clients().shard_count(s)).sum()
}

#[test]
fn registry_starts_without_connections() {
    let registry = Registry::new();
    assert_eq!(registry.active(), 0);
    assert_eq!(registry.stats().active, 0);
    assert_eq!(registry.stats().max, 500_000);
    assert_eq!(clients(&registry), 0);
}

#[test]
fn clients_get_ids_from_one_on() {
    let mut registry = Registry::new();
    for expected in 1..=5 {
        let (session, id, _receiver) = open(&mut registry);
        assert_eq!(id, expected);
        assert!(matches!(session.phase, SessionPhase::Open(open_id) if open_id == expected));
    }
    assert_eq!(registry.active(), 5);
    assert_eq!(clients(&registry), 5);
}

#[test]
fn ids_are_not_used_again() {
    let mut registry = Registry::new();
    let (mut session, first, _receiver) = open(&mut registry);
    session.handle_ws(SessionEvent::Ended, &mut registry);
    let (_session, second, _receiver) = open(&mut registry);
    assert_eq!((first, second), (1, 2));
}

#[test]
fn admitted_connection_counts_before_it_is_open() {
    let mut registry = Registry::new();
    let mut session = Session::new();
    session.handle_ws(SessionEvent::Requested, &mut registry);
    assert!(matches!(session.phase, SessionPhase::Admitted));
    assert_eq!(registry.active(), 1);
    assert_eq!(clients(&registry), 0);
}

#[test]
fn frames_keep_a_session_open_and_cause_no_message() {
    let mut registry = Registry::new();
    let (mut session, id, mut receiver) = open(&mut registry);
    let (_other, _, mut other_receiver) = open(&mut registry);
    for _ in 0..3 {
        let action = session.handle_ws(SessionEvent::Frame, &mut registry);
        assert!(matches!(action, SessionAction::Listen));
    }
    assert!(receiver.try_recv().is_err());
    assert!(other_receiver.try_recv().is_err());
    assert!(matches!(session.phase, SessionPhase::Open(open_id) if open_id == id));
    assert_eq!(registry.active(), 2);
}

#[test]
fn session_ends_with_its_socket_or_by_an_error() {
    for event in [0, 1] {
        let mut registry = Registry::new();
        let (mut session, _, mut receiver) = open(&mut registry);
        let (_other, _, mut other_receiver) = open(&mut registry);
        let event = if event == 0 { SessionEvent::Ended } else { SessionEvent::SocketError };
        match session.handle_ws(event, &mut registry) {
            SessionAction::Finish { remaining } => assert_eq!(remaining, 1),
            _ => panic!("not finished"),
        }
        assert!(matches!(session.phase, SessionPhase::Closed));
        assert_eq!(registry.active(), 1);
        assert_eq!(clients(&registry), 1);
        registry.clients_mut().broadcast(Message::binary(vec![1]), 1);
        assert!(receiver.try_recv().is_err());
        assert_eq!(other_receiver.try_recv().unwrap().unwrap().as_bytes(), &[1]);
    }
}

#[test]
fn registry_is_empty_after_all_sessions_have_ended() {
    let mut registry = Registry::new();
    let mut sessions = Vec::new();
    for _ in 0..200 {
        sessions.push(open(&mut registry));
    }
    assert_eq!(registry.active(), 200);
    assert_eq!(clients(&registry), 200);
    for (session, _, _) in sessions.iter_mut() {
        session.handle_ws(SessionEvent::Ended, &mut registry);
    }
    assert_eq!(registry.active(), 0);
    assert_eq!(clients(&registry), 0);
    for (_, _, receiver) in sessions.iter_mut() {
        assert!(receiver.try_recv().is_err());
    }
}

#[test]
fn session_gets_the_broadcasts_while_it_is_open() {
    let mut registry = Registry::new();
    registry.clients_mut().broadcast(Message::binary(vec![1]), 0);
    let (mut session, _, mut receiver) = open(&mut registry);
    registry.clients_mut().broadcast(Message::binary(vec![2]), 1);
    registry.clients_mut().broadcast(Message::binary(vec![3]), 1);
    session.handle_ws(SessionEvent::Ended, &mut registry);
    registry.clients_mut().broadcast(Message::binary(vec![4]), 0);
    assert_eq!(receiver.try_recv().unwrap().unwrap().as_bytes(), &[2]);
    assert_eq!(receiver.try_recv().unwrap().unwrap().as_bytes(), &[3]);
    assert!(receiver.try_recv().is_err());
}

#[test]
fn connections_are_refused_when_there_are_too_many() {
    let mut registry = Registry::new();
    for _ in 0..MAX_CONNECTIONS {
        assert!(registry.accept().is_ok());
    }
    assert_eq!(registry.active(), 500_000);
    let mut session = Session::new();
    let action = session.handle_ws(SessionEvent::Requested, &mut registry);
    assert!(matches!(action, SessionAction::Reject(ApiError::TooManyConnections)));
    assert!(matches!(session.phase, SessionPhase::Closed));
    assert_eq!(registry.active(), 500_000);
    assert!(matches!(registry.accept(), Err(ApiError::TooManyConnections)));
    assert_eq!(registry.unregister(7), 499_999);
    let mut session = Session::new();
    let action = session.handle_ws(SessionEvent::Requested, &mut registry);
    assert!(matches!(action, SessionAction::Upgrade));
}

#[test]
fn session_ignores_what_it_does_not_wait_for() {
    let mut registry = Registry::new();
    let mut session = Session::new();
    let action = session.handle_ws(SessionEvent::Ended, &mut registry);
    assert!(matches!(action, SessionAction::Ignore));
    assert!(matches!(session.phase, SessionPhase::Requested));
    let (mut session, _, _receiver) = open(&mut registry);
    let action = session.handle_ws(SessionEvent::Upgraded, &mut registry);
    assert!(matches!(action, SessionAction::Ignore));
    session.handle_ws(SessionEvent::Ended, &mut registry);
    let action = session.handle_ws(SessionEvent::Ended, &mut registry);
    assert!(matches!(action, SessionAction::Ignore));
    assert_eq!(registry.active(), 0);
}
