//! The life of one WebSocket connection, from the request to the end of the socket.
//!
//! A session neither upgrades connections nor reads sockets. It is told what happened and answers
//! with what to do next.

use crate::channel::ClientReceiver;
use crate::clients::{is_new_channel, MAX_CONNECTIONS};
use crate::errors::ApiError;
use crate::registry::{
    after_admission, after_departure, after_registration, Registry, RegistryState,
};
use vstd::prelude::*;

verus! {

/// How far a connection has come.
pub enum SessionPhase {
    /// It has been asked for.
    Requested,
    /// It has been admitted, and is being upgraded to a WebSocket.
    Admitted,
    /// It is open, for the client with this id.
    Open(usize),
    /// It was refused, or has ended.
    Closed,
}

/// What happened.
pub enum SessionEvent {
    /// The request passed the token check.
    Requested,
    /// The upgrade is done.
    Upgraded,
    /// The client sent something.
    Frame,
    /// Reading from the socket failed.
    SocketError,
    /// The socket is at its end.
    Ended,
}

/// What to do next.
pub enum SessionAction {
    /// Refuse the request.
    Reject(ApiError),
    /// Upgrade the connection.
    Upgrade,
    /// Forward what comes out of the receiver to the socket, and read from the socket.
    Serve { client_id: usize, receiver: ClientReceiver },
    /// Read further.
    Listen,
    /// Nothing: the connection has ended, and this many are left.
    Finish { remaining: usize },
    /// Nothing: the session was not waiting for this.
    Ignore,
}

/// The transitions of a session and of the registry with it.
pub open spec fn session_step(
    phase: SessionPhase,
    registry: RegistryState,
    event: SessionEvent,
    next_phase: SessionPhase,
    next_registry: RegistryState,
    action: SessionAction,
) -> bool {
    match (phase, event) {
        (SessionPhase::Requested, SessionEvent::Requested) => if registry.active
            >= MAX_CONNECTIONS {
            &&& next_phase is Closed
            &&& next_registry == registry
            &&& action == SessionAction::Reject(ApiError::TooManyConnections)
        } else {
            &&& next_phase is Admitted
            &&& next_registry == after_admission(registry)
            &&& action is Upgrade
        },
        (SessionPhase::Admitted, SessionEvent::Upgraded) => {
            &&& next_phase == SessionPhase::Open(registry.next_client_id)
            &&& action matches SessionAction::Serve { client_id, receiver }
            &&& client_id == registry.next_client_id
            &&& is_new_channel(next_registry.clients[client_id], receiver, registry.clients)
            &&& next_registry == after_registration(registry, next_registry.clients[client_id])
        },
        (SessionPhase::Open(id), SessionEvent::Frame) => {
            &&& next_phase == phase
            &&& next_registry == registry
            &&& action is Listen
        },
        (SessionPhase::Open(id), SessionEvent::SocketError) => closes(
            registry,
            id,
            next_phase,
            next_registry,
            action,
        ),
        (SessionPhase::Open(id), SessionEvent::Ended) => closes(
            registry,
            id,
            next_phase,
            next_registry,
            action,
        ),
        _ => {
            &&& next_phase == phase
            &&& next_registry == registry
            &&& action is Ignore
        },
    }
}

/// The session of the client `id` ends: the client is taken out of the registry.
pub open spec fn closes(
    registry: RegistryState,
    id: usize,
    next_phase: SessionPhase,
    next_registry: RegistryState,
    action: SessionAction,
) -> bool {
    &&& next_phase is Closed
    &&& next_registry == after_departure(registry, id)
    &&& action == SessionAction::Finish { remaining: next_registry.active }
}

/// A WebSocket connection.
pub struct Session {
    /// How far it has come.
    pub phase: SessionPhase,
}

impl Session {
    /// A connection that has been asked for.
    pub fn new() -> (session: Self)
        ensures
            session.phase is Requested,
    {
        Session { phase: SessionPhase::Requested }
    }

    /// Takes in what happened to the connection, keeps the registry up to date, and decides what to
    /// do next.
    pub fn handle_ws(&mut self, event: SessionEvent, registry: &mut Registry) -> (action:
        SessionAction)
        requires
            old(registry).wf(),
        ensures
            final(registry).wf(),
            session_step(
                old(self).phase,
                old(registry)@,
                event,
                final(self).phase,
                final(registry)@,
                action,
            ),
    {
        match (&self.phase, event) {
            (SessionPhase::Requested, SessionEvent::Requested) => match registry.accept() {
                Ok(()) => {
                    self.phase = SessionPhase::Admitted;
                    SessionAction::Upgrade
                },
                Err(error) => {
                    self.phase = SessionPhase::Closed;
                    SessionAction::Reject(error)
                },
            },
            (SessionPhase::Admitted, SessionEvent::Upgraded) => {
                let (client_id, receiver) = registry.register();
                self.phase = SessionPhase::Open(client_id);
                SessionAction::Serve { client_id, receiver }
            },
            (SessionPhase::Open(_), SessionEvent::Frame) => SessionAction::Listen,
            (SessionPhase::Open(id), SessionEvent::SocketError) => {
                let remaining = registry.unregister(*id);
                self.phase = SessionPhase::Closed;
                SessionAction::Finish { remaining }
            },
            (SessionPhase::Open(id), SessionEvent::Ended) => {
                let remaining = registry.unregister(*id);
                self.phase = SessionPhase::Closed;
                SessionAction::Finish { remaining }
            },
            _ => SessionAction::Ignore,
        }
    }
}

/// A connection that was refused or has ended stays so, and touches the registry no more: a client
/// is taken out at most once.
pub proof fn law_closed_is_final(
    registry: RegistryState,
    event: SessionEvent,
    next_phase: SessionPhase,
    next_registry: RegistryState,
    action: SessionAction,
)
    requires
        session_step(
            SessionPhase::Closed,
            registry,
            event,
            next_phase,
            next_registry,
            action,
        ),
    ensures
        next_phase is Closed,
        next_registry == registry,
        action is Ignore,
{
}

} // verus!
