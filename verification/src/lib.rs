//! The rules of a WebSocket broadcast service.
//!
//! Publishers post messages; those that are not dropped for want of room, of an audience or of time
//! are broadcast, wrapped into a JSON object, to every subscriber that is connected. The library
//! holds what the service decides: who is let in ([`auth`]), who is connected ([`registry`],
//! [`session`]), what becomes of a published message on its way through the queue ([`publish`],
//! [`batch`], [`broadcaster`]), how it is handed to the clients ([`clients`]), and how requests are
//! refused ([`errors`]). What holds of all connections together is stated in [`system`], and what
//! holds of the way from the queue to the subscribers in [`service`]. What each operation promises
//! to its callers is gathered in [`promises`].
//!
//! Sockets, timers and the environment are left to the program around it, which reports what
//! happened and does what it is told.

pub mod auth;
pub mod batch;
pub mod broadcaster;
pub mod channel;
pub mod clients;
pub mod clock;
pub mod errors;
pub mod json;
pub mod message;
pub mod payload;
pub mod promises;
pub mod publish;
pub mod queue;
pub mod registry;
pub mod server;
pub mod service;
pub mod session;
pub mod shard_map;
pub mod system;
pub mod tally;
pub mod text;
pub mod token_map;

pub use vstd::hash_map::StringHashMap;
pub use vstd::hash_set::StringHashSet;
