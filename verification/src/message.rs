//! Published messages and how long they stay deliverable.

use crate::clock::{since, whole_millis};
use bytes::Bytes;
use std::sync::Arc;
use std::time::Instant;
use vstd::prelude::*;

verus! {

/// A message older than this many whole milliseconds is not delivered any more.
pub const MESSAGE_TTL_MS: u128 = 2000;

/// A published message, and when it was published.
pub struct ClientMessage {
    /// The payload.
    pub data: Arc<Bytes>,
    /// When the message was published.
    pub timestamp: Instant,
}

impl Clone for ClientMessage {
    fn clone(&self) -> (copy: Self)
        ensures
            copy == *self,
    {
        ClientMessage { data: self.data.clone(), timestamp: self.timestamp }
    }
}

/// `age` is the age of `message` in whole milliseconds at some reading of the clock.
pub open spec fn is_age_of(age: u128, message: ClientMessage) -> bool {
    exists|now: Instant| age == whole_millis(#[trigger] since(now, message.timestamp))
}

/// `ages` are the ages of `messages`, one for one, each at some reading of the clock.
pub open spec fn are_ages_of(ages: Seq<u128>, messages: Seq<ClientMessage>) -> bool {
    &&& ages.len() == messages.len()
    &&& forall|k: int| 0 <= k < ages.len() ==> is_age_of(#[trigger] ages[k], messages[k])
}

impl ClientMessage {
    /// The age of the message by now, in whole milliseconds.
    pub(crate) fn age_ms(&self) -> (age: u128)
        ensures
            is_age_of(age, *self),
    {
        self.timestamp.elapsed().as_millis()
    }

    /// Whether the message has outlived its time to live by now.
    pub fn is_expired(&self) -> (expired: bool)
        ensures
            exists|now: Instant|
                expired == (whole_millis(#[trigger] since(now, self.timestamp)) > MESSAGE_TTL_MS),
    {
        Self::is_expired_at_age(self.age_ms())
    }

    /// Whether a message of this age, in whole milliseconds, has outlived its time to live.
    pub fn is_expired_at_age(age_ms: u128) -> (expired: bool)
        ensures
            expired == (age_ms > MESSAGE_TTL_MS),
    {
        age_ms > MESSAGE_TTL_MS
    }
}

} // verus!
