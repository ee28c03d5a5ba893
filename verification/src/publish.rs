//! Publishing: from a posted message to the broadcaster's queue.

use crate::broadcaster::{
    frame, is_completed, is_dispatch, is_send, law_batch_reaches_client,
    law_live_message_is_delivered, live_frames, news, Broadcaster, Dispatch, SendProgress,
};
use crate::channel::{feeds, ClientReceiver, ClientSender};
use crate::clock::{since, whole_millis};
use crate::errors::ApiError;
use crate::json::{self, object_text};
use crate::message::{ClientMessage, MESSAGE_TTL_MS};
use crate::payload::{self, binary, content};
use std::sync::Arc;
use std::time::Instant;
use vstd::prelude::*;
use vstd::string::to_string_from_display_ensures;
use vstd::utf8::encode_utf8;

verus! {

/// What a publisher posts.
pub struct PostData {
    /// The message.
    pub message: String,
}

/// The answer to a publisher.
pub struct PublishResponse {
    /// Whether the message was processed.
    pub success: bool,
}

/// The payload that a message is delivered with: a JSON object around it, in UTF-8.
pub open spec fn payload_of(message: Seq<char>) -> Seq<u8> {
    encode_utf8(object_text("message"@, message))
}

/// The bytes of a JSON text, or the failure to write it as an error of the service, in the words of
/// the failure.
pub fn written_json(written: Result<Vec<u8>, serde_json::Error>) -> (bytes: Result<
    Vec<u8>,
    ApiError,
>)
    ensures
        match written {
            Ok(written) => bytes == Ok::<Vec<u8>, ApiError>(written),
            Err(error) => bytes matches Err(ApiError::Internal(text))
                && to_string_from_display_ensures(&error, text),
        },
{
    match written {
        Ok(bytes) => Ok(bytes),
        Err(error) => Err(ApiError::Internal(error.to_string())),
    }
}

/// The message to broadcast for what was posted at the instant `now`.
pub fn message_at(data: PostData, now: Instant) -> (message: Result<ClientMessage, ApiError>)
    ensures
        message matches Ok(message) && content(*message.data) == payload_of(data.message@)
            && message.timestamp == now,
{
    let bytes = written_json(json::object_to_vec("message".to_owned(), data.message))?;
    Ok(ClientMessage { data: Arc::new(payload::from_vec(bytes)), timestamp: now })
}

/// Wraps what was posted at the instant `now` into a message and tries to put it into the
/// broadcaster's queue.
pub fn publish_message_at(data: PostData, now: Instant, broadcaster: &mut Broadcaster) -> (progress:
    Result<SendProgress, ApiError>)
    ensures
        progress matches Ok(progress) && exists|message: ClientMessage|
            #![trigger is_send(old(broadcaster).tx, message, final(broadcaster).tx, progress)]
            content(*message.data) == payload_of(data.message@) && message.timestamp == now
                && is_send(old(broadcaster).tx, message, final(broadcaster).tx, progress),
{
    let message = message_at(data, now)?;
    Ok(broadcaster.send(message))
}

/// Wraps what was posted into a message as of now, and tries to put it into the broadcaster's queue.
pub fn publish_message(data: PostData, broadcaster: &mut Broadcaster) -> (progress: Result<
    SendProgress,
    ApiError,
>)
    ensures
        progress matches Ok(progress) && exists|message: ClientMessage|
            #![trigger is_send(old(broadcaster).tx, message, final(broadcaster).tx, progress)]
            content(*message.data) == payload_of(data.message@) && is_send(
                old(broadcaster).tx,
                message,
                final(broadcaster).tx,
                progress,
            ),
{
    publish_message_at(data, Instant::now(), broadcaster)
}

/// The answer to a publisher once it is settled whether the queue took the message. It is the same
/// either way: a message that the queue had no room for is dropped in silence.
pub fn publish_response(taken: bool) -> (response: PublishResponse)
    ensures
        response.success,
{
    PublishResponse { success: true }
}

/// A posted text reaches whoever receives on the channel of a registered client: of a batch with the
/// message for a text that was posted at the instant `posted`, and that is judged at an instant when
/// it has not outlived its time to live, the receiver is fed a binary message with the payload of the
/// text.
pub proof fn law_posted_text_reaches_receiver(
    text: Seq<char>,
    posted: Instant,
    judged: Instant,
    messages: Seq<ClientMessage>,
    ages: Seq<u128>,
    i: int,
    before: Map<usize, ClientSender>,
    conn_count: usize,
    dispatch: Dispatch,
    between: Map<usize, ClientSender>,
    after: Map<usize, ClientSender>,
    id: usize,
    receiver: ClientReceiver,
)
    requires
        messages.len() == ages.len(),
        0 <= i < messages.len(),
        content(*messages[i].data) == payload_of(text),
        messages[i].timestamp == posted,
        ages[i] == whole_millis(since(judged, messages[i].timestamp)),
        whole_millis(since(judged, posted)) <= MESSAGE_TTL_MS,
        is_dispatch(before, live_frames(messages, ages), conn_count, dispatch, between),
        is_completed(dispatch, between, after),
        before.contains_key(id),
        feeds(before[id], receiver),
    ensures
        feeds(after[id], receiver),
        news(before[id], after[id]).contains(binary(payload_of(text))),
{
    let frames = live_frames(messages, ages);
    let served = news(before[id], after[id]);
    law_live_message_is_delivered(messages, ages, i);
    law_batch_reaches_client(before, frames, conn_count, dispatch, between, after, id);
    frames.to_multiset_ensures();
    served.to_multiset_ensures();
    assert(frames.to_multiset().contains(frame(messages[i])));
}

} // verus!
