//! Message payloads: `bytes::Bytes`, and the WebSocket messages made from them.

use bytes::Bytes;
use vstd::prelude::*;
use warp::ws::Message;

verus! {

/// `bytes::Bytes`.
#[verifier::external_type_specification]
#[verifier::external_body]
pub struct ExBytes(bytes::Bytes);

/// The bytes that a `Bytes` holds.
pub uninterp spec fn content(payload: Bytes) -> Seq<u8>;

/// The binary WebSocket message with this payload, as `warp::ws::Message::binary` makes it.
pub uninterp spec fn binary(data: Seq<u8>) -> Message;

/// `<Bytes as From<Vec<u8>>>::from`: the result holds the bytes of the vector.
#[verifier::external_body]
pub(crate) fn from_vec(data: Vec<u8>) -> (payload: Bytes)
    ensures
        content(payload) == data@,
{
    Bytes::from(data)
}

/// `to_vec` on the slice that a `Bytes` dereferences to: a copy of the bytes that it holds.
#[verifier::external_body]
pub(crate) fn to_vec(payload: &Bytes) -> (data: Vec<u8>)
    ensures
        data@ == content(*payload),
{
    payload.to_vec()
}

/// `warp::ws::Message::binary`: the binary message with this payload, which depends on nothing else.
#[verifier::external_body]
pub(crate) fn binary_message(data: Vec<u8>) -> (message: Message)
    ensures
        message == binary(data@),
{
    Message::binary(data)
}

} // verus!
