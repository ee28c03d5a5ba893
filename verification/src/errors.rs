//! What a request is refused for, and how the refusal is answered.

use vstd::prelude::*;

verus! {

/// Why a request is refused.
#[derive(Debug)]
pub enum ApiError {
    /// The request carries no valid token.
    Unauthorized,
    /// No further connection is admitted.
    TooManyConnections,
    /// The service failed.
    Internal(String),
}

impl ApiError {
    /// The error in words.
    pub open spec fn text(&self) -> Seq<char> {
        match self {
            ApiError::Unauthorized => "Unauthorized"@,
            ApiError::TooManyConnections => "Too many connections"@,
            ApiError::Internal(msg) => "Internal server error: "@ + msg@,
        }
    }

    /// The error in words.
    pub fn message(&self) -> (message: String)
        ensures
            message@ == self.text(),
    {
        match self {
            ApiError::Unauthorized => String::from_str("Unauthorized"),
            ApiError::TooManyConnections => String::from_str("Too many connections"),
            ApiError::Internal(msg) => {
                String::from_str("Internal server error: ").concat(msg.as_str())
            },
        }
    }
}

/// The answer to a request that is refused.
pub struct ErrorReply {
    /// The HTTP status.
    pub status: u16,
    /// The content type of the body.
    pub content_type: &'static str,
    /// The body.
    pub body: Vec<u8>,
}

/// The status of the answer to a refused request. A route that does not exist takes precedence; a
/// refusal for no cause of the service's own counts as a failure.
pub open spec fn status_of(not_found: bool, cause: Option<&ApiError>) -> u16 {
    if not_found {
        404
    } else {
        match cause {
            Some(ApiError::Unauthorized) => 401,
            Some(ApiError::TooManyConnections) => 503,
            Some(ApiError::Internal(_)) => 500,
            None => 500,
        }
    }
}

/// The JSON body that belongs to a status.
pub open spec fn body_of(status: u16) -> Seq<char> {
    if status == 404 {
        "{\"error\":\"Not Found\"}"@
    } else if status == 401 {
        "{\"error\":\"Unauthorized\"}"@
    } else if status == 503 {
        "{\"error\":\"Too Many Connections\"}"@
    } else {
        "{\"error\":\"Internal Error\"}"@
    }
}

/// Answers a refused request, given whether no route matched it and which error of the service it
/// was refused for.
pub fn handle_errors(not_found: bool, cause: Option<&ApiError>) -> (reply: ErrorReply)
    ensures
        reply.status == status_of(not_found, cause),
        reply.content_type@ == "application/json"@,
        reply.body@ == vstd::utf8::encode_utf8(body_of(reply.status)),
{
    let (status, message): (u16, &'static str) = if not_found {
        (404, "{\"error\":\"Not Found\"}")
    } else {
        match cause {
            Some(ApiError::Unauthorized) => (401, "{\"error\":\"Unauthorized\"}"),
            Some(ApiError::TooManyConnections) => (503, "{\"error\":\"Too Many Connections\"}"),
            Some(ApiError::Internal(_)) => (500, "{\"error\":\"Internal Error\"}"),
            None => (500, "{\"error\":\"Internal Error\"}"),
        }
    };
    ErrorReply { status, content_type: "application/json", body: message.as_bytes_vec() }
}

/// What went wrong inside the service is not told: the answer to a failure is the same for all of
/// them.
pub proof fn law_failures_are_answered_alike(not_found: bool, a: String, b: String)
    ensures
        status_of(not_found, Some(&ApiError::Internal(a))) == status_of(
            not_found,
            Some(&ApiError::Internal(b)),
        ),
        status_of(not_found, Some(&ApiError::Internal(a))) == status_of(not_found, None),
{
}

/// Each cause of a refusal has a status of its own.
pub proof fn law_causes_are_told_apart(a: ApiError, b: ApiError)
    requires
        status_of(false, Some(&a)) == status_of(false, Some(&b)),
    ensures
        a is Unauthorized <==> b is Unauthorized,
        a is TooManyConnections <==> b is TooManyConnections,
        a is Internal <==> b is Internal,
{
}

} // verus!
