//! Where the service listens, and what it says of its health.

use crate::text::{self, port_number};
use vstd::prelude::*;

verus! {

/// The port that the service listens on unless it is told otherwise.
pub const DEFAULT_PORT: u16 = 3030;

/// The answer to a health check.
pub struct HealthResponse {
    /// The state of the service.
    pub status: &'static str,
}

/// The port to listen on: the one that the variable of the environment names, or the default where
/// it is not set or names none.
pub fn listen_port(variable: Option<&str>) -> (port: u16)
    ensures
        port == (match variable {
            Some(text) => match port_number(text@) {
                Some(number) => number,
                None => DEFAULT_PORT,
            },
            None => DEFAULT_PORT,
        }),
{
    match variable {
        Some(text) => match text::parse_u16(text) {
            Some(number) => number,
            None => DEFAULT_PORT,
        },
        None => DEFAULT_PORT,
    }
}

/// The service is well whenever it can answer.
pub fn health() -> (response: HealthResponse)
    ensures
        response.status@ == "ok"@,
{
    HealthResponse { status: "ok" }
}

} // verus!
