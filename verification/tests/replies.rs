use pulsecast::errors::{handle_errors, ApiError};
use pulsecast::server::{health, listen_port};

#[test]
fn errors_are_put_into_words() {
    assert_eq!(ApiError::Unauthorized.message(), "Unauthorized");
    assert_eq!(ApiError::TooManyConnections.message(), "Too many connections");
    assert_eq!(
        ApiError::Internal("disk on fire".to_string()).message(),
        "Internal server error: disk on fire"
    );
}

fn check(not_found: bool, cause: Option<&ApiError>, status: u16, body: &str) {
    let reply = handle_errors(not_found, cause);
    assert_eq!(reply.status, status);
    assert_eq!(reply.content_type, "application/json");
    assert_eq!(reply.body, body.as_bytes());
}

#[test]
fn refusals_are_answered_by_their_cause() {
    check(false, Some(&ApiError::Unauthorized), 401, "{\"error\":\"Unauthorized\"}");
    check(
        false,
        Some(&ApiError::TooManyConnections),
        503,
        "{\"error\":\"Too Many Connections\"}",
    );
    check(
        false,
        Some(&ApiError::Internal("secret".to_string())),
        500,
        "{\"error\":\"Internal Error\"}",
    );
    check(false, None, 500, "{\"error\":\"Internal Error\"}");
}

#[test]
fn missing_route_takes_precedence() {
    check(true, None, 404, "{\"error\":\"Not Found\"}");
    check(true, Some(&ApiError::Unauthorized), 404, "{\"error\":\"Not Found\"}");
}

#[test]
fn port_comes_from_the_variable_if_it_names_one() {
    assert_eq!(listen_port(Some("8080")), 8080);
    assert_eq!(listen_port(Some("0")), 0);
    assert_eq!(listen_port(Some("65535")), 65535);
    assert_eq!(listen_port(Some("+80")), 80);
    assert_eq!(listen_port(Some("00080")), 80);
}

#[test]
fn port_is_the_default_otherwise() {
    assert_eq!(listen_port(None), 3030);
    for text in ["", "+", "-1", "-0", "65536", "99999999999999999999", " 80", "80 ", "8_0", "0x50", "++1", "٣"] {
        assert_eq!(listen_port(Some(text)), 3030);
    }
}

#[test]
fn service_is_well() {
    assert_eq!(health().status, "ok");
}
