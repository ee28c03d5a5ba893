use pulsecast::broadcaster::{Broadcaster, SendProgress};
use pulsecast::errors::ApiError;
use pulsecast::publish::{
    message_at, publish_message, publish_message_at, publish_response, written_json, PostData,
};
use std::time::{Duration, Instant};

fn payload(text: &str) -> Vec<u8> {
    let data = PostData { message: text.to_string() };
    message_at(data, Instant::now()).unwrap().data.to_vec()
}

#[test]
fn message_is_wrapped_into_a_json_object() {
    assert_eq!(payload("hello"), b"{\"message\":\"hello\"}");
    assert_eq!(payload(""), b"{\"message\":\"\"}");
    assert_eq!(payload("ü€😀/"), "{\"message\":\"ü€😀/\"}".as_bytes());
}

#[test]
fn special_characters_are_escaped() {
    assert_eq!(payload("a\"b\\c"), b"{\"message\":\"a\\\"b\\\\c\"}");
    assert_eq!(payload("\u{8}\t\n\u{c}\r"), b"{\"message\":\"\\b\\t\\n\\f\\r\"}");
    assert_eq!(payload("\0\u{1f}\u{7f}"), b"{\"message\":\"\\u0000\\u001f\x7f\"}");
}

#[test]
fn control_characters_are_written_in_lower_case_hex() {
    for code in 0u8..0x20 {
        let escape = match code {
            0x8 => "\\b".to_string(),
            0x9 => "\\t".to_string(),
            0xa => "\\n".to_string(),
            0xc => "\\f".to_string(),
            0xd => "\\r".to_string(),
            _ => format!("\\u{:04x}", code),
        };
        let expected = format!("{{\"message\":\"{}\"}}", escape);
        assert_eq!(payload(&(code as char).to_string()), expected.as_bytes());
    }
}

#[test]
fn all_other_characters_are_written_as_they_are() {
    for c in (' '..=char::MAX).filter(|c| *c != '"' && *c != '\\' && *c as u32 % 131 < 2) {
        let expected = format!("{{\"message\":\"{c}\"}}");
        assert_eq!(payload(&c.to_string()), expected.as_bytes());
    }
}

#[test]
fn message_can_be_read_back() {
    for text in ["plain", "\"},\"message\":\"x", "\\u0041", "line\nbreak", "\u{2028}"] {
        let value: serde_json::Value = serde_json::from_slice(&payload(text)).unwrap();
        assert_eq!(value["message"], text);
        assert_eq!(value.as_object().unwrap().len(), 1);
    }
    assert_ne!(payload("\\n"), payload("\n"));
}

#[test]
fn posted_message_goes_into_the_queue() {
    let (mut broadcaster, receiver) = Broadcaster::new();
    let data = PostData { message: "hi".to_string() };
    let progress = publish_message(data, &mut broadcaster).unwrap();
    assert!(matches!(progress, SendProgress::Finished(true)));
    let message = receiver.try_recv().unwrap();
    assert_eq!(message.data.to_vec(), b"{\"message\":\"hi\"}");
    assert!(!message.is_expired());
}

#[test]
fn posted_message_waits_for_room() {
    let (tx, _receiver) = flume::bounded(0);
    let mut broadcaster = Broadcaster { tx };
    let data = PostData { message: "hi".to_string() };
    match publish_message(data, &mut broadcaster).unwrap() {
        SendProgress::Waiting(message) => {
            assert_eq!(message.data.to_vec(), b"{\"message\":\"hi\"}")
        }
        SendProgress::Finished(_) => panic!("did not wait"),
    }
}

#[test]
fn publisher_is_answered_with_success_either_way() {
    assert!(publish_response(true).success);
    assert!(publish_response(false).success);
}

#[test]
fn failure_to_write_json_is_an_internal_error() {
    assert_eq!(written_json(Ok(vec![1, 2])).unwrap(), vec![1, 2]);
    let error = serde_json::from_str::<bool>("nonsense").unwrap_err();
    let text = error.to_string();
    match written_json(Err(error)) {
        Err(ApiError::Internal(message)) => assert_eq!(message, text),
        _ => panic!("not an internal error"),
    }
}

#[test]
fn message_carries_the_instant_of_its_publication() {
    let then = Instant::now() + Duration::from_secs(3);
    let data = PostData { message: "hi".to_string() };
    assert_eq!(message_at(data, then).unwrap().timestamp, then);

    let (mut broadcaster, receiver) = Broadcaster::new();
    let data = PostData { message: "hi".to_string() };
    publish_message_at(data, then, &mut broadcaster).unwrap();
    let message = receiver.try_recv().unwrap();
    assert_eq!(message.timestamp, then);
    assert_eq!(message.data.to_vec(), b"{\"message\":\"hi\"}");

    let before = Instant::now();
    let data = PostData { message: "now".to_string() };
    publish_message(data, &mut broadcaster).unwrap();
    let message = receiver.try_recv().unwrap();
    assert!(before <= message.timestamp && message.timestamp <= Instant::now());
}
