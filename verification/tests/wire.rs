use mcp::framer::{decode_line, frame_message, step_on_line, FramerStep};
use mcp::json::Json;
use mcp::jsonrpc::{DecodeError, ErrorCode, ErrorData, Message, Notification, NumberOrString, Request, Response};

fn obj(membs: Vec<(&str, Json)>) -> Json {
    Json::Obj(membs.into_iter().map(|(k, v)| (k.to_string(), v)).collect())
}

#[test]
fn cancelled_line_is_notification_without_id() {
    let line = br#"{"jsonrpc":"2.0","method":"notifications/cancelled","params":{"requestId":1}}"#;
    match decode_line(line) {
        Ok(Message::Notification(n)) => {
            assert_eq!(n.method, "notifications/cancelled");
            assert_eq!(n.params, Some(obj(vec![("requestId", Json::Int(1))])));
        }
        other => panic!("expected a notification, got {:?}", other),
    }
}

#[test]
fn string_id_result_line_is_response() {
    let line = br#"{"jsonrpc":"2.0","id":"69","result":{"foo":"bar"}}"#;
    match decode_line(line) {
        Ok(Message::Response(r)) => {
            assert_eq!(r.id, Some(NumberOrString::String("69".to_string())));
            assert_eq!(r.result, Some(obj(vec![("foo", Json::Str("bar".to_string()))])));
            assert!(r.error.is_none());
        }
        other => panic!("expected a response, got {:?}", other),
    }
}

#[test]
fn error_line_classifies_to_invalid_request() {
    let line = br#"{"jsonrpc":"2.0","id":"69","error":{"code":-32600,"message":"oops"}}"#;
    match decode_line(line) {
        Ok(Message::Error(e)) => {
            assert_eq!(e.id, Some(NumberOrString::String("69".to_string())));
            assert_eq!(e.error.code, ErrorCode::InvalidRequest);
            assert_eq!(e.error.message, "oops");
            assert!(e.error.data.is_none());
        }
        other => panic!("expected an error message, got {:?}", other),
    }
}

#[test]
fn empty_object_line_is_null() {
    assert_eq!(decode_line(b"{}"), Ok(Message::Null));
}

#[test]
fn invalid_json_is_protocol_decode_error() {
    assert_eq!(decode_line(b"{nope"), Err(DecodeError::ProtocolDecodeError));
}

#[test]
fn non_object_line_is_malformed() {
    assert_eq!(
        decode_line(b"42"),
        Err(DecodeError::MalformedMessage {
            has_id: false,
            has_method: false,
            has_result: false,
            has_error: false
        })
    );
}

#[test]
fn unknown_error_code_is_malformed() {
    let line = br#"{"jsonrpc":"2.0","id":1,"error":{"code":-1,"message":"custom"}}"#;
    assert_eq!(
        decode_line(line),
        Err(DecodeError::MalformedMessage {
            has_id: true,
            has_method: false,
            has_result: false,
            has_error: true
        })
    );
}

#[test]
fn frame_of_request_is_exact_line() {
    let m = Message::Request(Request {
        id: NumberOrString::Number(1),
        method: "ping".to_string(),
        params: None,
    });
    let frame = frame_message(m);
    assert_eq!(
        String::from_utf8(frame).unwrap(),
        "{\"jsonrpc\":\"2.0\",\"id\":1,\"method\":\"ping\"}\n"
    );
}

#[test]
fn frame_escapes_strings() {
    let m = Message::Notification(Notification {
        method: "notifications/message".to_string(),
        params: Some(obj(vec![("text", Json::Str("a\"b\\c\nd\te\u{1}".to_string()))])),
    });
    let frame = frame_message(m);
    assert_eq!(
        String::from_utf8(frame).unwrap(),
        "{\"jsonrpc\":\"2.0\",\"method\":\"notifications/message\",\"params\":{\"text\":\"a\\\"b\\\\c\\nd\\te\\u0001\"}}\n"
    );
}

#[test]
fn frame_writes_negative_and_large_numbers() {
    let m = Message::Response(Response {
        id: Some(NumberOrString::Number(-12)),
        result: Some(Json::Arr(vec![Json::Int(0), Json::Int(i64::MIN), Json::Int(i64::MAX)])),
        error: None,
    });
    let frame = frame_message(m);
    assert_eq!(
        String::from_utf8(frame).unwrap(),
        "{\"jsonrpc\":\"2.0\",\"id\":-12,\"result\":[0,-9223372036854775808,9223372036854775807]}\n"
    );
}

fn round_trips(build: impl Fn() -> Message) {
    let mut frame = frame_message(build());
    assert_eq!(frame.pop(), Some(b'\n'));
    let back = decode_line(&frame).expect("frame must decode");
    assert_eq!(back, build());
}

#[test]
fn encode_then_decode_round_trips() {
    round_trips(|| Message::Request(Request {
        id: NumberOrString::Number(3),
        method: "tools/call".to_string(),
        params: Some(obj(vec![
            ("name", Json::Str("échô".to_string())),
            ("args", Json::Arr(vec![Json::Null, Json::Bool(false), Json::Int(-5)])),
        ])),
    }));
    round_trips(|| Message::Response(Response {
        id: Some(NumberOrString::String("69".to_string())),
        result: Some(obj(vec![("foo", Json::Str("bar".to_string()))])),
        error: None,
    }));
    round_trips(|| Message::Notification(Notification {
        method: "notifications/progress".to_string(),
        params: None,
    }));
    round_trips(|| Message::Error(mcp::jsonrpc::Error {
        id: None,
        error: ErrorData {
            code: ErrorCode::ServerError(-32042),
            message: "went wrong".to_string(),
            data: Some(obj(vec![("hint", Json::Str("none".to_string()))])),
        },
    }));
    round_trips(|| Message::Null);
}

#[test]
fn step_skips_empty_lines_only() {
    assert!(matches!(step_on_line(b""), FramerStep::Skip));
    match step_on_line(b"{}") {
        FramerStep::Deliver(Message::Null) => {}
        other => panic!("expected a delivered null message, got {:?}", other),
    }
    match step_on_line(b"not json") {
        FramerStep::Report(DecodeError::ProtocolDecodeError) => {}
        other => panic!("expected a report, got {:?}", other),
    }
}

#[test]
fn duplicate_keys_keep_last_value_like_the_parser() {
    // serde_json's object keeps the last of two equal keys; the envelope
    // extraction then sees only that one.
    let line = br#"{"id":1,"id":2,"method":"ping"}"#;
    match decode_line(line) {
        Ok(Message::Request(r)) => assert_eq!(r.id, NumberOrString::Number(2)),
        other => panic!("expected a request, got {:?}", other),
    }
}

#[test]
fn non_integer_numbers_ride_through_as_text() {
    match decode_line(br#"{"id":1,"method":"x","params":{"v":2.5}}"#) {
        Ok(Message::Request(r)) => {
            assert_eq!(r.params, Some(obj(vec![("v", Json::Num("2.5".to_string()))])));
        }
        other => panic!("expected a request, got {:?}", other),
    }
    match decode_line(br#"{"id":1,"method":"x","params":{"v":18446744073709551615}}"#) {
        Ok(Message::Request(r)) => {
            assert_eq!(
                r.params,
                Some(obj(vec![("v", Json::Num("18446744073709551615".to_string()))]))
            );
        }
        other => panic!("expected a request, got {:?}", other),
    }
}

#[test]
fn number_text_is_framed_as_it_stands() {
    let m = Message::Request(Request {
        id: NumberOrString::Number(8),
        method: "x".to_string(),
        params: Some(obj(vec![("v", Json::Num("2.5".to_string()))])),
    });
    let frame = frame_message(m);
    assert_eq!(
        String::from_utf8(frame).unwrap(),
        "{\"jsonrpc\":\"2.0\",\"id\":8,\"method\":\"x\",\"params\":{\"v\":2.5}}\n"
    );
}

#[test]
fn fractional_number_round_trips() {
    round_trips(|| Message::Request(Request {
        id: NumberOrString::Number(8),
        method: "x".to_string(),
        params: Some(obj(vec![("v", Json::Num("2.5".to_string()))])),
    }));
}

#[test]
fn fractional_id_is_malformed() {
    assert_eq!(
        decode_line(br#"{"id":1.5,"method":"x"}"#),
        Err(DecodeError::MalformedMessage {
            has_id: true,
            has_method: true,
            has_result: false,
            has_error: false
        })
    );
}

#[test]
fn id_beyond_the_identifier_width_is_malformed() {
    assert_eq!(
        decode_line(br#"{"id":3000000000,"method":"x"}"#),
        Err(DecodeError::MalformedMessage {
            has_id: true,
            has_method: true,
            has_result: false,
            has_error: false
        })
    );
}

/// Both the parser's own recursion limit and the library's depth budget
/// refuse a line nested past what either can hold; within both, it passes.
#[test]
fn nesting_beyond_the_depth_budget_fails_the_line() {
    let mut line = Vec::new();
    line.extend_from_slice(br#"{"method":"x","params":"#);
    for _ in 0..100 {
        line.extend_from_slice(b"[");
    }
    line.extend_from_slice(b"1");
    for _ in 0..100 {
        line.extend_from_slice(b"]");
    }
    line.extend_from_slice(b"}");
    assert!(decode_line(&line).is_ok(), "nesting within the budget must pass");
    let mut deep = Vec::new();
    deep.extend_from_slice(br#"{"method":"x","params":"#);
    for _ in 0..140 {
        deep.extend_from_slice(b"[");
    }
    deep.extend_from_slice(b"1");
    for _ in 0..140 {
        deep.extend_from_slice(b"]");
    }
    deep.extend_from_slice(b"}");
    assert_eq!(decode_line(&deep), Err(DecodeError::ProtocolDecodeError));
}

#[test]
fn escaped_text_is_unescaped_on_decode() {
    let line = br#"{"method":"x","params":{"t":"aA\n\"\\"}}"#;
    match decode_line(line) {
        Ok(Message::Notification(n)) => {
            assert_eq!(n.params, Some(obj(vec![("t", Json::Str("aA\n\"\\".to_string()))])));
        }
        other => panic!("expected a notification, got {:?}", other),
    }
}

#[test]
fn ill_typed_method_field_is_malformed() {
    assert_eq!(
        decode_line(br#"{"method":5}"#),
        Err(DecodeError::MalformedMessage {
            has_id: false,
            has_method: true,
            has_result: false,
            has_error: false
        })
    );
}
