use mcp::jsonrpc::{DecodeError, ErrorCode, ErrorData, Message, NumberOrString, Raw};

fn empty_raw() -> Raw {
    Raw { jsonrpc: None, id: None, method: None, params: None, result: None, error: None }
}

fn some_error() -> ErrorData {
    ErrorData { code: ErrorCode::InvalidRequest, message: "oops".to_string(), data: None }
}

#[test]
fn classify_error_wins_over_everything() {
    let raw = Raw {
        jsonrpc: Some("2.0".to_string()),
        id: Some(NumberOrString::Number(7)),
        method: Some("ping".to_string()),
        params: None,
        result: Some(mcp::json::Json::Null),
        error: Some(some_error()),
    };
    match Message::classify(raw) {
        Ok(Message::Error(e)) => {
            assert_eq!(e.id, Some(NumberOrString::Number(7)));
            assert_eq!(e.error.code, ErrorCode::InvalidRequest);
        }
        other => panic!("expected an error message, got {:?}", other),
    }
}

#[test]
fn classify_result_yields_response() {
    let mut raw = empty_raw();
    raw.id = Some(NumberOrString::Number(1));
    raw.result = Some(mcp::json::Json::Bool(true));
    match Message::classify(raw) {
        Ok(Message::Response(r)) => {
            assert_eq!(r.id, Some(NumberOrString::Number(1)));
            assert_eq!(r.result, Some(mcp::json::Json::Bool(true)));
            assert!(r.error.is_none());
        }
        other => panic!("expected a response, got {:?}", other),
    }
}

#[test]
fn classify_method_with_id_yields_request() {
    let mut raw = empty_raw();
    raw.id = Some(NumberOrString::String("a".to_string()));
    raw.method = Some("tools/list".to_string());
    match Message::classify(raw) {
        Ok(Message::Request(r)) => {
            assert_eq!(r.id, NumberOrString::String("a".to_string()));
            assert_eq!(r.method, "tools/list");
            assert!(r.params.is_none());
        }
        other => panic!("expected a request, got {:?}", other),
    }
}

#[test]
fn classify_method_without_id_yields_notification() {
    let mut raw = empty_raw();
    raw.method = Some("ping".to_string());
    match Message::classify(raw) {
        Ok(Message::Notification(n)) => {
            assert_eq!(n.method, "ping");
        }
        other => panic!("expected a notification, got {:?}", other),
    }
}

#[test]
fn classify_nothing_yields_null() {
    assert_eq!(Message::classify(empty_raw()), Ok(Message::Null));
}

#[test]
fn classify_id_alone_is_malformed() {
    let mut raw = empty_raw();
    raw.id = Some(NumberOrString::Number(5));
    assert_eq!(
        Message::classify(raw),
        Err(DecodeError::MalformedMessage {
            has_id: true,
            has_method: false,
            has_result: false,
            has_error: false
        })
    );
}

#[test]
fn code_of_int_named_codes() {
    assert_eq!(mcp::jsonrpc::code_of_int(-32700), Some(ErrorCode::ParseError));
    assert_eq!(mcp::jsonrpc::code_of_int(-32600), Some(ErrorCode::InvalidRequest));
    assert_eq!(mcp::jsonrpc::code_of_int(-32601), Some(ErrorCode::MethodNotFound));
    assert_eq!(mcp::jsonrpc::code_of_int(-32602), Some(ErrorCode::InvalidParams));
    assert_eq!(mcp::jsonrpc::code_of_int(-32603), Some(ErrorCode::InternalError));
    assert_eq!(mcp::jsonrpc::code_of_int(-32050), Some(ErrorCode::ServerError(-32050)));
    assert_eq!(mcp::jsonrpc::code_of_int(0), None);
    assert_eq!(mcp::jsonrpc::code_of_int(-31999), None);
    assert_eq!(mcp::jsonrpc::code_of_int(-32100), None);
}

#[test]
fn code_int_is_inverse_of_code_of_int() {
    for n in [-32700i64, -32600, -32601, -32602, -32603, -32000, -32050, -32099] {
        let c = mcp::jsonrpc::code_of_int(n).unwrap();
        assert_eq!(c.code_int(), n);
    }
}
