use mcp::json::Json;
use mcp::jsonrpc::NumberOrString;
use mcp::messages::{BuildError, Error, ErrorCode, Method, Notification, Request, Response};

#[test]
fn server_error_in_range_constructs() {
    assert!(Error::new(ErrorCode::ServerError(-32050), "boom", None).is_ok());
    assert!(Error::new(ErrorCode::ServerError(-32000), "boom", None).is_ok());
    assert!(Error::new(ErrorCode::ServerError(-32099), "boom", None).is_ok());
}

#[test]
fn server_error_outside_range_fails() {
    assert!(matches!(
        Error::new(ErrorCode::ServerError(-31999), "boom", None),
        Err(BuildError::InvalidErrorCode)
    ));
    assert!(matches!(
        Error::new(ErrorCode::ServerError(-32100), "boom", None),
        Err(BuildError::InvalidErrorCode)
    ));
}

#[test]
fn named_codes_always_construct() {
    assert!(Error::new(ErrorCode::ParseError, "p", None).is_ok());
    assert!(Error::new(ErrorCode::InvalidRequest, "i", None).is_ok());
    assert!(Error::new(ErrorCode::MethodNotFound, "m", None).is_ok());
    assert!(Error::new(ErrorCode::InvalidParams, "i", None).is_ok());
    assert!(Error::new(ErrorCode::InternalError, "i", None).is_ok());
}

#[test]
fn response_with_result_xor_error_constructs() {
    let ok = Response::new(NumberOrString::Number(1), Some(Json::Null), None);
    assert!(ok.is_ok());
    let err = Error::new(ErrorCode::InternalError, "broke", None).unwrap();
    let ok2 = Response::new(NumberOrString::Number(2), None, Some(err));
    assert!(ok2.is_ok());
}

#[test]
fn response_with_both_fails() {
    let err = Error::new(ErrorCode::InternalError, "broke", None).unwrap();
    assert!(matches!(
        Response::new(NumberOrString::Number(1), Some(Json::Null), Some(err)),
        Err(BuildError::InvalidResponseShape)
    ));
}

#[test]
fn response_with_neither_fails() {
    assert!(matches!(
        Response::new(NumberOrString::Number(1), None, None),
        Err(BuildError::InvalidResponseShape)
    ));
}

#[test]
fn built_request_goes_on_the_wire_under_its_method_name() {
    let rq = Request::new(Method::ToolsCall, NumberOrString::Number(9), None);
    let wire = rq.into_message();
    assert_eq!(wire.method, "tools/call");
    assert_eq!(wire.id, NumberOrString::Number(9));
    let frame = mcp::framer::frame_message(mcp::jsonrpc::Message::Request(wire));
    assert_eq!(
        String::from_utf8(frame).unwrap(),
        "{\"jsonrpc\":\"2.0\",\"id\":9,\"method\":\"tools/call\"}\n"
    );
}

#[test]
fn built_notification_carries_no_id() {
    let n = Notification::new(Method::Cancelled, Some(Json::Obj(vec![])));
    let wire = n.into_message();
    assert_eq!(wire.method, "notifications/cancelled");
    let frame = mcp::framer::frame_message(mcp::jsonrpc::Message::Notification(wire));
    assert_eq!(
        String::from_utf8(frame).unwrap(),
        "{\"jsonrpc\":\"2.0\",\"method\":\"notifications/cancelled\",\"params\":{}}\n"
    );
}

#[test]
fn built_error_response_frames_its_code() {
    let err = Error::new(ErrorCode::ServerError(-32050), "busy", None).unwrap();
    let resp = Response::new(NumberOrString::Number(4), None, Some(err)).unwrap();
    let frame = mcp::framer::frame_message(mcp::jsonrpc::Message::Response(resp.into_message()));
    assert_eq!(
        String::from_utf8(frame).unwrap(),
        "{\"jsonrpc\":\"2.0\",\"id\":4,\"error\":{\"code\":-32050,\"message\":\"busy\"}}\n"
    );
}

#[test]
fn method_wire_names_cover_the_catalog() {
    assert_eq!(Method::Initialize.wire_name(), "initialize");
    assert_eq!(Method::Ping.wire_name(), "ping");
    assert_eq!(Method::Progress.wire_name(), "notifications/progress");
    assert_eq!(Method::PromptsList.wire_name(), "prompts/list");
    assert_eq!(Method::PromptsGet.wire_name(), "prompts/get");
    assert_eq!(Method::PromptListChanged.wire_name(), "notifications/prompts/list_changed");
    assert_eq!(Method::ResourcesList.wire_name(), "resources/list");
    assert_eq!(Method::ResourcesRead.wire_name(), "resources/read");
    assert_eq!(Method::ResourcesListChanged.wire_name(), "notifications/resources/list_changed");
    assert_eq!(Method::ResourcesSubscribe.wire_name(), "resources/subscribe");
    assert_eq!(Method::ResourcesUpdated.wire_name(), "notifications/resources/updated");
    assert_eq!(Method::ToolsList.wire_name(), "tools/list");
    assert_eq!(Method::ToolsListChanged.wire_name(), "notifications/tools/list_changed");
    assert_eq!(Method::Completion.wire_name(), "completion/complete");
    assert_eq!(Method::LoggingSetLevel.wire_name(), "logging/setLevel");
    assert_eq!(Method::Message.wire_name(), "notifications/message");
    assert_eq!(Method::RootsList.wire_name(), "roots/list");
    assert_eq!(Method::RootsListChanged.wire_name(), "notifications/roots/list_changed");
    assert_eq!(Method::SamplingCreateMessage.wire_name(), "sampling/createMessage");
}
