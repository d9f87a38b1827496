use mcp::client::Client;
use mcp::jsonrpc::{ErrorCode, ErrorData, Message, Notification, NumberOrString, Response};
use mcp::methods::{Capabilities, InitializeRequest, RootCapability};
use mcp::registry::{handshake_step, PeerError, PeerRegistry, PeerState};

#[test]
fn ids_are_assigned_in_order() {
    let mut reg = PeerRegistry::new();
    assert_eq!(reg.register(), 0);
    assert_eq!(reg.register(), 1);
    assert_eq!(reg.register(), 2);
    assert_eq!(reg.len(), 3);
}

#[test]
fn stopping_one_peer_leaves_the_others() {
    let mut reg = PeerRegistry::new();
    let n = 5u64;
    for _ in 0..n {
        reg.register();
    }
    let k = 2u64;
    assert_eq!(reg.remove(k), Ok(()));
    assert!(!reg.contains(k));
    for id in 0..n {
        if id != k {
            assert!(reg.contains(id), "peer {} must still be live", id);
        }
    }
    assert_eq!(reg.len(), 4);
}

#[test]
fn operations_on_a_stopped_peer_fail_unknown_peer() {
    let mut reg = PeerRegistry::new();
    reg.register();
    reg.register();
    assert_eq!(reg.remove(1), Ok(()));
    assert_eq!(reg.remove(1), Err(PeerError::UnknownPeer));
    assert_eq!(reg.index_of(1), None);
    assert_eq!(reg.remove(7), Err(PeerError::UnknownPeer));
}

#[test]
fn stopped_ids_are_never_reused() {
    let mut reg = PeerRegistry::new();
    let a = reg.register();
    reg.remove(a).unwrap();
    let b = reg.register();
    assert_ne!(a, b);
    assert_eq!(b, 1);
}

#[test]
fn initialize_request_with_default_capabilities() {
    let rq = InitializeRequest::new("2024-11-05", "arthur", "1.0", None);
    assert_eq!(rq.id, NumberOrString::Number(1));
    assert_eq!(rq.method, "initialize");
    let frame = mcp::framer::frame_message(Message::Request(rq));
    let expected = "{\"jsonrpc\":\"2.0\",\"id\":1,\"method\":\"initialize\",\"params\":{\"protocolVersion\":\"2024-11-05\",\"capabilities\":{\"roots\":{\"listChanged\":true}},\"clientInfo\":{\"name\":\"arthur\",\"version\":\"1.0\"}}}\n";
    assert_eq!(String::from_utf8(frame).unwrap(), expected);
}

#[test]
fn initialize_request_with_explicit_capabilities() {
    let caps = Capabilities {
        roots: Some(RootCapability { list_changed: None }),
        sampling: Some(mcp::methods::SamplingCapability {}),
        experimental: None,
    };
    let rq = InitializeRequest::new("2024-11-05", "c", "0.1", Some(caps));
    let frame = mcp::framer::frame_message(Message::Request(rq));
    let expected = "{\"jsonrpc\":\"2.0\",\"id\":1,\"method\":\"initialize\",\"params\":{\"protocolVersion\":\"2024-11-05\",\"capabilities\":{\"roots\":{},\"sampling\":{}},\"clientInfo\":{\"name\":\"c\",\"version\":\"0.1\"}}}\n";
    assert_eq!(String::from_utf8(frame).unwrap(), expected);
}

#[test]
fn handshake_settles_on_first_reply() {
    let response = Message::Response(Response {
        id: Some(NumberOrString::Number(1)),
        result: Some(mcp::json::Json::Obj(vec![])),
        error: None,
    });
    let note = Message::Notification(Notification {
        method: "notifications/message".to_string(),
        params: None,
    });
    let failure = Message::Error(mcp::jsonrpc::Error {
        id: Some(NumberOrString::Number(1)),
        error: ErrorData {
            code: ErrorCode::InternalError,
            message: "no".to_string(),
            data: None,
        },
    });
    assert_eq!(handshake_step(PeerState::Pending, &note), PeerState::Pending);
    assert_eq!(handshake_step(PeerState::Pending, &response), PeerState::Ready);
    assert_eq!(handshake_step(PeerState::Pending, &failure), PeerState::Failed);
    assert_eq!(handshake_step(PeerState::Ready, &failure), PeerState::Ready);
    assert_eq!(handshake_step(PeerState::Failed, &response), PeerState::Failed);
}

#[test]
fn client_keeps_its_identity() {
    let c = Client::new("arthur", "1.0", "2024-11-05");
    assert_eq!(c.name, "arthur");
    assert_eq!(c.version, "1.0");
    assert_eq!(c.protocol_version, "2024-11-05");
}
