use std::sync::Arc;
use std::time::Duration;

use tokio::io::{AsyncBufReadExt, AsyncWriteExt, BufReader};

use mcp::framer::{decode_line, frame_message};
use mcp::jsonrpc::{Message, Notification, NumberOrString, Request};

/// Two tasks write one frame each to the same captured stream, the first
/// holding the lock through an artificial delay. Whatever the order, the
/// stream afterwards holds exactly two complete, well-formed lines and no
/// interleaved bytes.
#[test]
fn concurrent_writes_never_interleave_frames() {
    let runtime = tokio::runtime::Builder::new_multi_thread()
        .worker_threads(2)
        .enable_time()
        .build()
        .unwrap();
    let captured: Arc<tokio::sync::Mutex<Vec<u8>>> = Arc::new(tokio::sync::Mutex::new(Vec::new()));

    let slow_frame = frame_message(Message::Request(Request {
        id: NumberOrString::Number(1),
        method: "ping".to_string(),
        params: None,
    }));
    let fast_frame = frame_message(Message::Notification(Notification {
        method: "notifications/progress".to_string(),
        params: None,
    }));

    let slow_copy = slow_frame.clone();
    let fast_copy = fast_frame.clone();
    runtime.block_on(async {
        let sink_a = captured.clone();
        let slow = tokio::spawn(async move {
            let mut out = sink_a.lock().await;
            // Write the frame in two halves with a pause between them:
            // the lock must keep the halves together.
            let mid = slow_copy.len() / 2;
            out.extend_from_slice(&slow_copy[..mid]);
            tokio::time::sleep(Duration::from_millis(50)).await;
            out.extend_from_slice(&slow_copy[mid..]);
        });
        let sink_b = captured.clone();
        let fast = tokio::spawn(async move {
            tokio::time::sleep(Duration::from_millis(5)).await;
            let mut out = sink_b.lock().await;
            out.extend_from_slice(&fast_copy);
        });
        slow.await.unwrap();
        fast.await.unwrap();
    });

    let bytes = runtime.block_on(async { captured.lock().await.clone() });
    assert_eq!(bytes.len(), slow_frame.len() + fast_frame.len());
    let text = String::from_utf8(bytes).unwrap();
    let lines: Vec<&str> = text.split_terminator('\n').collect();
    assert_eq!(lines.len(), 2, "exactly two complete frames, got {:?}", lines);
    for line in &lines {
        decode_line(line.as_bytes()).expect("each captured frame must decode");
    }
    let mut seen: Vec<String> = lines.iter().map(|l| format!("{}\n", l)).collect();
    seen.sort();
    let mut want = vec![
        String::from_utf8(slow_frame).unwrap(),
        String::from_utf8(fast_frame).unwrap(),
    ];
    want.sort();
    assert_eq!(seen, want);
}

/// One peer never answers: a read on its stream stays pending for as long
/// as anyone cares to wait, while a second, independent peer is written
/// to and read from undisturbed.
#[test]
fn silent_peer_blocks_only_its_own_reader() {
    let runtime = tokio::runtime::Builder::new_multi_thread()
        .worker_threads(2)
        .enable_time()
        .build()
        .unwrap();
    runtime.block_on(async {
        // Peer one: nobody ever writes its output side.
        let (silent_out, _silent_peer_end) = tokio::io::duplex(1024);
        let mut silent_reader = BufReader::new(silent_out);
        let mut silent_line = String::new();
        let blocked = tokio::time::timeout(
            std::time::Duration::from_millis(100),
            silent_reader.read_line(&mut silent_line),
        );

        // Peer two: a complete frame arrives and is read and decoded.
        let (live_out, mut live_peer_end) = tokio::io::duplex(1024);
        let frame = frame_message(Message::Notification(Notification {
            method: "notifications/progress".to_string(),
            params: None,
        }));
        live_peer_end.write_all(&frame).await.unwrap();
        live_peer_end.flush().await.unwrap();
        let mut live_reader = BufReader::new(live_out);
        let mut live_line = String::new();
        live_reader.read_line(&mut live_line).await.unwrap();
        let decoded = decode_line(live_line.trim_end().as_bytes()).unwrap();
        assert!(matches!(decoded, Message::Notification(_)));

        // Only now resolve the silent peer's read: it is still pending.
        assert!(blocked.await.is_err(), "a silent peer's read must still be blocked");
    });
}
