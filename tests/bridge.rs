use browsehand::bridge::{BridgeError, ExtensionBridge, WaitOutcome, REPLY_TIMEOUT_SECS};
use serde_json::Value;
use tokio::sync::{mpsc, oneshot};

fn parse(text: &str) -> Value {
    serde_json::from_str::<Value>(text).unwrap()
}

fn reply_for(id: &str, body: &str) -> String {
    format!("{{\"requestId\":\"{}\",\"data\":\"{}\"}}", id, body)
}

#[test]
fn new_bridge_is_idle() {
    let bridge = ExtensionBridge::new();
    assert!(!bridge.is_connected());
    assert_eq!(bridge.pending_count(), 0);
}

#[test]
fn request_without_connection_fails_at_once() {
    let mut bridge = ExtensionBridge::new();
    let (tx, _rx) = oneshot::channel::<Value>();
    let r = bridge.open_request("ping", &parse("{}"), tx);
    assert_eq!(r, Err(BridgeError::NotConnected));
    assert_eq!(bridge.pending_count(), 0);
}

#[test]
fn request_frame_goes_out_with_fresh_identifier() {
    let mut bridge = ExtensionBridge::new();
    let (out_tx, mut out_rx) = mpsc::unbounded_channel::<String>();
    bridge.install_connection(out_tx);
    assert!(bridge.is_connected());
    let (tx, _rx) = oneshot::channel::<Value>();
    let id = bridge.open_request("read_content", &parse("{\"selector\":\"body\"}"), tx).unwrap();
    assert_eq!(id.len(), 36);
    assert!(bridge.is_pending(&id));
    assert_eq!(bridge.pending_count(), 1);
    let frame = out_rx.try_recv().unwrap();
    let sent = parse(&frame);
    assert_eq!(sent["type"], Value::String("read_content".to_string()));
    assert_eq!(sent["requestId"], Value::String(id.clone()));
    assert_eq!(sent["payload"], parse("{\"selector\":\"body\"}"));
}

#[test]
fn replies_reach_their_own_callers() {
    let mut bridge = ExtensionBridge::new();
    let (out_tx, _out_rx) = mpsc::unbounded_channel::<String>();
    bridge.install_connection(out_tx);
    let mut waits = Vec::new();
    let mut ids = Vec::new();
    for n in 0..5 {
        let (tx, rx) = oneshot::channel::<Value>();
        let payload = parse(&format!("{{\"n\":{}}}", n));
        ids.push(bridge.open_request("execute_script", &payload, tx).unwrap());
        waits.push(rx);
    }
    for n in [3usize, 0, 4, 1, 2] {
        bridge.dispatch_frame(&reply_for(&ids[n], &format!("answer {}", n)));
    }
    assert_eq!(bridge.pending_count(), 0);
    for (n, mut rx) in waits.into_iter().enumerate() {
        let got = rx.try_recv().unwrap();
        assert_eq!(got["requestId"], Value::String(ids[n].clone()));
        assert_eq!(got["data"], Value::String(format!("answer {}", n)));
    }
}

#[test]
fn dispatch_follows_arrival_order() {
    let mut bridge = ExtensionBridge::new();
    let (out_tx, _out_rx) = mpsc::unbounded_channel::<String>();
    bridge.install_connection(out_tx);
    let (ta, mut ra) = oneshot::channel::<Value>();
    let (tb, mut rb) = oneshot::channel::<Value>();
    let (tc, mut rc) = oneshot::channel::<Value>();
    let a = bridge.open_request("ping", &parse("{}"), ta).unwrap();
    let b = bridge.open_request("ping", &parse("{}"), tb).unwrap();
    let c = bridge.open_request("ping", &parse("{}"), tc).unwrap();
    bridge.dispatch_frame(&reply_for(&c, "c"));
    assert!(rc.try_recv().is_ok());
    assert!(ra.try_recv().is_err());
    assert!(rb.try_recv().is_err());
    bridge.dispatch_frame(&reply_for(&a, "a"));
    assert!(ra.try_recv().is_ok());
    assert!(rb.try_recv().is_err());
    bridge.dispatch_frame(&reply_for(&b, "b"));
    assert!(rb.try_recv().is_ok());
    assert_eq!(bridge.pending_count(), 0);
}

#[test]
fn timed_out_request_leaves_no_entry() {
    let mut bridge = ExtensionBridge::new();
    let (out_tx, _out_rx) = mpsc::unbounded_channel::<String>();
    bridge.install_connection(out_tx);
    let before = bridge.pending_count();
    let (tx, _rx) = oneshot::channel::<Value>();
    let id = bridge.open_request("wait_for_element", &parse("{}"), tx).unwrap();
    assert_eq!(bridge.pending_count(), before + 1);
    let r = bridge.finish_request(&id, WaitOutcome::Elapsed);
    assert_eq!(r, Err(BridgeError::Timeout));
    assert_eq!(bridge.pending_count(), before);
    assert!(!bridge.is_pending(&id));
    assert_eq!(REPLY_TIMEOUT_SECS, 30);
}

#[test]
fn finished_request_returns_reply_or_closed() {
    let mut bridge = ExtensionBridge::new();
    let (out_tx, _out_rx) = mpsc::unbounded_channel::<String>();
    bridge.install_connection(out_tx);
    let (tx, _rx) = oneshot::channel::<Value>();
    let id = bridge.open_request("ping", &parse("{}"), tx).unwrap();
    let reply = parse("{\"ok\":true}");
    assert_eq!(bridge.finish_request(&id, WaitOutcome::Replied(reply.clone())), Ok(reply));
    assert_eq!(bridge.finish_request(&id, WaitOutcome::SlotClosed), Err(BridgeError::ChannelClosed));
    assert_eq!(bridge.pending_count(), 0);
}

#[test]
fn closed_queue_fails_with_channel_closed() {
    let mut bridge = ExtensionBridge::new();
    let (out_tx, out_rx) = mpsc::unbounded_channel::<String>();
    bridge.install_connection(out_tx);
    drop(out_rx);
    let (tx, _rx) = oneshot::channel::<Value>();
    let (t0, _r0) = oneshot::channel::<Value>();
    assert_eq!(bridge.open_request_with_id("kept".to_string(), "ping", &parse("{}"), t0), Err(BridgeError::ChannelClosed));
    let r = bridge.open_request("ping", &parse("{}"), tx);
    assert_eq!(r, Err(BridgeError::ChannelClosed));
    assert_eq!(bridge.pending_count(), 0);
}

#[test]
fn disconnect_keeps_pending_requests() {
    let mut bridge = ExtensionBridge::new();
    let (out_tx, _out_rx) = mpsc::unbounded_channel::<String>();
    bridge.install_connection(out_tx);
    let (t1, mut r1) = oneshot::channel::<Value>();
    let (t2, _r2) = oneshot::channel::<Value>();
    let id1 = bridge.open_request("ping", &parse("{}"), t1).unwrap();
    let id2 = bridge.open_request("ping", &parse("{}"), t2).unwrap();
    bridge.clear_connection();
    assert!(!bridge.is_connected());
    assert_eq!(bridge.pending_count(), 2);
    assert!(bridge.is_pending(&id1) && bridge.is_pending(&id2));
    assert!(matches!(r1.try_recv(), Err(oneshot::error::TryRecvError::Empty)));
    let (t3, _r3) = oneshot::channel::<Value>();
    assert_eq!(bridge.open_request("ping", &parse("{}"), t3), Err(BridgeError::NotConnected));
}

#[test]
fn second_connection_takes_all_later_frames() {
    let mut bridge = ExtensionBridge::new();
    let (first_tx, mut first_rx) = mpsc::unbounded_channel::<String>();
    bridge.install_connection(first_tx);
    let (t1, mut r1) = oneshot::channel::<Value>();
    let early = bridge.open_request("ping", &parse("{}"), t1).unwrap();
    assert!(first_rx.try_recv().is_ok());
    let (second_tx, mut second_rx) = mpsc::unbounded_channel::<String>();
    bridge.install_connection(second_tx);
    let (t2, _r2) = oneshot::channel::<Value>();
    let late = bridge.open_request("navigate_to", &parse("{\"url\":\"x\"}"), t2).unwrap();
    assert!(first_rx.try_recv().is_err());
    let frame = parse(&second_rx.try_recv().unwrap());
    assert_eq!(frame["requestId"], Value::String(late));
    bridge.dispatch_frame(&reply_for(&early, "still mine"));
    assert_eq!(r1.try_recv().unwrap()["data"], Value::String("still mine".to_string()));
}

#[test]
fn malformed_frame_is_dropped() {
    let mut bridge = ExtensionBridge::new();
    let (out_tx, _out_rx) = mpsc::unbounded_channel::<String>();
    bridge.install_connection(out_tx);
    let (tx, mut rx) = oneshot::channel::<Value>();
    let id = bridge.open_request("ping", &parse("{}"), tx).unwrap();
    bridge.dispatch_frame(&format!("{{\"requestId\":\"{}\"", id));
    bridge.dispatch_frame("not json at all");
    assert_eq!(bridge.pending_count(), 1);
    assert!(matches!(rx.try_recv(), Err(oneshot::error::TryRecvError::Empty)));
    bridge.dispatch_frame(&reply_for(&id, "fine"));
    assert!(rx.try_recv().is_ok());
}

#[test]
fn stray_replies_change_nothing() {
    let mut bridge = ExtensionBridge::new();
    let (out_tx, _out_rx) = mpsc::unbounded_channel::<String>();
    bridge.install_connection(out_tx);
    let (tx, mut rx) = oneshot::channel::<Value>();
    let _id = bridge.open_request("ping", &parse("{}"), tx).unwrap();
    bridge.dispatch_frame("{\"type\":\"hello\",\"message\":\"hi\"}");
    bridge.dispatch_frame(&reply_for("unknown-id", "x"));
    bridge.dispatch_frame("{\"requestId\":7}");
    assert_eq!(bridge.pending_count(), 1);
    assert!(rx.try_recv().is_err());
    assert!(bridge.route_reply(&None).is_none());
    assert!(bridge.route_reply(&Some("unknown-id".to_string())).is_none());
}

#[test]
fn request_with_chosen_identifier() {
    let mut bridge = ExtensionBridge::new();
    let (out_tx, mut out_rx) = mpsc::unbounded_channel::<String>();
    bridge.install_connection(out_tx);
    let (tx, _rx) = oneshot::channel::<Value>();
    let r = bridge.open_request_with_id("abc".to_string(), "ping", &parse("{}"), tx);
    assert_eq!(r, Ok(()));
    assert_eq!(
        out_rx.try_recv().unwrap(),
        "{\"payload\":{},\"requestId\":\"abc\",\"type\":\"ping\"}"
    );
    assert!(bridge.route_reply(&Some("abc".to_string())).is_some());
    assert_eq!(bridge.pending_count(), 0);
}

#[test]
fn route_frame_hands_back_slot_and_message() {
    let mut bridge = ExtensionBridge::new();
    let (out_tx, _out_rx) = mpsc::unbounded_channel::<String>();
    bridge.install_connection(out_tx);
    let (tx, mut rx) = oneshot::channel::<Value>();
    let id = bridge.open_request("get_current_url", &parse("{}"), tx).unwrap();
    assert!(bridge.route_frame("{oops").is_none());
    assert!(bridge.route_frame("{\"requestId\":\"other\"}").is_none());
    assert_eq!(bridge.pending_count(), 1);
    let text = format!("{{\"requestId\":\"{}\",\"url\":\"https://a.b\"}}", id);
    let (slot, message) = bridge.route_frame(&text).unwrap();
    assert_eq!(message, parse(&text));
    assert_eq!(bridge.pending_count(), 0);
    slot.send(message.clone()).unwrap();
    assert_eq!(rx.try_recv().unwrap(), message);
}
