use std::collections::HashMap;

use bytes::Bytes;
use rabbit::coordinator::session::{RelayAction, RelayState};
use rabbit::domain::types::{RequestId, TunnelFrame};

fn meta(id: &str) -> TunnelFrame {
    TunnelFrame::ResponseMeta { request_id: RequestId(id.into()), status: 200, headers: HashMap::new() }
}

fn chunk(id: &str) -> TunnelFrame {
    TunnelFrame::ResponseChunk { request_id: RequestId(id.into()), data: Bytes::from_static(b"x") }
}

fn end(id: &str) -> TunnelFrame {
    TunnelFrame::ResponseEnd { request_id: RequestId(id.into()) }
}

#[test]
fn chunks_flow_between_head_and_end() {
    let mut relay = RelayState::new();
    assert!(matches!(relay.step(&chunk("r1")), RelayAction::DropChunk));
    assert!(matches!(relay.step(&meta("r1")), RelayAction::DeliverHead(ref id) if id == "r1"));
    assert!(relay.is_open("r1"));
    assert!(matches!(relay.step(&chunk("r1")), RelayAction::ForwardChunk(ref id) if id == "r1"));
    assert!(matches!(relay.step(&chunk("r2")), RelayAction::DropChunk));
    assert!(matches!(relay.step(&end("r1")), RelayAction::CloseBody(ref id) if id == "r1"));
    assert!(!relay.is_open("r1"));
    assert!(matches!(relay.step(&chunk("r1")), RelayAction::DropChunk));
}

#[test]
fn bodies_of_different_requests_are_independent() {
    let mut relay = RelayState::new();
    relay.step(&meta("a"));
    relay.step(&meta("b"));
    relay.step(&end("a"));
    assert!(!relay.is_open("a"));
    assert!(relay.is_open("b"));
}

#[test]
fn closed_reader_closes_body() {
    let mut relay = RelayState::new();
    relay.step(&meta("a"));
    relay.close_body("a");
    assert!(matches!(relay.step(&chunk("a")), RelayAction::DropChunk));
}

#[test]
fn other_frames() {
    let mut relay = RelayState::new();
    assert!(matches!(relay.step(&TunnelFrame::Heartbeat), RelayAction::Ignore));
    assert!(matches!(relay.step(&TunnelFrame::Error("bad".into())), RelayAction::ReportError(ref m) if m == "bad"));
    assert!(matches!(relay.step(&TunnelFrame::Hello { assigned_port: 1 }), RelayAction::Unexpected));
}
