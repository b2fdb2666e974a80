use std::collections::HashMap;

use bytes::Bytes;
use rabbit::coordinator::ServiceInfo;
use rabbit::domain::types::{InboundRequest, RequestId, TunnelFrame};
use rabbit::proto::{Payload, ProtoConvertError, ServiceEntry, TunnelMessage};

fn roundtrip(frame: TunnelFrame) -> TunnelFrame {
    let msg = TunnelMessage::from_frame(frame);
    TunnelFrame::from_message(msg).unwrap()
}

#[test]
fn proto_hello_roundtrip() {
    match roundtrip(TunnelFrame::Hello { assigned_port: 5000 }) {
        TunnelFrame::Hello { assigned_port } => assert_eq!(assigned_port, 5000),
        _ => panic!("wrong variant"),
    }
}

#[test]
fn proto_heartbeat_roundtrip() {
    assert!(matches!(roundtrip(TunnelFrame::Heartbeat), TunnelFrame::Heartbeat));
}

#[test]
fn proto_error_roundtrip() {
    match roundtrip(TunnelFrame::Error("boom".into())) {
        TunnelFrame::Error(s) => assert_eq!(s, "boom"),
        _ => panic!("wrong variant"),
    }
}

#[test]
fn proto_response_meta_roundtrip() {
    let mut headers = HashMap::new();
    headers.insert("content-type".to_string(), "application/json".to_string());
    let frame = TunnelFrame::ResponseMeta {
        request_id: RequestId("req-1".into()),
        status: 200,
        headers: headers.clone(),
    };
    match roundtrip(frame) {
        TunnelFrame::ResponseMeta { request_id, status, headers: h } => {
            assert_eq!(request_id.0, "req-1");
            assert_eq!(status, 200);
            assert_eq!(h["content-type"], "application/json");
        }
        _ => panic!("wrong variant"),
    }
}

#[test]
fn proto_response_chunk_roundtrip() {
    let data = Bytes::from_static(b"hello world");
    let frame = TunnelFrame::ResponseChunk { request_id: RequestId("req-2".into()), data: data.clone() };
    match roundtrip(frame) {
        TunnelFrame::ResponseChunk { request_id, data: d } => {
            assert_eq!(request_id.0, "req-2");
            assert_eq!(d, data);
        }
        _ => panic!("wrong variant"),
    }
}

#[test]
fn proto_response_end_roundtrip() {
    match roundtrip(TunnelFrame::ResponseEnd { request_id: RequestId("req-3".into()) }) {
        TunnelFrame::ResponseEnd { request_id } => assert_eq!(request_id.0, "req-3"),
        _ => panic!("wrong variant"),
    }
}

#[test]
fn inbound_request_roundtrip() {
    let mut headers = HashMap::new();
    headers.insert("x-foo".to_string(), "bar".to_string());
    let frame = TunnelFrame::Inbound(InboundRequest {
        id: RequestId("req-4".into()),
        method: "POST".into(),
        path: "/api/test".into(),
        query: "a=1".into(),
        headers: headers.clone(),
        body: Bytes::from_static(b"body"),
    });
    match roundtrip(frame) {
        TunnelFrame::Inbound(r) => {
            assert_eq!(r.id.0, "req-4");
            assert_eq!(r.method, "POST");
            assert_eq!(r.path, "/api/test");
            assert_eq!(r.query, "a=1");
            assert_eq!(r.headers["x-foo"], "bar");
            assert_eq!(r.body, b"body".as_ref());
        }
        _ => panic!("wrong variant"),
    }
}

#[test]
fn empty_payload_error() {
    let msg = TunnelMessage { payload: None };
    assert!(matches!(TunnelFrame::from_message(msg), Err(ProtoConvertError::EmptyPayload)));
}

#[test]
fn service_entry_roundtrip() {
    let entry = ServiceEntry::from_parts(8080u16, "my-svc", 1234567890u64);
    assert_eq!(entry.service, "my-svc");
    assert_eq!(entry.port, 8080);
    let info = ServiceInfo::from_entry(entry);
    assert_eq!(info.namespace, "my-svc");
    assert_eq!(info.port, 8080);
    assert_eq!(info.connected_at, 1234567890);
}

#[test]
fn hello_message_carries_port_as_u32() {
    let msg = TunnelMessage::from_frame(TunnelFrame::Hello { assigned_port: 65535 });
    match msg.payload {
        Some(Payload::Hello(h)) => assert_eq!(h.port, 65535u32),
        _ => panic!("wrong payload"),
    }
}

#[test]
fn hello_message_port_keeps_low_sixteen_bits() {
    let msg = TunnelMessage { payload: Some(Payload::Hello(rabbit::proto::Hello { port: 70000 })) };
    match TunnelFrame::from_message(msg).unwrap() {
        TunnelFrame::Hello { assigned_port } => assert_eq!(assigned_port, 70000u32 as u16),
        _ => panic!("wrong variant"),
    }
}

#[test]
fn message_to_frame_and_back_keeps_payload() {
    let msg = TunnelMessage {
        payload: Some(Payload::ResponseEnd(rabbit::proto::ResponseEnd { id: "z".into() })),
    };
    let frame = TunnelFrame::from_message(msg.clone()).unwrap();
    assert_eq!(TunnelMessage::from_frame(frame), msg);
}
