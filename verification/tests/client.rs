use std::collections::HashMap;

use bytes::Bytes;
use rabbit::auth::Authenticator;
use rabbit::client::relay::{
    local_request_url, relayed_headers, server_frame_action, ResponseSender, ServerFrameAction,
};
use rabbit::client::{host_port, next_backoff_secs, registration_auth, registration_url};
use rabbit::domain::types::{InboundRequest, RequestId, TunnelFrame};

#[test]
fn registration_url_strips_trailing_slash() {
    assert_eq!(registration_url("https://t.example.com/", "myapp"), "https://t.example.com/api/tunnel?id=myapp");
    assert_eq!(registration_url("http://localhost:8080", "abcd"), "http://localhost:8080/api/tunnel?id=abcd");
}

#[test]
fn registration_auth_only_with_secret() {
    assert!(registration_auth(None, 5).is_none());
    let (ts, tag) = registration_auth(Some("s"), 1_700_000_000).unwrap();
    assert_eq!(ts, "1700000000");
    assert_eq!(tag, Authenticator::new("s").sign(&1_700_000_000u64.to_le_bytes()));
}

#[test]
fn backoff_doubles_up_to_a_minute() {
    let mut b: u64 = 1;
    let mut seen = Vec::new();
    for _ in 0..8 {
        seen.push(b);
        b = next_backoff_secs(b);
    }
    assert_eq!(seen, vec![1, 2, 4, 8, 16, 32, 60, 60]);
}

#[test]
fn host_port_text() {
    assert_eq!(host_port("localhost", 3000), "localhost:3000");
    assert_eq!(host_port("t.example.com", 8081), "t.example.com:8081");
}

#[test]
fn local_url_with_and_without_query() {
    assert_eq!(local_request_url("localhost", 3000, "/api", ""), "http://localhost:3000/api");
    assert_eq!(local_request_url("localhost", 3000, "/api", "a=1"), "http://localhost:3000/api?a=1");
}

#[test]
fn hop_by_hop_headers_are_not_relayed() {
    let headers = vec![
        ("content-type".to_string(), "text/plain".to_string()),
        ("transfer-encoding".to_string(), "chunked".to_string()),
        ("connection".to_string(), "close".to_string()),
        ("keep-alive".to_string(), "5".to_string()),
        ("trailer".to_string(), "x".to_string()),
        ("x-a".to_string(), "b".to_string()),
    ];
    assert_eq!(
        relayed_headers(&headers),
        vec![("content-type".to_string(), "text/plain".to_string()), ("x-a".to_string(), "b".to_string())]
    );
}

#[test]
fn server_frames_dispatch() {
    let req = TunnelFrame::Inbound(InboundRequest {
        id: RequestId("r".into()),
        method: "GET".into(),
        path: "/".into(),
        query: "".into(),
        headers: HashMap::new(),
        body: Bytes::new(),
    });
    assert_eq!(server_frame_action(&req), ServerFrameAction::Relay);
    assert_eq!(server_frame_action(&TunnelFrame::Heartbeat), ServerFrameAction::Ignore);
    assert_eq!(server_frame_action(&TunnelFrame::Error("e".into())), ServerFrameAction::ReportError);
    assert_eq!(server_frame_action(&TunnelFrame::Hello { assigned_port: 1 }), ServerFrameAction::Unexpected);
}

#[test]
fn response_frames_go_out_head_chunks_end() {
    let mut sender = ResponseSender::new("r9".to_string());
    assert!(sender.chunk(Bytes::from_static(b"early")).is_none());
    assert!(sender.end().is_none());
    let mut headers = HashMap::new();
    headers.insert("content-type".to_string(), "text/plain".to_string());
    match sender.head(200, headers) {
        Some(TunnelFrame::ResponseMeta { request_id, status, headers }) => {
            assert_eq!(request_id.0, "r9");
            assert_eq!(status, 200);
            assert_eq!(headers["content-type"], "text/plain");
        }
        _ => panic!("expected the head"),
    }
    assert!(sender.head(500, HashMap::new()).is_none());
    match sender.chunk(Bytes::from_static(b"abc")) {
        Some(TunnelFrame::ResponseChunk { request_id, data }) => {
            assert_eq!(request_id.0, "r9");
            assert_eq!(data.as_ref(), b"abc");
        }
        _ => panic!("expected a chunk"),
    }
    assert!(matches!(sender.end(), Some(TunnelFrame::ResponseEnd { ref request_id }) if request_id.0 == "r9"));
    assert!(sender.chunk(Bytes::from_static(b"late")).is_none());
    assert!(sender.end().is_none());
}
