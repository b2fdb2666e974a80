use rabbit::domain::error::RoutingError;
use rabbit::proxy::{forwarded_headers, proxy_reply, routing_status, tunnel_port, ProxyOutcome};

#[test]
fn tunnel_port_header() {
    assert_eq!(tunnel_port(Some("5050")), Some(5050));
    assert_eq!(tunnel_port(Some("+80")), Some(80));
    assert_eq!(tunnel_port(Some("70000")), None);
    assert_eq!(tunnel_port(Some("abc")), None);
    assert_eq!(tunnel_port(None), None);
}

#[test]
fn proxy_only_headers_are_not_forwarded() {
    let headers = vec![
        ("host".to_string(), "example.com".to_string()),
        ("accept".to_string(), "*/*".to_string()),
        ("x-tunnel-port".to_string(), "5050".to_string()),
        ("connection".to_string(), "keep-alive".to_string()),
        ("transfer-encoding".to_string(), "chunked".to_string()),
        ("x-custom".to_string(), "1".to_string()),
    ];
    let kept = forwarded_headers(&headers);
    assert_eq!(
        kept,
        vec![("accept".to_string(), "*/*".to_string()), ("x-custom".to_string(), "1".to_string())]
    );
}

#[test]
fn routing_status_codes() {
    assert_eq!(routing_status(&RoutingError::NoClient("x".into())), 404);
    assert_eq!(routing_status(&RoutingError::NoSocket), 502);
    assert_eq!(routing_status(&RoutingError::NoAgent(1)), 502);
    assert_eq!(routing_status(&RoutingError::AgentDisconnected), 502);
}

#[test]
fn proxy_reply_statuses_and_texts() {
    assert_eq!(proxy_reply(&ProxyOutcome::NoPort), (400, Some("missing X-Tunnel-Port header".to_string())));
    assert_eq!(
        proxy_reply(&ProxyOutcome::Refused(RoutingError::NoAgent(5050))),
        (502, Some("no tunnel agent on port 5050".to_string()))
    );
    assert_eq!(
        proxy_reply(&ProxyOutcome::Refused(RoutingError::AgentDisconnected)),
        (502, Some("tunnel agent disconnected".to_string()))
    );
    assert_eq!(proxy_reply(&ProxyOutcome::ChannelClosed), (502, Some("tunnel response channel closed".to_string())));
    assert_eq!(proxy_reply(&ProxyOutcome::TimedOut), (504, Some("tunnel relay timed out".to_string())));
    assert_eq!(proxy_reply(&ProxyOutcome::Head(201)), (201, None));
}
