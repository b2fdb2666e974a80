use rabbit::adapter::agent::{
    auth_headers, command_headers, connect_outcome, hello_port, is_header_value, is_success_status, make_url,
    HandshakeError,
};
use rabbit::adapter::coordinator::RabbitCommand;
use rabbit::auth::Authenticator;
use rabbit::domain::types::TunnelFrame;

#[test]
fn appends_path_to_base() {
    assert_eq!(make_url("http://localhost:8080", "/rabbit"), "http://localhost:8080/rabbit");
}

#[test]
fn strips_trailing_slash_from_base() {
    assert_eq!(make_url("http://localhost:8080/", "/rabbit"), "http://localhost:8080/rabbit");
}

#[test]
fn works_without_scheme() {
    assert_eq!(make_url("localhost:8080", "/rabbit"), "localhost:8080/rabbit");
}

#[test]
fn make_url_strips_every_trailing_slash() {
    assert_eq!(make_url("http://h//", "/x"), "http://h/x");
}

#[test]
fn auth_headers_without_secret_carry_empty_tag() {
    let (ts, tag) = auth_headers(1_700_000_000, None);
    assert_eq!(ts, "1700000000");
    assert_eq!(tag, "");
}

#[test]
fn auth_headers_with_secret_carry_signature_of_timestamp() {
    let a = Authenticator::new("secret");
    let ts: u64 = 1_700_000_000;
    let (ts_text, tag) = auth_headers(ts, Some(&a));
    assert_eq!(ts_text, "1700000000");
    assert_eq!(tag, a.sign(&ts.to_le_bytes()));
    assert!(a.verify(&ts.to_le_bytes(), &tag).is_ok());
    assert_eq!(tag.len(), 64);
}

#[test]
fn hello_port_reads_assigned_port() {
    let r = hello_port(&TunnelFrame::Hello { assigned_port: 5050 });
    assert!(matches!(r, Ok(5050)));
}

#[test]
fn hello_port_reports_server_error() {
    let r = hello_port(&TunnelFrame::Error("nope".to_string()));
    match r {
        Err(e) => {
            assert!(matches!(e, HandshakeError::ServerError(ref m) if m == "nope"));
            assert_eq!(e.message(), "server error: nope");
        }
        Ok(_) => panic!("expected an error"),
    }
}

#[test]
fn hello_port_rejects_other_first_frame() {
    let r = hello_port(&TunnelFrame::Heartbeat);
    match r {
        Err(e) => assert_eq!(e.message(), "unexpected initial frame from server"),
        Ok(_) => panic!("expected an error"),
    }
}

#[test]
fn connect_needs_success_status_and_hello() {
    assert!(is_success_status(200) && is_success_status(299));
    assert!(!is_success_status(199) && !is_success_status(300) && !is_success_status(401));
    assert!(matches!(connect_outcome(200, &TunnelFrame::Hello { assigned_port: 7 }), Ok(7)));
    match connect_outcome(401, &TunnelFrame::Hello { assigned_port: 7 }) {
        Err(e) => {
            assert!(matches!(e, HandshakeError::Rejected(401)));
            assert_eq!(e.message(), "server rejected connection: 401 Unauthorized");
        }
        Ok(_) => panic!("expected rejection"),
    }
    assert!(matches!(connect_outcome(204, &TunnelFrame::Heartbeat), Err(HandshakeError::UnexpectedFrame)));
}

#[test]
fn command_headers_of_a_tunnel_request() {
    let h = command_headers(1_700_000_000, None, RabbitCommand::Tunnel, Some("svc"), Some(5050));
    let pairs: Vec<(&str, &str)> = h.iter().map(|(a, b)| (a.as_str(), b.as_str())).collect();
    assert_eq!(
        pairs,
        vec![
            ("x-rabbit-ts", "1700000000"),
            ("x-rabbit-auth", ""),
            ("x-rabbit-cmd", "tunnel"),
            ("x-rabbit-service", "svc"),
            ("x-rabbit-port", "5050"),
        ]
    );
    let q = command_headers(5, None, RabbitCommand::ListServices, None, None);
    assert_eq!(q.len(), 3);
    assert_eq!(q[2].1, "list_services");
    let bad = command_headers(5, None, RabbitCommand::GetPorts, Some("a\nb"), None);
    assert_eq!(bad[3], ("x-rabbit-service".to_string(), String::new()));
}

#[test]
fn header_value_bytes() {
    assert!(is_header_value("plain text\twith tab"));
    assert!(is_header_value("caf\u{e9}"));
    assert!(!is_header_value("line\nbreak"));
    assert!(!is_header_value("del\u{7f}"));
}

#[test]
fn rejection_text_without_reason_phrase() {
    assert_eq!(HandshakeError::Rejected(599).message(), "server rejected connection: 599 <unknown status code>");
    assert_eq!(HandshakeError::Rejected(404).message(), "server rejected connection: 404 Not Found");
}
