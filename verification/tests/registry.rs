use std::collections::HashMap;

use bytes::Bytes;
use rabbit::coordinator::registry::{fp_matches, RegistryCoordinator};
use rabbit::domain::error::{ConnectError, RoutingError};
use rabbit::domain::types::{AuthProof, InboundRequest, RequestId, TunnelFrame};
use rabbit::adapter::agent::hello_port;
use rabbit::auth::Authenticator;

#[test]
fn fp_matches_none_caller_sees_all() {
    assert!(fp_matches(None, None));
    assert!(fp_matches(None, Some([1u8; 32])));
}

#[test]
fn fp_matches_same_secret() {
    let fp = [42u8; 32];
    assert!(fp_matches(Some(fp), Some(fp)));
}

#[test]
fn fp_matches_different_secrets() {
    assert!(!fp_matches(Some([1u8; 32]), Some([2u8; 32])));
}

#[test]
fn fp_matches_caller_with_secret_no_session_secret() {
    assert!(!fp_matches(Some([1u8; 32]), None));
}

#[test]
fn register_assigns_port_and_sends_hello() {
    let mut coord = RegistryCoordinator::with_secret(5000..=5100, None);
    let reg = coord.register_agent("my-svc".into(), None, 0).expect("registration failed");
    let port = reg.assigned_port;
    assert!(port >= 5000 && port <= 5100);
    assert!(matches!(reg.hello, TunnelFrame::Hello { assigned_port } if assigned_port == port));
    assert!(matches!(hello_port(&reg.hello), Ok(p) if p == port));
    assert!(coord.get_ports("my-svc", None).contains(&port));
}

#[test]
fn register_specific_port() {
    let mut coord = RegistryCoordinator::with_secret(5000..=5100, None);
    let port = coord.register_agent("svc".into(), None, 5050).expect("registration failed").assigned_port;
    assert_eq!(port, 5050);
}

#[test]
fn register_port_in_use_fails() {
    let mut coord = RegistryCoordinator::with_secret(5000..=5100, None);
    let _p = coord.register_agent("svc".into(), None, 5050).unwrap();
    let err = coord.register_agent("svc2".into(), None, 5050).unwrap_err();
    assert_eq!(err, ConnectError::PortInUse);
}

#[test]
fn auth_required_rejects_missing_proof() {
    let mut coord = RegistryCoordinator::with_secret(5000..=5100, Some("secret"));
    let err = coord.register_agent("svc".into(), None, 0).unwrap_err();
    assert_eq!(err, ConnectError::Unauthenticated);
}

#[test]
fn register_rejects_port_out_of_range() {
    let mut coord = RegistryCoordinator::with_secret(5000..=5100, None);
    let err = coord.register_agent("svc".into(), None, 6000).unwrap_err();
    assert_eq!(err, ConnectError::PortOutOfRange);
}

#[test]
fn register_with_valid_proof_then_stale_proof() {
    let secret = "secret";
    let mut coord = RegistryCoordinator::with_secret(5000..=5100, Some(secret));
    let now: u64 = 1_700_000_000;
    let tag = Authenticator::new(secret).sign(&now.to_le_bytes());
    let ok = coord.register_at("svc".into(), Some(AuthProof { ts: now, tag: tag.clone() }), 5001, now, now);
    assert_eq!(ok.unwrap(), 5001);
    let stale = coord.register_at("svc".into(), Some(AuthProof { ts: now, tag }), 5002, now + 31, now);
    assert_eq!(stale.unwrap_err(), ConnectError::TimestampExpired);
    let wrong = coord.register_at(
        "svc".into(),
        Some(AuthProof { ts: now, tag: "00".into() }),
        5002,
        now,
        now,
    );
    assert_eq!(wrong.unwrap_err(), ConnectError::Unauthenticated);
}

#[test]
fn exhausted_range_refuses_random_port() {
    let mut coord = RegistryCoordinator::with_secret(5000..=5001, None);
    coord.register_agent("a".into(), None, 0).unwrap();
    coord.register_agent("b".into(), None, 0).unwrap();
    assert_eq!(coord.register_agent("c".into(), None, 0).unwrap_err(), ConnectError::PortExhausted);
}

#[test]
fn release_frees_the_port_again() {
    let mut coord = RegistryCoordinator::with_secret(5000..=5100, None);
    coord.register_agent("svc".into(), None, 5050).unwrap();
    coord.release(5050);
    assert_eq!(coord.register_agent("svc2".into(), None, 5050).unwrap().assigned_port, 5050);
}

#[test]
fn list_services_and_get_ports_filter_by_fingerprint() {
    let mut open = RegistryCoordinator::with_secret(5000..=5100, None);
    open.register_agent("svc".into(), None, 5001).unwrap();
    open.register_agent("svc".into(), None, 5002).unwrap();
    open.register_agent("other".into(), None, 5003).unwrap();
    let all = open.list_services(None);
    assert_eq!(all.len(), 3);
    let mut ports = open.get_ports("svc", None);
    ports.sort();
    assert_eq!(ports, vec![5001, 5002]);
    // Sessions made without a secret are hidden from a caller that has one.
    assert!(open.list_services(Some([7u8; 32])).is_empty());
    assert!(open.get_ports("svc", Some([7u8; 32])).is_empty());
}

fn request() -> InboundRequest {
    let mut headers = HashMap::new();
    headers.insert("accept".to_string(), "*/*".to_string());
    InboundRequest {
        id: RequestId(String::new()),
        method: "GET".into(),
        path: "/x".into(),
        query: "".into(),
        headers,
        body: Bytes::from_static(b"hi"),
    }
}

#[test]
fn route_request_to_unknown_port_fails() {
    let coord = RegistryCoordinator::with_secret(5000..=5100, None);
    let err = coord.route_request(5050, request()).unwrap_err();
    assert_eq!(err, RoutingError::NoAgent(5050));
}

#[test]
fn route_request_assigns_fresh_id_and_keeps_request() {
    let mut coord = RegistryCoordinator::with_secret(5000..=5100, None);
    coord.register_agent("svc".into(), None, 5050).unwrap();
    let a = coord.route_request(5050, request()).unwrap();
    let b = coord.route_request(5050, request()).unwrap();
    match (a, b) {
        (TunnelFrame::Inbound(x), TunnelFrame::Inbound(y)) => {
            assert_eq!(x.method, "GET");
            assert_eq!(x.path, "/x");
            assert_eq!(x.headers["accept"], "*/*");
            assert_eq!(x.body.as_ref(), b"hi");
            assert!(!x.id.0.is_empty());
            assert_ne!(x.id.0, y.id.0);
        }
        _ => panic!("expected inbound frames"),
    }
}

#[test]
fn open_registry_admits_any_proof() {
    let mut coord = RegistryCoordinator::with_secret(5000..=5100, None);
    let junk = AuthProof { ts: 0, tag: "junk".into() };
    assert_eq!(coord.register_agent("svc".into(), Some(junk), 5005).unwrap().assigned_port, 5005);
}

#[test]
fn failed_registration_leaves_ports_free() {
    let mut coord = RegistryCoordinator::with_secret(5000..=5001, None);
    assert_eq!(coord.register_agent("svc".into(), None, 7000).unwrap_err(), ConnectError::PortOutOfRange);
    assert_eq!(coord.register_agent("a".into(), None, 0).map(|g| (5000..=5001).contains(&g.assigned_port)), Ok(true));
    assert_eq!(coord.register_agent("b".into(), None, 0).map(|g| (5000..=5001).contains(&g.assigned_port)), Ok(true));
}

#[test]
fn routed_request_id_is_a_v4_uuid_text() {
    let mut coord = RegistryCoordinator::with_secret(5000..=5100, None);
    coord.register_agent("svc".into(), None, 5050).unwrap();
    match coord.route_request(5050, request()).unwrap() {
        TunnelFrame::Inbound(r) => {
            let id: Vec<char> = r.id.0.chars().collect();
            assert_eq!(id.len(), 36);
            for (i, c) in id.iter().enumerate() {
                if [8, 13, 18, 23].contains(&i) {
                    assert_eq!(*c, '-');
                } else {
                    assert!(c.is_ascii_digit() || ('a'..='f').contains(c));
                }
            }
            assert_eq!(id[14], '4');
        }
        _ => panic!("expected an inbound frame"),
    }
}
