use rabbit::adapter::coordinator::{caller_fingerprint_at, extract_and_validate_auth, RabbitCommand, TunnelParams};
use rabbit::auth::Authenticator;

#[test]
fn command_names_parse() {
    assert_eq!(RabbitCommand::parse("tunnel"), Some(RabbitCommand::Tunnel));
    assert_eq!(RabbitCommand::parse("list_services"), Some(RabbitCommand::ListServices));
    assert_eq!(RabbitCommand::parse("get_ports"), Some(RabbitCommand::GetPorts));
    assert_eq!(RabbitCommand::parse("Tunnel"), None);
    assert_eq!(RabbitCommand::parse(""), None);
    for c in [RabbitCommand::Tunnel, RabbitCommand::ListServices, RabbitCommand::GetPorts] {
        assert_eq!(RabbitCommand::parse(c.name()), Some(c));
    }
}

#[test]
fn tunnel_params_defaults() {
    let p = TunnelParams::from_headers(None, None, None, None);
    assert_eq!(p.namespace, "");
    assert!(p.auth.is_none());
    assert_eq!(p.requested_port, 0);
}

#[test]
fn tunnel_params_read_headers() {
    let p = TunnelParams::from_headers(Some("svc"), Some("1700000000"), Some("abcd"), Some("5050"));
    assert_eq!(p.namespace, "svc");
    let a = p.auth.unwrap();
    assert_eq!(a.ts, 1_700_000_000);
    assert_eq!(a.tag, "abcd");
    assert_eq!(p.requested_port, 5050);
}

#[test]
fn tunnel_params_tag_alone_forms_proof() {
    let p = TunnelParams::from_headers(None, Some("0"), Some("abcd"), Some("70000"));
    let a = p.auth.unwrap();
    assert_eq!(a.ts, 0);
    assert_eq!(a.tag, "abcd");
    assert_eq!(p.requested_port, 0);
    let q = TunnelParams::from_headers(None, Some("x"), Some(""), None);
    assert!(q.auth.is_none());
}

#[test]
fn caller_without_secret_is_anonymous() {
    assert_eq!(caller_fingerprint_at(None, None, None, 5), Ok(None));
    assert_eq!(extract_and_validate_auth(None, Some("1"), Some("x")), Ok(None));
}

#[test]
fn caller_with_secret_needs_fresh_signed_timestamp() {
    let a = Authenticator::new("k");
    let now: u64 = 1_700_000_000;
    let tag = a.sign(&now.to_le_bytes());
    let ts = now.to_string();
    assert_eq!(caller_fingerprint_at(Some(&a), Some(&ts), Some(&tag), now + 10), Ok(Some(a.fingerprint())));
    assert_eq!(caller_fingerprint_at(Some(&a), Some(&ts), Some(&tag), now + 31), Err(()));
    assert_eq!(caller_fingerprint_at(Some(&a), Some(&ts), Some("00"), now), Err(()));
    assert_eq!(caller_fingerprint_at(Some(&a), None, None, now), Err(()));
}
