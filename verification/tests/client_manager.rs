use rabbit::auth::Authenticator;
use rabbit::domain::error::ConnectError;
use rabbit::domain::types::AuthProof;
use rabbit::server::client_manager::{is_valid_id, ClientManager};

fn make_manager() -> ClientManager {
    ClientManager::new(None, 8081, None)
}

#[test]
fn client_manager_should_register_valid_id() {
    let mut m = make_manager();
    let info = m.register("myapp", None);
    assert!(info.is_ok());
    assert_eq!(info.unwrap().id, "myapp");
}

#[test]
fn client_manager_should_reject_duplicate_id() {
    let mut m = make_manager();
    m.register("myapp", None).unwrap();
    let second = m.register("myapp", None);
    assert_eq!(second.unwrap_err(), ConnectError::IdInUse);
}

#[test]
fn client_manager_should_reject_invalid_id_too_short() {
    let mut m = make_manager();
    let err = m.register("ab", None).unwrap_err();
    assert_eq!(err, ConnectError::InvalidId);
}

#[test]
fn client_manager_should_reject_invalid_id_uppercase() {
    let mut m = make_manager();
    let err = m.register("MyApp", None).unwrap_err();
    assert_eq!(err, ConnectError::InvalidId);
}

#[test]
fn client_manager_should_remove_tunnel() {
    let mut m = make_manager();
    m.register("myapp", None).unwrap();
    assert!(m.get("myapp").is_some());
    m.remove("myapp");
    assert!(m.get("myapp").is_none());
}

#[test]
fn registration_info_without_domain() {
    let mut m = make_manager();
    let info = m.register("myapp", None).unwrap();
    assert_eq!(info.url, "http://localhost/myapp");
    assert_eq!(info.tunnel_host, "localhost");
    assert_eq!(info.tunnel_port, 8081);
}

#[test]
fn registration_info_with_domain() {
    let mut m = ClientManager::new(Some("tunnel.example.com".into()), 9000, None);
    let info = m.register("myapp", None).unwrap();
    assert_eq!(info.url, "https://myapp.tunnel.example.com");
    assert_eq!(info.tunnel_host, "tunnel.example.com");
    assert_eq!(info.tunnel_port, 9000);
    assert_eq!(m.build_url("other"), "https://other.tunnel.example.com");
}

#[test]
fn valid_id_rules() {
    assert!(is_valid_id("abcd"));
    assert!(is_valid_id("my-app-1"));
    assert!(!is_valid_id("abc"));
    assert!(!is_valid_id(&"a".repeat(64)));
    assert!(is_valid_id(&"a".repeat(63)));
    assert!(!is_valid_id("-abcd"));
    assert!(!is_valid_id("abcd-"));
    assert!(!is_valid_id("ab_cd"));
}

#[test]
fn list_and_count_follow_registrations() {
    let mut m = make_manager();
    m.register("first", None).unwrap();
    m.register("second", None).unwrap();
    assert_eq!(m.tunnel_count(), 2);
    let mut ids: Vec<String> = m.list().into_iter().map(|c| c.id).collect();
    ids.sort();
    assert_eq!(ids, vec!["first".to_string(), "second".to_string()]);
}

#[test]
fn register_with_secret_checks_proof() {
    let mut m = ClientManager::new(None, 8081, Some("s3cret"));
    assert_eq!(m.register("myapp", None).unwrap_err(), ConnectError::Unauthenticated);
    let now: u64 = 1_700_000_000;
    let tag = Authenticator::new("s3cret").sign(&now.to_le_bytes());
    let ok = m.register_at("myapp", Some(AuthProof { ts: now, tag: tag.clone() }), now + 30, now);
    assert!(ok.is_ok());
    let late = m.register_at("other", Some(AuthProof { ts: now, tag }), now + 31, now);
    assert_eq!(late.unwrap_err(), ConnectError::TimestampExpired);
}

#[test]
fn uptime_counts_from_start() {
    let m = make_manager();
    assert_eq!(m.uptime_at(0), 0);
}

#[test]
fn open_server_ignores_any_proof() {
    let mut m = make_manager();
    let junk = AuthProof { ts: 1, tag: "junk".into() };
    assert!(m.register("myapp", Some(junk)).is_ok());
}

#[test]
fn registration_raises_tunnel_count_by_one() {
    let mut m = make_manager();
    assert_eq!(m.tunnel_count(), 0);
    m.register("first", None).unwrap();
    assert_eq!(m.tunnel_count(), 1);
    assert!(m.register("first", None).is_err());
    assert_eq!(m.tunnel_count(), 1);
    m.register("second", None).unwrap();
    assert_eq!(m.tunnel_count(), 2);
}
