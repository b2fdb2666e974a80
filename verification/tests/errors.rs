use rabbit::domain::error::{ConnectError, RoutingError, TunnelError};

#[test]
fn connect_error_display_unauthenticated() {
    assert_eq!(ConnectError::Unauthenticated.message(), "unauthenticated");
}

#[test]
fn connect_error_display_id_in_use() {
    assert_eq!(ConnectError::IdInUse.message(), "tunnel id already in use");
}

#[test]
fn routing_error_display_no_client() {
    assert_eq!(RoutingError::NoClient("myapp".into()).message(), "no tunnel registered for id 'myapp'");
}

#[test]
fn routing_error_display_no_socket() {
    assert_eq!(RoutingError::NoSocket.message(), "tunnel has no available sockets");
}

#[test]
fn connect_error_display_other_variants() {
    assert_eq!(ConnectError::TimestampExpired.message(), "timestamp out of window");
    assert_eq!(ConnectError::InvalidId.message(), "tunnel id contains invalid characters");
    assert_eq!(ConnectError::PortInUse.message(), "port already in use");
    assert_eq!(ConnectError::PortOutOfRange.message(), "port out of range");
    assert_eq!(ConnectError::PortExhausted.message(), "no free port in range");
}

#[test]
fn routing_error_display_agent_errors() {
    assert_eq!(RoutingError::NoAgent(5050).message(), "no tunnel agent on port 5050");
    assert_eq!(RoutingError::AgentDisconnected.message(), "tunnel agent disconnected");
}

#[test]
fn tunnel_error_display() {
    assert_eq!(TunnelError::IdTimeout.message(), "tunnel id read timed out");
    assert_eq!(TunnelError::IdTooLong.message(), "tunnel id too long (max 100 bytes)");
    assert_eq!(TunnelError::UnknownId.message(), "unknown tunnel id");
    let io = TunnelError::Io(std::io::Error::new(std::io::ErrorKind::Other, "broken pipe"));
    assert_eq!(io.message(), "i/o error: broken pipe");
}
