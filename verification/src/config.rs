use vstd::prelude::*;

verus! {

/// Width of the replay-protection window around the server's clock, in seconds.
pub const AUTH_WINDOW_SECS: u64 = 30u64;

/// How long the tunnel server waits for an agent connection's id line, in seconds.
pub const TUNNEL_ID_READ_TIMEOUT_SECS: u64 = 5u64;

/// Longest id line the tunnel server accepts, in bytes.
pub const TUNNEL_ID_MAX_BYTES: usize = 100usize;

/// Default cap on tunnel sockets per client.
pub const DEFAULT_MAX_SOCKETS: usize = 10usize;

/// How long the public side waits for a relayed response head, in seconds.
pub const RELAY_TIMEOUT_SECS: u64 = 30u64;

/// Interval between heartbeat frames on an agent stream, in seconds.
pub const HEARTBEAT_INTERVAL_SECS: u64 = 15u64;

/// Settings of the tunnel server.
#[derive(Clone, Debug)]
pub struct ServerConfig {
    pub http_port: u16,
    pub tunnel_port: u16,
    pub domain: Option<String>,
    pub secret: Option<String>,
    pub max_sockets: usize,
}

/// Settings of the local agent.
#[derive(Clone, Debug)]
pub struct ClientConfig {
    pub server_url: String,
    pub tunnel_id: String,
    pub local_host: String,
    pub local_port: u16,
    pub secret: Option<String>,
}

} // verus!
