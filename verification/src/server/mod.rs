pub mod http;
pub mod client_manager;
pub mod tunnel_agent;
pub mod tunnel_server;
