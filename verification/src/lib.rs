pub mod adapter;
pub mod auth;
pub mod buffer;
pub mod client;
pub mod clock;
pub mod codec;
pub mod config;
pub mod coordinator;
pub mod domain;
pub mod proto;
pub mod proxy;
pub mod server;
pub mod strings;
pub mod text;
